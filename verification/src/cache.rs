//! The bounded memo cache: fingerprint keys to raw result bytes, at most
//! its capacity many entries, the least recently used entry evicted first.
//!
//! The store itself is the lru crate's cache. Its contents are modelled as
//! a sequence of key/value pairs ordered from most to least recently used;
//! every operation's contract says exactly how it rewrites that sequence.
use vstd::prelude::*;

verus! {

#[verifier::external_type_specification]
#[verifier::external_body]
#[verifier::reject_recursive_types(K)]
#[verifier::reject_recursive_types(V)]
#[verifier::reject_recursive_types(S)]
pub struct ExLruCache<K, V, S>(lru::LruCache<K, V, S>);

/// What the cache holds: its entries as key/value pairs, ordered from most
/// to least recently used.
pub uninterp spec fn cache_entries(c: lru::LruCache<String, Vec<u8>>) -> Seq<(Seq<char>, Seq<u8>)>;

/// The capacity the cache was created with.
pub uninterp spec fn cache_capacity(c: lru::LruCache<String, Vec<u8>>) -> nat;

/// Whether some entry carries the key.
pub open spec fn has_key(s: Seq<(Seq<char>, Seq<u8>)>, k: Seq<char>) -> bool {
    exists|i: int| 0 <= i < s.len() && s[i].0 == k
}

/// The first position carrying the key.
pub open spec fn key_index(s: Seq<(Seq<char>, Seq<u8>)>, k: Seq<char>) -> int
    decreases s.len(),
{
    if s.len() == 0 {
        0
    } else if s[0].0 == k {
        0
    } else {
        1 + key_index(s.skip(1), k)
    }
}

/// The value under the key, if any entry carries it.
pub open spec fn lookup(s: Seq<(Seq<char>, Seq<u8>)>, k: Seq<char>) -> Option<Seq<u8>> {
    if has_key(s, k) {
        Some(s[key_index(s, k)].1)
    } else {
        None
    }
}

/// No two entries carry the same key.
pub open spec fn distinct_keys(s: Seq<(Seq<char>, Seq<u8>)>) -> bool {
    forall|i: int, j: int| 0 <= i < j < s.len() ==> s[i].0 != s[j].0
}

/// How an insertion rewrites the entries: a present key is re-valued and
/// moved to the front; a fresh key is put at the front, evicting the last
/// (least recently used) entry where the cache is full. Entries are
/// replaced, never merged.
pub open spec fn lru_put(
    s: Seq<(Seq<char>, Seq<u8>)>,
    cap: nat,
    k: Seq<char>,
    v: Seq<u8>,
) -> Seq<(Seq<char>, Seq<u8>)> {
    if has_key(s, k) {
        seq![(k, v)] + s.remove(key_index(s, k))
    } else if s.len() >= cap {
        seq![(k, v)] + s.drop_last()
    } else {
        seq![(k, v)] + s
    }
}

/// How a lookup rewrites the entries: a hit moves its entry to the front,
/// a miss changes nothing.
pub open spec fn lru_promote(
    s: Seq<(Seq<char>, Seq<u8>)>,
    k: Seq<char>,
) -> Seq<(Seq<char>, Seq<u8>)> {
    if has_key(s, k) {
        seq![s[key_index(s, k)]] + s.remove(key_index(s, k))
    } else {
        s
    }
}

/// The first position carrying a present key is a position of that key.
pub proof fn lemma_key_index(s: Seq<(Seq<char>, Seq<u8>)>, k: Seq<char>)
    requires
        has_key(s, k),
    ensures
        0 <= key_index(s, k) < s.len(),
        s[key_index(s, k)].0 == k,
    decreases s.len(),
{
    if s.len() > 0 && s[0].0 != k {
        assert(has_key(s.skip(1), k)) by {
            let i = choose|i: int| 0 <= i < s.len() && s[i].0 == k;
            assert(s.skip(1)[i - 1] == s[i]);
        }
        lemma_key_index(s.skip(1), k);
        assert(s[key_index(s, k)] == s.skip(1)[key_index(s.skip(1), k)]);
    }
}

/// Relies on lru::LruCache::new: an empty cache bounded by the given
/// capacity.
#[verifier::external_body]
pub(crate) fn lru_new(cap: usize) -> (c: lru::LruCache<String, Vec<u8>>)
    requires
        1 <= cap,
    ensures
        cache_entries(c) == Seq::<(Seq<char>, Seq<u8>)>::empty(),
        cache_capacity(c) == cap as nat,
{
    lru::LruCache::new(std::num::NonZeroUsize::new(cap).unwrap())
}

/// Relies on lru::LruCache::put: re-values and promotes a present key,
/// inserts a fresh key at the front and, at capacity, evicts the least
/// recently used entry.
#[verifier::external_body]
pub(crate) fn lru_put_exec(c: &mut lru::LruCache<String, Vec<u8>>, k: String, v: Vec<u8>)
    ensures
        cache_entries(*final(c)) == lru_put(
            cache_entries(*old(c)),
            cache_capacity(*old(c)),
            k.view(),
            v.view(),
        ),
        cache_capacity(*final(c)) == cache_capacity(*old(c)),
{
    let _ = c.put(k, v);
}

/// Relies on lru::LruCache::get: returns the value under the key and moves
/// its entry to the front; a miss changes nothing.
#[verifier::external_body]
pub(crate) fn lru_get_exec(c: &mut lru::LruCache<String, Vec<u8>>, k: &String) -> (r: Option<
    Vec<u8>,
>)
    ensures
        r.deep_view() == lookup(cache_entries(*old(c)), k.view()),
        cache_entries(*final(c)) == lru_promote(cache_entries(*old(c)), k.view()),
        cache_capacity(*final(c)) == cache_capacity(*old(c)),
{
    c.get(k).cloned()
}

/// Relies on lru::LruCache::len: the number of entries held.
#[verifier::external_body]
pub(crate) fn lru_len_exec(c: &lru::LruCache<String, Vec<u8>>) -> (n: usize)
    ensures
        n as nat == cache_entries(*c).len(),
{
    c.len()
}

/// Insertion keeps the keys distinct and the length bounded by the
/// capacity.
pub proof fn lemma_lru_put_wf(s: Seq<(Seq<char>, Seq<u8>)>, cap: nat, k: Seq<char>, v: Seq<u8>)
    requires
        distinct_keys(s),
        s.len() <= cap,
        1 <= cap,
    ensures
        distinct_keys(lru_put(s, cap, k, v)),
        lru_put(s, cap, k, v).len() <= cap,
{
    let s2 = lru_put(s, cap, k, v);
    if has_key(s, k) {
        lemma_key_index(s, k);
        let idx = key_index(s, k);
        let r = s.remove(idx);
        assert forall|i: int, j: int| 0 <= i < j < s2.len() implies s2[i].0 != s2[j].0 by {
            if i == 0 {
                let jr = j - 1;
                if jr < idx {
                    assert(r[jr] == s[jr]);
                } else {
                    assert(r[jr] == s[jr + 1]);
                }
            } else {
                let ir = i - 1;
                let jr = j - 1;
                assert(r[ir] == (if ir < idx { s[ir] } else { s[ir + 1] }));
                assert(r[jr] == (if jr < idx { s[jr] } else { s[jr + 1] }));
            }
        }
    } else if s.len() >= cap {
        let r = s.drop_last();
        assert forall|i: int, j: int| 0 <= i < j < s2.len() implies s2[i].0 != s2[j].0 by {
            if i == 0 {
                assert(r[j - 1] == s[j - 1]);
                assert(!(s[j - 1].0 == k));
            } else {
                assert(r[i - 1] == s[i - 1]);
                assert(r[j - 1] == s[j - 1]);
            }
        }
    } else {
        assert forall|i: int, j: int| 0 <= i < j < s2.len() implies s2[i].0 != s2[j].0 by {
            if i == 0 {
                assert(s2[j] == s[j - 1]);
                assert(!(s[j - 1].0 == k));
            } else {
                assert(s2[i] == s[i - 1]);
                assert(s2[j] == s[j - 1]);
            }
        }
    }
}

/// A lookup keeps the keys distinct and the length unchanged.
pub proof fn lemma_lru_promote_wf(s: Seq<(Seq<char>, Seq<u8>)>, k: Seq<char>)
    requires
        distinct_keys(s),
    ensures
        distinct_keys(lru_promote(s, k)),
        lru_promote(s, k).len() == s.len(),
        forall|k2: Seq<char>| has_key(lru_promote(s, k), k2) == has_key(s, k2),
{
    let s2 = lru_promote(s, k);
    if has_key(s, k) {
        lemma_key_index(s, k);
        let idx = key_index(s, k);
        let r = s.remove(idx);
        assert forall|i: int, j: int| 0 <= i < j < s2.len() implies s2[i].0 != s2[j].0 by {
            if i == 0 {
                let jr = j - 1;
                assert(r[jr] == (if jr < idx { s[jr] } else { s[jr + 1] }));
            } else {
                let ir = i - 1;
                let jr = j - 1;
                assert(r[ir] == (if ir < idx { s[ir] } else { s[ir + 1] }));
                assert(r[jr] == (if jr < idx { s[jr] } else { s[jr + 1] }));
            }
        }
        assert forall|k2: Seq<char>| has_key(s2, k2) == has_key(s, k2) by {
            if has_key(s2, k2) {
                let i = choose|i: int| 0 <= i < s2.len() && s2[i].0 == k2;
                if i == 0 {
                    assert(s[idx].0 == k2);
                } else if i - 1 < idx {
                    assert(s[i - 1].0 == k2);
                } else {
                    assert(s[i].0 == k2);
                }
            }
            if has_key(s, k2) {
                let i = choose|i: int| 0 <= i < s.len() && s[i].0 == k2;
                if i == idx {
                    assert(s2[0].0 == k2);
                } else if i < idx {
                    assert(s2[i + 1] == r[i]);
                    assert(s2[i + 1].0 == k2);
                } else {
                    assert(s2[i] == r[i - 1]);
                    assert(s2[i].0 == k2);
                }
            }
        }
    }
}

/// Law: cache eviction. A full cache handed a fresh fingerprint keeps its
/// bound, holds the new entry, keeps every other entry except the least
/// recently used one — and that one is evicted: a subsequent lookup of its
/// key is a miss.
pub proof fn lemma_cache_eviction(s: Seq<(Seq<char>, Seq<u8>)>, cap: nat, k: Seq<char>, v: Seq<u8>)
    requires
        distinct_keys(s),
        s.len() == cap,
        1 <= cap,
        !has_key(s, k),
    ensures
        lru_put(s, cap, k, v).len() == cap,
        lookup(lru_put(s, cap, k, v), k) == Some(v),
        !has_key(lru_put(s, cap, k, v), s.last().0),
        lookup(lru_put(s, cap, k, v), s.last().0) is None,
        forall|k2: Seq<char>|
            has_key(s, k2) && k2 != s.last().0 ==> has_key(lru_put(s, cap, k, v), k2),
{
    let s2 = lru_put(s, cap, k, v);
    assert(s2 =~= seq![(k, v)] + s.drop_last());
    assert(s2[0].0 == k);
    assert(has_key(s2, k));
    assert(key_index(s2, k) == 0);
    let evicted = s.last().0;
    assert(!has_key(s2, evicted)) by {
        if has_key(s2, evicted) {
            let i = choose|i: int| 0 <= i < s2.len() && s2[i].0 == evicted;
            if i == 0 {
                assert(s[s.len() - 1].0 == k);
            } else {
                assert(s2[i] == s[i - 1]);
                assert(s[i - 1].0 == s[s.len() - 1].0);
                assert(i - 1 < s.len() - 1);
            }
        }
    }
    assert forall|k2: Seq<char>| has_key(s, k2) && k2 != evicted implies has_key(s2, k2) by {
        let i = choose|i: int| 0 <= i < s.len() && s[i].0 == k2;
        if i == s.len() - 1 {
            assert(k2 == evicted);
        } else {
            assert(s2[i + 1] == s[i]);
        }
    }
}

/// The entries an empty cache of the given capacity holds after the pairs
/// are inserted in order.
pub open spec fn filled(cap: nat, pairs: Seq<(Seq<char>, Seq<u8>)>) -> Seq<(Seq<char>, Seq<u8>)>
    decreases pairs.len(),
{
    if pairs.len() == 0 {
        Seq::empty()
    } else {
        lru_put(filled(cap, pairs.drop_last()), cap, pairs.last().0, pairs.last().1)
    }
}

/// Distinct pairs that fit the capacity land in reverse insertion order:
/// the latest at the front, the first inserted least recent.
proof fn lemma_filled_reversed(cap: nat, pairs: Seq<(Seq<char>, Seq<u8>)>)
    requires
        distinct_keys(pairs),
        pairs.len() <= cap,
    ensures
        filled(cap, pairs).len() == pairs.len(),
        forall|i: int|
            0 <= i < pairs.len() ==> filled(cap, pairs)[i] == pairs[pairs.len() - 1 - i],
    decreases pairs.len(),
{
    if pairs.len() > 0 {
        let p = pairs.drop_last();
        let x = pairs.last();
        assert forall|i: int, j: int| 0 <= i < j < p.len() implies p[i].0 != p[j].0 by {
            assert(p[i] == pairs[i]);
            assert(p[j] == pairs[j]);
        }
        lemma_filled_reversed(cap, p);
        let f0 = filled(cap, p);
        assert(!has_key(f0, x.0)) by {
            if has_key(f0, x.0) {
                let i = choose|i: int| 0 <= i < f0.len() && f0[i].0 == x.0;
                assert(f0[i] == p[p.len() - 1 - i]);
                assert(pairs[p.len() - 1 - i].0 == pairs[pairs.len() - 1].0);
            }
        }
        assert(filled(cap, pairs) =~= seq![x] + f0);
        assert forall|i: int|
            0 <= i < pairs.len() implies filled(cap, pairs)[i] == pairs[pairs.len() - 1 - i] by {
            if i > 0 {
                assert(filled(cap, pairs)[i] == f0[i - 1]);
                assert(f0[i - 1] == p[p.len() - 1 - (i - 1)]);
                assert(p[pairs.len() - 1 - i] == pairs[pairs.len() - 1 - i]);
            }
        }
    }
}

/// Law: cache eviction, end to end. Inserting capacity-many distinct
/// fingerprints into an empty cache and then one more distinct fingerprint
/// evicts exactly the least recently used — the first inserted: a
/// subsequent lookup of that key is a miss, while the new key and every
/// other inserted key are present and the bound is kept.
pub proof fn lemma_cache_fill_eviction(
    cap: nat,
    pairs: Seq<(Seq<char>, Seq<u8>)>,
    k: Seq<char>,
    v: Seq<u8>,
)
    requires
        distinct_keys(pairs.push((k, v))),
        pairs.len() == cap,
        1 <= cap,
    ensures
        filled(cap, pairs.push((k, v))).len() == cap,
        lookup(filled(cap, pairs.push((k, v))), k) == Some(v),
        lookup(filled(cap, pairs.push((k, v))), pairs[0].0) is None,
        forall|i: int| 1 <= i < pairs.len() ==> has_key(filled(cap, pairs.push((k, v))), pairs[i].0),
{
    let all = pairs.push((k, v));
    assert forall|i: int, j: int| 0 <= i < j < pairs.len() implies pairs[i].0 != pairs[j].0 by {
        assert(all[i] == pairs[i]);
        assert(all[j] == pairs[j]);
    }
    lemma_filled_reversed(cap, pairs);
    let f0 = filled(cap, pairs);
    assert(distinct_keys(f0)) by {
        assert forall|i: int, j: int| 0 <= i < j < f0.len() implies f0[i].0 != f0[j].0 by {
            assert(f0[i] == pairs[pairs.len() - 1 - i]);
            assert(f0[j] == pairs[pairs.len() - 1 - j]);
        }
    }
    assert(!has_key(f0, k)) by {
        if has_key(f0, k) {
            let i = choose|i: int| 0 <= i < f0.len() && f0[i].0 == k;
            assert(f0[i] == pairs[pairs.len() - 1 - i]);
            assert(all[pairs.len() - 1 - i].0 == all[pairs.len() as int].0);
        }
    }
    lemma_cache_eviction(f0, cap, k, v);
    assert(all.drop_last() =~= pairs);
    assert(all.last() == (k, v));
    let f = filled(cap, all);
    assert(f == lru_put(f0, cap, k, v));
    assert(f0.last() == pairs[0]);
    assert forall|i: int| 1 <= i < pairs.len() implies has_key(f, pairs[i].0) by {
        assert(f0[pairs.len() - 1 - i] == pairs[i]);
        assert(has_key(f0, pairs[i].0));
        assert(all[i] == pairs[i]);
        assert(all[0] == pairs[0]);
        assert(pairs[i].0 != pairs[0].0);
    }
}

/// The bounded memo cache one gateway process shares across every request
/// and session it serves.
pub struct QueryCache {
    cache: lru::LruCache<String, Vec<u8>>,
}

impl QueryCache {
    /// The entries, from most to least recently used.
    pub closed spec fn entries(self) -> Seq<(Seq<char>, Seq<u8>)> {
        cache_entries(self.cache)
    }

    /// The capacity the cache was created with.
    pub closed spec fn capacity(self) -> nat {
        cache_capacity(self.cache)
    }

    /// The cache's invariant: a positive bound, at most that many entries,
    /// and no key twice.
    pub open spec fn wf(self) -> bool {
        &&& 1 <= self.capacity()
        &&& self.entries().len() <= self.capacity()
        &&& distinct_keys(self.entries())
    }

    /// An empty cache bounded by the given capacity.
    pub fn new(cap: usize) -> (c: Self)
        requires
            1 <= cap,
        ensures
            c.wf(),
            c.entries() == Seq::<(Seq<char>, Seq<u8>)>::empty(),
            c.capacity() == cap as nat,
    {
        QueryCache { cache: lru_new(cap) }
    }

    /// Looks a fingerprint up: a hit returns its bytes and makes the entry
    /// the most recently used one; a miss changes nothing.
    pub fn get(&mut self, k: &String) -> (r: Option<Vec<u8>>)
        requires
            old(self).wf(),
        ensures
            final(self).wf(),
            r.deep_view() == lookup(old(self).entries(), k.view()),
            final(self).entries() == lru_promote(old(self).entries(), k.view()),
            final(self).capacity() == old(self).capacity(),
    {
        proof {
            lemma_lru_promote_wf(self.entries(), k.view());
        }
        lru_get_exec(&mut self.cache, k)
    }

    /// Writes raw result bytes back under a fingerprint, evicting the least
    /// recently used entry where the cache is full and the key fresh.
    pub fn put(&mut self, k: String, v: Vec<u8>)
        requires
            old(self).wf(),
        ensures
            final(self).wf(),
            final(self).entries() == lru_put(
                old(self).entries(),
                old(self).capacity(),
                k.view(),
                v.view(),
            ),
            final(self).capacity() == old(self).capacity(),
    {
        proof {
            lemma_lru_put_wf(self.entries(), self.capacity(), k.view(), v.view());
        }
        lru_put_exec(&mut self.cache, k, v)
    }

    /// The number of entries held.
    pub fn len(&self) -> (n: usize)
        ensures
            n as nat == self.entries().len(),
    {
        lru_len_exec(&self.cache)
    }
}

} // verus!
