//! The query-string side of the request normalizer: decodes one
//! `key=value&key=value` string into the canonical request.
//!
//! The canonical decoding rule: components split on `&`, each component at
//! its first `=` (a component without one is a key with an empty value);
//! `+` decodes to a space and `%XX` with two hex digits to the character of
//! that code, anything else stands for itself; a lone or ill-formed `%` is
//! a structural error. The known fields are `type`, `persist`, `sql` and
//! `name`; a repeated key keeps its last value; an unknown key is ignored.
//! `persist` takes exactly `true` or `false`; batched `queries` are not
//! decodable from a query string; either mismatch is a structural error.
use vstd::prelude::*;

use crate::interfaces::{AppError, QueryParams, QueryParamsModel};
use crate::normalize::{RawParams, RawParamsModel, normalize_fields, normalize_model};
use crate::text::push_char;

verus! {

/// The position of the first occurrence of a character, if any.
pub open spec fn first_index(s: Seq<char>, c: char) -> Option<int>
    decreases s.len(),
{
    if s.len() == 0 {
        None
    } else if s[0] == c {
        Some(0)
    } else {
        match first_index(s.skip(1), c) {
            Some(j) => Some(j + 1),
            None => None,
        }
    }
}

/// A found position lies inside the sequence and carries the character.
proof fn lemma_first_index_bounds(s: Seq<char>, c: char)
    ensures
        (match first_index(s, c) {
            Some(i) => 0 <= i < s.len() && s[i] == c,
            None => true,
        }),
    decreases s.len(),
{
    if s.len() > 0 && s[0] != c {
        lemma_first_index_bounds(s.skip(1), c);
        match first_index(s.skip(1), c) {
            Some(j) => {
                assert(s.skip(1)[j] == s[j + 1]);
            },
            None => {},
        }
    }
}

proof fn lemma_first_index_at(s: Seq<char>, c: char, i: int)
    requires
        0 <= i < s.len(),
        s[i] == c,
        forall|j: int| 0 <= j < i ==> s[j] != c,
    ensures
        first_index(s, c) == Some(i),
    decreases i,
{
    if i > 0 {
        assert(s[0] != c);
        assert(s.skip(1)[i - 1] == s[i]);
        assert forall|j: int| 0 <= j < i - 1 implies s.skip(1)[j] != c by {
            assert(s.skip(1)[j] == s[j + 1]);
        }
        lemma_first_index_at(s.skip(1), c, i - 1);
    }
}

proof fn lemma_first_index_absent(s: Seq<char>, c: char)
    requires
        forall|j: int| 0 <= j < s.len() ==> s[j] != c,
    ensures
        first_index(s, c) is None,
    decreases s.len(),
{
    if s.len() > 0 {
        assert forall|j: int| 0 <= j < s.len() - 1 implies s.skip(1)[j] != c by {
            assert(s.skip(1)[j] == s[j + 1]);
        }
        lemma_first_index_absent(s.skip(1), c);
    }
}

/// The value of one hex digit, upper or lower case.
pub open spec fn hex_val(c: char) -> Option<int> {
    if '0' as int <= c as int <= '9' as int {
        Some(c as int - '0' as int)
    } else if 'a' as int <= c as int <= 'f' as int {
        Some(10 + c as int - 'a' as int)
    } else if 'A' as int <= c as int <= 'F' as int {
        Some(10 + c as int - 'A' as int)
    } else {
        None
    }
}

/// The character a two-digit escape decodes to.
pub open spec fn escaped_char(h: int, l: int) -> char {
    ((h * 16 + l) as u8) as char
}

/// Percent-decoding of one key or value: `+` is a space, `%XX` the
/// character of that code, anything else itself; `None` where a `%` is not
/// followed by two hex digits.
pub open spec fn pct_decode(s: Seq<char>) -> Option<Seq<char>>
    decreases s.len(),
{
    if s.len() == 0 {
        Some(Seq::empty())
    } else if s[0] == '+' {
        match pct_decode(s.skip(1)) {
            Some(r) => Some(seq![' '] + r),
            None => None,
        }
    } else if s[0] == '%' {
        if s.len() >= 3 {
            match (hex_val(s[1]), hex_val(s[2])) {
                (Some(h), Some(l)) => match pct_decode(s.skip(3)) {
                    Some(r) => Some(seq![escaped_char(h, l)] + r),
                    None => None,
                },
                _ => None,
            }
        } else {
            None
        }
    } else {
        match pct_decode(s.skip(1)) {
            Some(r) => Some(seq![s[0]] + r),
            None => None,
        }
    }
}

/// Decoded fields with nothing seen yet.
pub open spec fn empty_raw() -> RawParamsModel {
    RawParamsModel { query_type: None, persist: None, sql: None, name: None, queries: None }
}

/// One decoded key/value pair folded into the fields: a known key is set
/// (a later occurrence over an earlier one), an unknown key is ignored, a
/// non-boolean `persist` and any `queries` key are structural errors.
pub open spec fn apply_field(
    acc: RawParamsModel,
    k: Seq<char>,
    v: Seq<char>,
) -> Option<RawParamsModel> {
    if k == "type".view() {
        Some(RawParamsModel { query_type: Some(v), ..acc })
    } else if k == "persist".view() {
        if v == "true".view() {
            Some(RawParamsModel { persist: Some(true), ..acc })
        } else if v == "false".view() {
            Some(RawParamsModel { persist: Some(false), ..acc })
        } else {
            None
        }
    } else if k == "sql".view() {
        Some(RawParamsModel { sql: Some(v), ..acc })
    } else if k == "name".view() {
        Some(RawParamsModel { name: Some(v), ..acc })
    } else if k == "queries".view() {
        None
    } else {
        Some(acc)
    }
}

/// One raw component folded into the fields: split at the first `=`, both
/// halves percent-decoded, then applied.
pub open spec fn apply_component(acc: RawParamsModel, comp: Seq<char>) -> Option<RawParamsModel> {
    let kv = match first_index(comp, '=') {
        None => (comp, Seq::<char>::empty()),
        Some(i) => (comp.take(i), comp.skip(i + 1)),
    };
    match (pct_decode(kv.0), pct_decode(kv.1)) {
        (Some(k), Some(v)) => apply_field(acc, k, v),
        _ => None,
    }
}

/// The whole query string folded into the fields, component by component.
pub open spec fn qs_fold(acc: RawParamsModel, s: Seq<char>) -> Option<RawParamsModel>
    decreases s.len(),
    via qs_fold_decreases
{
    match first_index(s, '&') {
        None => apply_component(acc, s),
        Some(i) => match apply_component(acc, s.take(i)) {
            Some(acc2) => qs_fold(acc2, s.skip(i + 1)),
            None => None,
        },
    }
}

#[via_fn]
proof fn qs_fold_decreases(acc: RawParamsModel, s: Seq<char>) {
    lemma_first_index_bounds(s, '&');
}

/// What one query string decodes to.
pub open spec fn qs_decoded(s: Seq<char>) -> Option<RawParamsModel> {
    qs_fold(empty_raw(), s)
}

/// What one query string normalizes to: its decoded fields validated, with
/// the same demand on the discriminant as a structured body.
pub open spec fn qs_normalized(s: Seq<char>) -> Option<QueryParamsModel> {
    normalize_model(qs_decoded(s))
}

/// The position of the first occurrence of a character at or after `from`.
fn find_char(s: &str, from: usize, c: char) -> (r: Option<usize>)
    requires
        from <= s.view().len(),
    ensures
        (match r {
            Some(i) => from <= i < s.view().len() && s.view()[i as int] == c && (forall|j: int|
                from <= j < i ==> s.view()[j] != c),
            None => forall|j: int| from <= j < s.view().len() ==> s.view()[j] != c,
        }),
{
    let len = s.unicode_len();
    let mut i: usize = from;
    while i < len
        invariant
            from <= i <= len,
            len == s.view().len(),
            forall|j: int| from <= j < i ==> s.view()[j] != c,
        decreases len - i,
    {
        if s.get_char(i) == c {
            return Some(i);
        }
        i = i + 1;
    }
    None
}

/// The value of one hex digit, upper or lower case.
fn hex_val_exec(c: char) -> (r: Option<u8>)
    ensures
        (match r {
            Some(b) => hex_val(c) == Some(b as int),
            None => hex_val(c) is None,
        }),
{
    let u: u32 = c as u32;
    if '0' as u32 <= u && u <= '9' as u32 {
        Some((u - '0' as u32) as u8)
    } else if 'a' as u32 <= u && u <= 'f' as u32 {
        Some((10 + u - 'a' as u32) as u8)
    } else if 'A' as u32 <= u && u <= 'F' as u32 {
        Some((10 + u - 'A' as u32) as u8)
    } else {
        None
    }
}

/// Percent-decodes one key or value.
fn pct_decode_exec(s: &str) -> (r: Option<String>)
    ensures
        (match r {
            Some(t) => pct_decode(s.view()) == Some(t.view()),
            None => pct_decode(s.view()) is None,
        }),
{
    let len = s.unicode_len();
    let mut out = String::new();
    let mut i: usize = 0;
    proof {
        assert(s.view().skip(0) =~= s.view());
        match pct_decode(s.view()) {
            Some(r) => {
                assert(Seq::<char>::empty() + r =~= r);
            },
            None => {},
        }
    }
    while i < len
        invariant
            i <= len,
            len == s.view().len(),
            (match pct_decode(s.view().skip(i as int)) {
                Some(rest) => pct_decode(s.view()) == Some(out.view() + rest),
                None => pct_decode(s.view()) is None,
            }),
        decreases len - i,
    {
        let ghost tail = s.view().skip(i as int);
        proof {
            assert(tail[0] == s.view()[i as int]);
            assert(tail.skip(1) =~= s.view().skip(i as int + 1));
        }
        let c = s.get_char(i);
        if c == '+' {
            push_char(&mut out, ' ');
            proof {
                match pct_decode(s.view().skip(i as int + 1)) {
                    Some(r) => {
                        assert((out.view() + (seq![' '] + r)) =~= (out.view() + seq![' ']) + r);
                    },
                    None => {},
                }
            }
            i = i + 1;
        } else if c == '%' {
            if len - i < 3 {
                proof {
                    assert(tail.len() < 3);
                }
                return None;
            }
            proof {
                assert(tail[1] == s.view()[i as int + 1]);
                assert(tail[2] == s.view()[i as int + 2]);
                assert(tail.skip(3) =~= s.view().skip(i as int + 3));
            }
            let h = hex_val_exec(s.get_char(i + 1));
            let l = hex_val_exec(s.get_char(i + 2));
            match (h, l) {
                (Some(hb), Some(lb)) => {
                    let b: u8 = hb * 16 + lb;
                    push_char(&mut out, b as char);
                    proof {
                        match pct_decode(s.view().skip(i as int + 3)) {
                            Some(r) => {
                                assert((out.view() + (seq![b as char] + r)) =~= (out.view()
                                    + seq![b as char]) + r);
                            },
                            None => {},
                        }
                    }
                    i = i + 3;
                },
                _ => {
                    return None;
                },
            }
        } else {
            push_char(&mut out, c);
            proof {
                match pct_decode(s.view().skip(i as int + 1)) {
                    Some(r) => {
                        assert((out.view() + (seq![c] + r)) =~= (out.view() + seq![c]) + r);
                    },
                    None => {},
                }
            }
            i = i + 1;
        }
    }
    proof {
        assert(s.view().skip(len as int) =~= Seq::<char>::empty());
        assert(out.view() + Seq::<char>::empty() =~= out.view());
    }
    Some(out)
}

/// Whether a string holds exactly the given text.
fn eq_lit(k: &String, lit: &str) -> (r: bool)
    ensures
        r == (k.view() == lit.view()),
{
    let s: String = lit.to_owned();
    *k == s
}

/// Folds one decoded key/value pair into the fields.
fn apply_field_exec(acc: &mut RawParams, k: String, v: String) -> (ok: bool)
    ensures
        (match apply_field(old(acc).view(), k.view(), v.view()) {
            Some(m) => ok && final(acc).view() == m,
            None => !ok,
        }),
{
    if eq_lit(&k, "type") {
        acc.query_type = Some(v);
        true
    } else if eq_lit(&k, "persist") {
        if eq_lit(&v, "true") {
            acc.persist = Some(true);
            true
        } else if eq_lit(&v, "false") {
            acc.persist = Some(false);
            true
        } else {
            false
        }
    } else if eq_lit(&k, "sql") {
        acc.sql = Some(v);
        true
    } else if eq_lit(&k, "name") {
        acc.name = Some(v);
        true
    } else if eq_lit(&k, "queries") {
        false
    } else {
        true
    }
}

/// Folds one raw component into the fields.
fn apply_component_exec(acc: &mut RawParams, comp: &str) -> (ok: bool)
    ensures
        (match apply_component(old(acc).view(), comp.view()) {
            Some(m) => ok && final(acc).view() == m,
            None => !ok,
        }),
{
    let clen = comp.unicode_len();
    let eq_pos = find_char(comp, 0, '=');
    let ghost cv = comp.view();
    let (k_raw, v_raw) = match eq_pos {
        Some(i) => {
            proof {
                lemma_first_index_at(cv, '=', i as int);
            }
            (comp.substring_char(0, i), comp.substring_char(i + 1, clen))
        },
        None => {
            proof {
                lemma_first_index_absent(cv, '=');
            }
            (comp.substring_char(0, clen), comp.substring_char(clen, clen))
        },
    };
    proof {
        match first_index(cv, '=') {
            Some(i) => {
                assert(k_raw.view() =~= cv.take(i));
                assert(v_raw.view() =~= cv.skip(i + 1));
            },
            None => {
                assert(k_raw.view() =~= cv);
                assert(v_raw.view() =~= Seq::<char>::empty());
            },
        }
    }
    let k = match pct_decode_exec(k_raw) {
        Some(k) => k,
        None => {
            return false;
        },
    };
    let v = match pct_decode_exec(v_raw) {
        Some(v) => v,
        None => {
            return false;
        },
    };
    apply_field_exec(acc, k, v)
}

/// Normalizes one query string into the canonical request: pure in the
/// string, `Err` exactly where a component is structurally ill-formed or
/// the decoded fields lack a non-empty `type` discriminant.
pub fn parse_query_string(s: &str) -> (r: Result<QueryParams, AppError>)
    ensures
        (match r {
            Ok(q) => qs_normalized(s.view()) == Some(q.view()),
            Err(e) => qs_normalized(s.view()) is None && e == AppError::BadRequest,
        }),
{
    let mut acc = RawParams {
        query_type: None,
        persist: None,
        sql: None,
        name: None,
        queries: None,
    };
    let len = s.unicode_len();
    let mut pos: usize = 0;
    let mut more: bool = true;
    proof {
        assert(s.view().skip(0) =~= s.view());
        assert(acc.view() == empty_raw());
    }
    while more
        invariant
            pos <= len,
            len == s.view().len(),
            more ==> qs_fold(acc.view(), s.view().skip(pos as int)) == qs_decoded(s.view()),
            !more ==> qs_decoded(s.view()) == Some(acc.view()),
        decreases len - pos + (if more {
            1int
        } else {
            0int
        }),
    {
        let ghost tail = s.view().skip(pos as int);
        let amp = find_char(s, pos, '&');
        let end = match amp {
            Some(i) => i,
            None => len,
        };
        proof {
            match amp {
                Some(i) => {
                    assert forall|j: int| 0 <= j < i - pos implies tail[j] != '&' by {
                        assert(tail[j] == s.view()[pos + j]);
                    }
                    assert(tail[i - pos] == s.view()[i as int]);
                    lemma_first_index_at(tail, '&', i - pos);
                    assert(tail.take(i - pos) =~= s.view().subrange(pos as int, i as int));
                    assert(tail.skip(i - pos + 1) =~= s.view().skip(i as int + 1));
                },
                None => {
                    assert forall|j: int| 0 <= j < tail.len() implies tail[j] != '&' by {
                        assert(tail[j] == s.view()[pos + j]);
                    }
                    lemma_first_index_absent(tail, '&');
                    assert(tail =~= s.view().subrange(pos as int, len as int));
                },
            }
        }
        let comp = s.substring_char(pos, end);
        let ok = apply_component_exec(&mut acc, comp);
        if !ok {
            return Err(AppError::BadRequest);
        }
        match amp {
            Some(i) => {
                pos = i + 1;
            },
            None => {
                more = false;
            },
        }
    }
    normalize_fields(Some(acc))
}

} // verus!
