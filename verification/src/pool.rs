//! The connection-pool discipline: a connection is acquired before use and
//! released exactly once on every exit path, and a caller that finds the
//! pool at capacity waits rather than being dropped.
//!
//! The pool's own connection creation and health logic is an external
//! collaborator; what the gateway owns is this checkout discipline, stated
//! over a gauge of how many connections are out.
use vstd::prelude::*;

use crate::interfaces::{
    AppError, HttpWire, HttpWireModel, QueryResponse, encode_http, http_encoding, outcome_model,
    wire_opt_model,
};

verus! {

/// The gateway's view of the bounded pool: its capacity and how many of
/// its connections are checked out.
#[derive(Debug, PartialEq, Eq, Clone, Copy)]
pub struct PoolGauge {
    pub capacity: usize,
    pub in_use: usize,
}

impl PoolGauge {
    /// The gauge's invariant: a positive capacity never exceeded.
    pub open spec fn wf(self) -> bool {
        self.in_use <= self.capacity && 1 <= self.capacity
    }

    /// A pool with every connection free.
    pub fn new(capacity: usize) -> (p: Self)
        requires
            1 <= capacity,
        ensures
            p.wf(),
            p.capacity == capacity,
            p.in_use == 0,
    {
        PoolGauge { capacity, in_use: 0 }
    }

    /// Checks one connection out: succeeds exactly when the pool is below
    /// capacity, and never oversubscribes it.
    pub fn try_acquire(&mut self) -> (got: bool)
        requires
            old(self).wf(),
        ensures
            final(self).wf(),
            final(self).capacity == old(self).capacity,
            got <==> old(self).in_use < old(self).capacity,
            got ==> final(self).in_use == old(self).in_use + 1,
            !got ==> final(self).in_use == old(self).in_use,
    {
        if self.in_use < self.capacity {
            self.in_use = self.in_use + 1;
            true
        } else {
            false
        }
    }

    /// Returns one connection; owed exactly once per successful acquire,
    /// on every exit path.
    pub fn release(&mut self)
        requires
            old(self).wf(),
            1 <= old(self).in_use,
        ensures
            final(self).wf(),
            final(self).capacity == old(self).capacity,
            final(self).in_use == old(self).in_use - 1,
    {
        self.in_use = self.in_use - 1;
    }
}

/// The wire forms of a batch of outcomes, in order.
pub open spec fn http_batch(
    outs: Seq<Result<QueryResponse, AppError>>,
) -> Seq<Option<HttpWireModel>> {
    outs.map_values(|o: Result<QueryResponse, AppError>| http_encoding(outcome_model(o)))
}

/// Law: pool saturation. However many calls contend for the pool — more
/// than its capacity included — serving them under the checkout discipline
/// completes every one of them in order: none is dropped, none is answered
/// out of turn, and every connection taken is returned.
pub fn serve_all(capacity: usize, outcomes: Vec<Result<QueryResponse, AppError>>) -> (wires: Vec<
    Option<HttpWire>,
>)
    requires
        1 <= capacity,
    ensures
        wires.view().map_values(|w: Option<HttpWire>| wire_opt_model(w)) == http_batch(
            outcomes.view(),
        ),
{
    let ghost all = outcomes.view();
    let mut outcomes = outcomes;
    let mut pool = PoolGauge::new(capacity);
    let mut wires: Vec<Option<HttpWire>> = Vec::new();
    proof {
        assert(wires.view().map_values(|w: Option<HttpWire>| wire_opt_model(w)) =~= http_batch(
            all.take(0),
        ));
    }
    while outcomes.len() > 0
        invariant
            pool.wf(),
            pool.in_use == 0,
            pool.capacity == capacity,
            wires.view().len() + outcomes.view().len() == all.len(),
            outcomes.view() =~= all.skip(wires.view().len() as int),
            wires.view().map_values(|w: Option<HttpWire>| wire_opt_model(w)) == http_batch(
                all.take(wires.view().len() as int),
            ),
        decreases outcomes.len(),
    {
        let ghost done = wires.view().len() as int;
        let got = pool.try_acquire();
        assert(got);
        let o = outcomes.remove(0);
        proof {
            assert(o == all[done]);
        }
        let w = encode_http(o);
        pool.release();
        proof {
            assert(wires.view().push(w).map_values(|x: Option<HttpWire>| wire_opt_model(x))
                =~= wires.view().map_values(|x: Option<HttpWire>| wire_opt_model(x)).push(
                wire_opt_model(w),
            ));
            assert(http_batch(all.take(done + 1)) =~= http_batch(all.take(done)).push(
                http_encoding(outcome_model(all[done])),
            ));
        }
        wires.push(w);
    }
    proof {
        assert(all.take(wires.view().len() as int) =~= all);
    }
    wires
}

} // verus!
