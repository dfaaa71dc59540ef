//! The placement-driver server with its timestamp oracle.
//!
//! The oracle owns a single counter and hands out strictly increasing,
//! never-repeated logical timestamps. Callers must hold the oracle
//! exclusively for the duration of a call (the critical section); issue
//! order is the order in which those exclusive calls complete, and the
//! issued sequence is exactly `1, 2, 3, ...` with no duplicates and no
//! gaps.

use vstd::prelude::*;

use crate::error::Error;

verus! {

/// A placement-driver server owning the timestamp oracle.
pub struct FeatherPD {
    /// The last timestamp handed out; the next one is `next_ts + 1`.
    next_ts: u64,
    /// Every timestamp issued so far, in issue order.
    issued: Ghost<Seq<u64>>,
}

impl FeatherPD {
    /// The last timestamp issued, which is also how many timestamps have
    /// been issued.
    pub closed spec fn counter(&self) -> u64 {
        self.next_ts
    }

    /// The history of issued timestamps, in issue order.
    pub closed spec fn issued(&self) -> Seq<u64> {
        self.issued@
    }

    /// The oracle's invariant: the history is exactly `1, 2, ..., counter`.
    pub open spec fn wf(&self) -> bool {
        &&& self.issued().len() == self.counter()
        &&& forall|i: int| 0 <= i < self.issued().len() ==> self.issued()[i] == i + 1
    }

    /// Creates a new placement-driver server with a fresh oracle that has
    /// issued nothing; its first timestamp will be 1. Construction never
    /// fails.
    pub fn new() -> (r: Result<Self, Error>)
        ensures
            r matches Ok(pd) && pd.wf() && pd.counter() == 0 && pd.issued() == Seq::<
                u64,
            >::empty(),
    {
        Ok(Self { next_ts: 0, issued: Ghost(Seq::empty()) })
    }

    /// Issues the next timestamp: increments the counter once and returns
    /// the new value, which is strictly greater than every timestamp
    /// issued before.
    pub fn get_next_ts(&mut self) -> (ts: u64)
        requires
            old(self).wf(),
            old(self).counter() < u64::MAX,
        ensures
            final(self).wf(),
            ts == old(self).counter() + 1,
            final(self).counter() == ts,
            final(self).issued() == old(self).issued().push(ts),
            forall|i: int| 0 <= i < old(self).issued().len() ==> old(self).issued()[i] < ts,
    {
        self.next_ts = self.next_ts + 1;
        proof {
            self.issued@ = self.issued@.push(self.next_ts);
        }
        self.next_ts
    }

    /// The issued timestamps are exactly the integers `1 ..= counter`:
    /// every value in that range was issued once, no value outside it ever
    /// was, and no value repeats — no duplicates and no gaps, however many
    /// callers took turns in the critical section.
    pub proof fn lemma_issued_exactly_one_to_counter(&self)
        requires
            self.wf(),
        ensures
            self.issued().len() == self.counter(),
            forall|v: u64| self.issued().contains(v) <==> 1 <= v <= self.counter(),
            forall|i: int, j: int|
                0 <= i < j < self.issued().len() ==> self.issued()[i] != self.issued()[j],
    {
        assert forall|v: u64| self.issued().contains(v) <==> 1 <= v <= self.counter() by {
            if 1 <= v <= self.counter() {
                assert(self.issued()[v - 1] == v);
            }
        }
    }

    /// Distinctness: any two calls pick out different timestamps, so a
    /// collection of values returned to concurrent callers always holds as
    /// many distinct integers as there were successful calls.
    pub proof fn lemma_issued_distinct(&self)
        requires
            self.wf(),
        ensures
            self.issued().no_duplicates(),
    {
    }
}

} // verus!
