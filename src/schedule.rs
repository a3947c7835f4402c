//! A fixed, non-empty list of floor prices with a cyclic position.
use vstd::prelude::*;

verus! {

/// Floor prices visited in turn; the position always lies inside the list.
pub struct FloorSchedule {
    prices: Vec<u64>,
    index: usize,
}

/// Position reached from `start` after `k` single steps on a cycle of `len`.
pub open spec fn index_after(start: nat, len: nat, k: nat) -> nat
    decreases k,
{
    if k == 0 {
        start
    } else {
        ((index_after(start, len, (k - 1) as nat) + 1) as int % (len as int)) as nat
    }
}

impl FloorSchedule {
    pub closed spec fn prices(&self) -> Seq<u64> {
        self.prices@
    }

    pub closed spec fn index(&self) -> nat {
        self.index as nat
    }

    pub open spec fn wf(&self) -> bool {
        self.prices().len() > 0 && self.index() < self.prices().len()
    }

    /// A schedule over `prices` positioned at `start` (taken modulo the
    /// length); `None` when `prices` is empty.
    pub fn new(prices: Vec<u64>, start: usize) -> (r: Option<FloorSchedule>)
        ensures
            prices@.len() == 0 <==> r is None,
            r matches Some(s) ==> s.wf() && s.prices() == prices@ && s.index() == start as int
                % (prices@.len() as int),
    {
        if prices.len() == 0 {
            None
        } else {
            let index = start % prices.len();
            Some(FloorSchedule { prices, index })
        }
    }

    /// The floor price at the current position.
    pub fn current(&self) -> (r: u64)
        requires
            self.wf(),
        ensures
            r == self.prices()[self.index() as int],
    {
        self.prices[self.index]
    }

    /// The current position.
    pub fn position(&self) -> (r: usize)
        ensures
            r == self.index(),
    {
        self.index
    }

    /// Number of prices in the schedule.
    pub fn len(&self) -> (r: usize)
        ensures
            r == self.prices().len(),
    {
        self.prices.len()
    }

    /// Moves one position forward, wrapping to the start after the last price.
    pub fn advance(&mut self)
        requires
            old(self).wf(),
        ensures
            final(self).wf(),
            final(self).prices() == old(self).prices(),
            final(self).index() == (old(self).index() + 1) as int % (old(self).prices().len() as int),
    {
        let n = self.prices.len();
        self.index = (self.index + 1) % n;
    }
}

/// After `k` advances from position `start` on a schedule of `len` prices the
/// position is `(start + k) mod len`: from 1 on six prices the positions run
/// 1, 2, 3, 4, 5, 0, 1, ...
pub proof fn lemma_advances(start: nat, len: nat, k: nat)
    requires
        len > 0,
        start < len,
    ensures
        index_after(start, len, k) == (start + k) as int % (len as int),
    decreases k,
{
    if k > 0 {
        lemma_advances(start, len, (k - 1) as nat);
        vstd::arithmetic::div_mod::lemma_add_mod_noop(
            (start + k - 1) as int,
            1,
            len as int,
        );
        vstd::arithmetic::div_mod::lemma_mod_twice(1, len as int);
        vstd::arithmetic::div_mod::lemma_mod_twice((start + k - 1) as int, len as int);
        if len == 1 {
            assert(1int % 1 == 0);
        } else {
            assert(1int % (len as int) == 1) by {
                vstd::arithmetic::div_mod::lemma_small_mod(1, len);
            }
        }
    } else {
        vstd::arithmetic::div_mod::lemma_small_mod(start, len);
    }
}

} // verus!
