use vstd::prelude::*;

verus! {

/// Where the cursor of a schedule of `d.len()` delays goes after one step:
/// forward by one, but never past the last delay.
pub open spec fn advance(d: Seq<u64>, c: nat) -> nat {
    if c + 1 < d.len() {
        c + 1
    } else {
        (d.len() - 1) as nat
    }
}

/// The cursor after `k` steps taken from the start of the schedule.
pub open spec fn cursor_after(d: Seq<u64>, k: nat) -> nat
    decreases k,
{
    if k == 0 {
        0
    } else {
        advance(d, cursor_after(d, (k - 1) as nat))
    }
}

/// The delay that the `k`-th step (counted from 0) after a start or a reset
/// hands out.
pub open spec fn delay_at(d: Seq<u64>, k: nat) -> u64 {
    d[cursor_after(d, k) as int]
}

/// A never-ending schedule of retry delays: it walks through the given
/// delays in order, then keeps returning the last one.
pub struct Backoff<'a> {
    i: usize,
    v: &'a [u64],
}

impl<'a> Backoff<'a> {
    /// The delays of the schedule, in order.
    pub closed spec fn delays(&self) -> Seq<u64> {
        self.v@
    }

    /// The position of the delay that the next call of `next` returns.
    pub closed spec fn cursor(&self) -> nat {
        self.i as nat
    }

    pub open spec fn wf(&self) -> bool {
        &&& self.delays().len() > 0
        &&& self.cursor() < self.delays().len()
    }

    /// A schedule over `v`, at its first delay. An empty schedule is a
    /// programming error, refused by the precondition.
    pub fn new(v: &'a [u64]) -> (r: Backoff<'a>)
        requires
            v@.len() > 0,
        ensures
            r.wf(),
            r.delays() == v@,
            r.cursor() == 0,
    {
        Backoff { i: 0, v }
    }

    /// Returns the delay under the cursor and moves the cursor on, clamped at
    /// the last delay.
    pub fn next(&mut self) -> (r: u64)
        requires
            old(self).wf(),
        ensures
            final(self).wf(),
            final(self).delays() == old(self).delays(),
            r == old(self).delays()[old(self).cursor() as int],
            final(self).cursor() == advance(old(self).delays(), old(self).cursor()),
    {
        let ret = self.v[self.i];
        if self.i + 1 < self.v.len() {
            self.i = self.i + 1;
        } else {
            self.i = self.v.len() - 1;
        }
        ret
    }

    /// Puts the cursor back on the first delay.
    pub fn reset(&mut self)
        requires
            old(self).wf(),
        ensures
            final(self).wf(),
            final(self).delays() == old(self).delays(),
            final(self).cursor() == 0,
    {
        self.i = 0;
    }
}

/// After `k` steps from the start the cursor stands at `k`, or at the last
/// delay once `k` reaches it.
pub proof fn lemma_cursor_after(d: Seq<u64>, k: nat)
    requires
        d.len() > 0,
    ensures
        cursor_after(d, k) == if k < d.len() { k } else { (d.len() - 1) as nat },
    decreases k,
{
    if k > 0 {
        lemma_cursor_after(d, (k - 1) as nat);
    }
}

/// A schedule `[d0, ..., dn]` used from its start (or from a reset) hands out
/// `d0, ..., dn` and then `dn` on every later step, never wrapping round.
pub proof fn lemma_schedule_clamps(d: Seq<u64>, k: nat)
    requires
        d.len() > 0,
    ensures
        k < d.len() ==> delay_at(d, k) == d[k as int],
        k >= d.len() ==> delay_at(d, k) == d.last(),
        delay_at(d, 0) == d[0],
{
    lemma_cursor_after(d, k);
    lemma_cursor_after(d, 0);
}

} // verus!
