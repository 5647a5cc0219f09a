//! The decisions of a LIMIT operator: how many rows of each batch pass.
use vstd::prelude::*;

verus! {

/// What to do with a batch.
#[derive(Clone, Copy, Debug, PartialEq, Eq, Structural)]
pub enum LimitDecision {
    /// The whole batch passes.
    Pass,
    /// Only the first `n` rows pass; the limit is then reached.
    Slice(u64),
}

/// Rows emitted so far against the limit.
pub struct LimitState {
    limit: u64,
    emitted: u64,
}

pub open spec fn min_nat(a: nat, b: nat) -> nat {
    if a <= b {
        a
    } else {
        b
    }
}

impl LimitState {
    pub closed spec fn limit(&self) -> nat {
        self.limit as nat
    }

    pub closed spec fn emitted(&self) -> nat {
        self.emitted as nat
    }

    pub closed spec fn wf(&self) -> bool {
        self.emitted <= self.limit
    }

    pub fn new(limit: u64) -> (r: Self)
        ensures
            r.wf(),
            r.limit() == limit,
            r.emitted() == 0,
    {
        LimitState { limit, emitted: 0 }
    }

    /// Has the limit been reached? Then no more batches are pulled.
    pub fn is_done(&self) -> (r: bool)
        ensures
            r == (self.emitted() >= self.limit()),
    {
        self.emitted >= self.limit
    }

    /// Admits a batch of `rows` rows: all of them while they fit under the
    /// limit, otherwise as many as are left. The rows emitted in all are
    /// never more than the limit, and are the rows offered up to it.
    pub fn take_batch(&mut self, rows: u64) -> (d: LimitDecision)
        requires
            old(self).wf(),
            old(self).emitted() < old(self).limit(),
        ensures
            final(self).wf(),
            final(self).limit() == old(self).limit(),
            final(self).emitted() == min_nat(old(self).emitted() + rows as nat, old(self).limit()),
            match d {
                LimitDecision::Pass => rows <= old(self).limit() - old(self).emitted(),
                LimitDecision::Slice(n) => rows > old(self).limit() - old(self).emitted() && n == old(self).limit()
                    - old(self).emitted(),
            },
    {
        let remaining = self.limit - self.emitted;
        if rows <= remaining {
            self.emitted = self.emitted + rows;
            LimitDecision::Pass
        } else {
            self.emitted = self.limit;
            LimitDecision::Slice(remaining)
        }
    }
}

/// Rows emitted after offering batches of `rows` from a start of `emitted`.
pub open spec fn emitted_after(limit: nat, emitted: nat, rows: Seq<nat>) -> nat
    decreases rows.len(),
{
    if rows.len() == 0 {
        emitted
    } else {
        min_nat(emitted_after(limit, emitted, rows.drop_last()) + rows.last(), limit)
    }
}

pub open spec fn total(rows: Seq<nat>) -> nat
    decreases rows.len(),
{
    if rows.len() == 0 {
        0
    } else {
        total(rows.drop_last()) + rows.last()
    }
}

/// Over any sequence of batches, a limit emits the smaller of the limit and
/// the rows offered.
pub proof fn lemma_limit_emits_min(limit: nat, rows: Seq<nat>)
    ensures
        emitted_after(limit, 0, rows) == min_nat(total(rows), limit),
    decreases rows.len(),
{
    if rows.len() > 0 {
        lemma_limit_emits_min(limit, rows.drop_last());
    }
}

} // verus!
