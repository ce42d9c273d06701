//! Progress accounting for a single backup pass.

use vstd::prelude::*;
use vstd::arithmetic::div_mod::{lemma_div_is_ordered, lemma_div_multiples_vanish};

verus! {

/// Integer percentage of `processed` out of `total`, floored; 0 when the
/// total is 0, so that an empty run never divides by zero.
pub open spec fn spec_percentage(processed: int, total: int) -> int {
    if total == 0 {
        0
    } else {
        processed * 100 / total
    }
}

/// Counters for one backup pass.  `completed_files` and `processed_size`
/// only grow, and never past `total_files` / `total_size`.
pub struct BackupState {
    pub total_files: usize,
    pub completed_files: usize,
    pub total_size: u64,
    pub processed_size: u64,
}

impl BackupState {
    /// The pass invariant: what has been done never exceeds what was planned.
    pub open spec fn wf(self) -> bool {
        self.completed_files <= self.total_files && self.processed_size <= self.total_size
    }

    pub fn new(total_files: usize, total_size: u64) -> (r: BackupState)
        ensures
            r.total_files == total_files,
            r.completed_files == 0,
            r.total_size == total_size,
            r.processed_size == 0,
            r.wf(),
    {
        BackupState { total_files, completed_files: 0, total_size, processed_size: 0 }
    }

    /// Records one successfully processed file of `file_size` bytes.  The
    /// caller calls this exactly once per file, so the counters stay within
    /// the planned totals.
    pub fn update_progress(&mut self, file_size: u64)
        requires
            old(self).completed_files < old(self).total_files,
            old(self).processed_size + file_size <= old(self).total_size,
        ensures
            final(self).completed_files == old(self).completed_files + 1,
            final(self).processed_size == old(self).processed_size + file_size,
            final(self).total_files == old(self).total_files,
            final(self).total_size == old(self).total_size,
            final(self).wf(),
            (final(self).completed_files as int, final(self).processed_size as int)
                == spec_record(
                (old(self).completed_files as int, old(self).processed_size as int),
                file_size as int,
            ),
    {
        self.completed_files = self.completed_files + 1;
        self.processed_size = self.processed_size + file_size;
    }

    /// Whole-number percentage of bytes processed; 0 for an empty plan.
    pub fn progress_percentage(&self) -> (r: u64)
        requires
            self.wf(),
        ensures
            r == spec_percentage(self.processed_size as int, self.total_size as int),
            r <= 100,
    {
        if self.total_size == 0 {
            0
        } else {
            let scaled: u128 = (self.processed_size as u128) * 100;
            let q: u128 = scaled / (self.total_size as u128);
            proof {
                lemma_percentage_bounded(self.processed_size as int, self.total_size as int);
            }
            q as u64
        }
    }
}

/// The percentage never exceeds 100 while the pass invariant holds.
pub proof fn lemma_percentage_bounded(processed: int, total: int)
    requires
        0 <= processed <= total,
    ensures
        0 <= spec_percentage(processed, total) <= 100,
{
    if total != 0 {
        lemma_div_is_ordered(processed * 100, total * 100, total);
        lemma_div_multiples_vanish(100, total);
        assert(total * 100 == 100 * total) by (nonlinear_arith);
    }
}

/// The reported percentage never goes backwards as bytes are processed.
pub proof fn lemma_percentage_monotonic(p1: int, p2: int, total: int)
    requires
        0 <= p1 <= p2 <= total,
    ensures
        spec_percentage(p1, total) <= spec_percentage(p2, total),
{
    if total != 0 {
        lemma_div_is_ordered(p1 * 100, p2 * 100, total);
    }
}

/// Once every planned byte is processed, the percentage reads exactly 100.
pub proof fn lemma_percentage_complete(total: int)
    requires
        total > 0,
    ensures
        spec_percentage(total, total) == 100,
{
    lemma_div_multiples_vanish(100, total);
    assert(total * 100 == 100 * total) by (nonlinear_arith);
}

/// One `update_progress` step, at the level of the counters alone:
/// the pair is (files completed, bytes processed).
pub open spec fn spec_record(state: (int, int), size: int) -> (int, int) {
    (state.0 + 1, state.1 + size)
}

/// The counters after a whole sequence of recorded sizes.
pub open spec fn spec_record_all(state: (int, int), sizes: Seq<int>) -> (int, int)
    decreases sizes.len(),
{
    if sizes.len() == 0 {
        state
    } else {
        spec_record_all(spec_record(state, sizes[0]), sizes.skip(1))
    }
}

/// The sum of a sequence of sizes.
pub open spec fn spec_sum(sizes: Seq<int>) -> int
    decreases sizes.len(),
{
    if sizes.len() == 0 {
        0
    } else {
        sizes[0] + spec_sum(sizes.skip(1))
    }
}

/// Progress is exact bookkeeping: after any sequence of recorded sizes,
/// the completed-file count equals the number of calls made, and the
/// processed-byte count equals the running sum of the sizes.
pub proof fn lemma_record_sequence(state: (int, int), sizes: Seq<int>)
    ensures
        spec_record_all(state, sizes).0 == state.0 + sizes.len(),
        spec_record_all(state, sizes).1 == state.1 + spec_sum(sizes),
    decreases sizes.len(),
{
    if sizes.len() > 0 {
        lemma_record_sequence(spec_record(state, sizes[0]), sizes.skip(1));
    }
}

} // verus!
