//! Adaptive polling state machine.
//!
//! The poller sleeps between reads of the trace channel. Every empty read
//! doubles the sleep interval up to a configured ceiling; any read that
//! returns data resets the interval to the configured floor.

use vstd::arithmetic::power2::{lemma2_to64, lemma_pow2_pos, lemma_pow2_unfold, pow2};
use vstd::math::min;
use vstd::prelude::*;

verus! {

/// The interval that follows `current` after one more empty read:
/// doubled, but never above `ceiling`.
pub open spec fn next_interval(current: u64, ceiling: u64) -> u64 {
    if 2 * current <= ceiling {
        (2 * current) as u64
    } else {
        ceiling
    }
}

/// Polling interval state, all durations in milliseconds.
pub struct PollState {
    /// Shortest sleep between two polls.
    pub floor: u64,
    /// Longest sleep between two polls.
    pub ceiling: u64,
    /// Sleep the next idle iteration will take.
    pub current: u64,
}

impl PollState {
    /// The interval always stays between the configured bounds.
    pub open spec fn wf(self) -> bool {
        self.floor <= self.current <= self.ceiling
    }

    /// Start polling at the floor interval.
    pub fn new(floor: u64, ceiling: u64) -> (state: PollState)
        requires
            floor <= ceiling,
        ensures
            state.wf(),
            state.floor == floor,
            state.ceiling == ceiling,
            state.current == floor,
    {
        PollState { floor, ceiling, current: floor }
    }

    /// One idle iteration: report how long to sleep now, then back off.
    pub fn on_empty(&mut self) -> (sleep_millis: u64)
        requires
            old(self).wf(),
        ensures
            final(self).wf(),
            sleep_millis == old(self).current,
            final(self).floor == old(self).floor,
            final(self).ceiling == old(self).ceiling,
            final(self).current == next_interval(old(self).current, old(self).ceiling),
    {
        let sleep_millis = self.current;
        if self.current > self.ceiling / 2 {
            self.current = self.ceiling;
        } else {
            self.current = 2 * self.current;
        }
        sleep_millis
    }

    /// A read returned data: restart the backoff at the floor.
    pub fn on_data(&mut self)
        requires
            old(self).wf(),
        ensures
            final(self).wf(),
            final(self).floor == old(self).floor,
            final(self).ceiling == old(self).ceiling,
            final(self).current == old(self).floor,
    {
        self.current = self.floor;
    }
}

/// The interval in force after the given run of reads, starting at the floor.
/// `true` stands for a read that returned data, `false` for an empty read.
pub open spec fn interval_after_reads(floor: u64, ceiling: u64, reads: Seq<bool>) -> u64
    decreases reads.len(),
{
    if reads.len() == 0 {
        floor
    } else if reads.last() {
        floor
    } else {
        next_interval(interval_after_reads(floor, ceiling, reads.drop_last()), ceiling)
    }
}

/// A run of `n` consecutive empty reads.
pub open spec fn empty_run(n: nat) -> Seq<bool> {
    Seq::new(n, |i: int| false)
}

/// The sleep the i-th empty read of a run is owed: the floor doubled
/// `i - 1` times, capped at the ceiling.
pub open spec fn expected_sleep(floor: u64, ceiling: u64, i: nat) -> int
    recommends
        1 <= i,
{
    min((floor as int) * (pow2((i - 1) as nat) as int), ceiling as int)
}

proof fn lemma_interval_after_empty_run(floor: u64, ceiling: u64, k: nat)
    requires
        floor <= ceiling,
    ensures
        interval_after_reads(floor, ceiling, empty_run(k)) as int == min(
            (floor as int) * (pow2(k) as int),
            ceiling as int,
        ),
    decreases k,
{
    if k == 0 {
        lemma2_to64();
        assert(empty_run(0).len() == 0);
    } else {
        lemma_interval_after_empty_run(floor, ceiling, (k - 1) as nat);
        assert(empty_run(k).drop_last() =~= empty_run((k - 1) as nat));
        assert(!empty_run(k).last());
        lemma_pow2_unfold(k);
        lemma_pow2_pos((k - 1) as nat);
        let f = floor as int;
        let p1 = pow2((k - 1) as nat) as int;
        let p = pow2(k) as int;
        assert(f * p == 2 * (f * p1)) by (nonlinear_arith)
            requires
                p == 2 * p1,
        ;
        let prev = interval_after_reads(floor, ceiling, empty_run((k - 1) as nat));
        if f * p1 <= ceiling as int {
            assert(2 * (prev as int) == f * p);
        } else {
            assert(prev == ceiling);
            assert(f * p > ceiling as int) by (nonlinear_arith)
                requires
                    p == 2 * p1,
                    p1 >= 1,
                    f * p1 > ceiling as int,
                    ceiling >= 0,
            ;
        }
    }
}

proof fn lemma_history_forgotten(floor: u64, ceiling: u64, history: Seq<bool>, m: nat)
    requires
        history.len() == 0 || history.last(),
    ensures
        interval_after_reads(floor, ceiling, history + empty_run(m)) == interval_after_reads(
            floor,
            ceiling,
            empty_run(m),
        ),
    decreases m,
{
    if m == 0 {
        assert(history + empty_run(0) =~= history);
        assert(empty_run(0).len() == 0);
    } else {
        lemma_history_forgotten(floor, ceiling, history, (m - 1) as nat);
        assert((history + empty_run(m)).drop_last() =~= history + empty_run((m - 1) as nat));
        assert(empty_run(m).drop_last() =~= empty_run((m - 1) as nat));
        assert(!(history + empty_run(m)).last());
        assert(!empty_run(m).last());
    }
}

/// Backoff law: in a run of empty reads that starts after a reset (the start
/// of polling, or a read that returned data, however long the run before it
/// was), the i-th sleep (1-indexed) equals `min(floor * 2^(i-1), ceiling)`;
/// it never exceeds the ceiling and never drops below the floor.
pub proof fn lemma_backoff_sleep(floor: u64, ceiling: u64, history: Seq<bool>, i: nat)
    requires
        floor <= ceiling,
        1 <= i,
        history.len() == 0 || history.last(),
    ensures
        interval_after_reads(floor, ceiling, history + empty_run((i - 1) as nat)) as int
            == expected_sleep(floor, ceiling, i),
        floor as int <= expected_sleep(floor, ceiling, i) <= ceiling as int,
{
    lemma_history_forgotten(floor, ceiling, history, (i - 1) as nat);
    lemma_interval_after_empty_run(floor, ceiling, (i - 1) as nat);
    lemma_pow2_pos((i - 1) as nat);
    assert((floor as int) <= (floor as int) * (pow2((i - 1) as nat) as int)) by (nonlinear_arith)
        requires
            floor >= 0,
            pow2((i - 1) as nat) >= 1,
    ;
}

/// Reset law: a read that returned data puts the interval back at the floor,
/// whatever came before it.
pub proof fn lemma_data_read_resets(floor: u64, ceiling: u64, history: Seq<bool>)
    ensures
        interval_after_reads(floor, ceiling, history.push(true)) == floor,
{
    assert(history.push(true).last());
}

/// One more empty read advances the modelled interval exactly as
/// `PollState::on_empty` advances the executable one.
pub proof fn lemma_empty_read_advances(floor: u64, ceiling: u64, history: Seq<bool>)
    ensures
        interval_after_reads(floor, ceiling, history.push(false)) == next_interval(
            interval_after_reads(floor, ceiling, history),
            ceiling,
        ),
{
    assert(!history.push(false).last());
    assert(history.push(false).drop_last() =~= history);
}

} // verus!
