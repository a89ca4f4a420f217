//! The timer: every tick programs the next one-shot deadline `TIMEBASE`
//! cycles after the current cycle count, and counts itself.
use vstd::prelude::*;
use crate::sbi::{set_timer, set_timer_call, SbiCall};

verus! {

/// Cycles between timer interrupts.
pub const TIMEBASE: u64 = 100000;

/// Ticks between two log lines.
pub const LOG_EVERY: usize = 100;

/// The cycle counter from a read of its high half, its low half and its
/// high half again: `None` when the high half changed in between (the low
/// half rolled over), and the caller reads again.
pub fn read_cycle(hi: u32, lo: u32, hi_again: u32) -> (r: Option<u64>)
    ensures
        r == (if hi == hi_again {
            Some((hi as u64 * 0x1_0000_0000 + lo as u64) as u64)
        } else {
            None
        }),
{
    if hi == hi_again {
        Some(hi as u64 * 0x1_0000_0000 + lo as u64)
    } else {
        None
    }
}

/// The deadline following cycle count `now`.
pub open spec fn next_deadline(now: u64) -> int {
    now + TIMEBASE
}

/// The SBI call that sets the next timer event for cycle count `now`.
pub fn clock_set_next_event(now: u64) -> (r: SbiCall)
    requires
        now <= u64::MAX - TIMEBASE,
    ensures
        r == set_timer_call(next_deadline(now) as u64),
{
    set_timer(now + TIMEBASE)
}

/// The tick counter.
pub struct Clock {
    pub tick: usize,
}

impl Clock {
    pub fn new() -> (r: Clock)
        ensures
            r.tick == 0,
    {
        Clock { tick: 0 }
    }

    /// Counts one delivered timer interrupt; true when this tick is to be
    /// logged.
    pub fn on_timer(&mut self) -> (log: bool)
        requires
            old(self).tick < usize::MAX,
        ensures
            final(self).tick == old(self).tick + 1,
            log == (final(self).tick % LOG_EVERY == 0),
    {
        self.tick = self.tick + 1;
        self.tick % LOG_EVERY == 0
    }
}

/// Deadlines only move forward: of two timer events set at successive cycle
/// counts `earlier < later`, the second programs the strictly later deadline,
/// `TIMEBASE` cycles after its own count.
pub proof fn lemma_deadlines_increase(earlier: u64, later: u64)
    requires
        earlier < later,
        later <= u64::MAX - TIMEBASE,
    ensures
        next_deadline(earlier) < next_deadline(later),
        next_deadline(later) == later + 100000,
{
}

/// Each delivered tick counts once: when every step adds one (as `on_timer`
/// ensures), `k` timer interrupts after `start` the counter is `start + k`.
pub proof fn lemma_ticks_count(start: nat, ticks: Seq<nat>)
    requires
        ticks.len() > 0,
        ticks[0] == start,
        forall|i: int| 0 <= i < ticks.len() - 1 ==> #[trigger] ticks[i + 1] == ticks[i] + 1,
    ensures
        ticks.last() == start + ticks.len() - 1,
    decreases ticks.len(),
{
    if ticks.len() > 1 {
        let prefix = ticks.drop_last();
        assert forall|i: int| 0 <= i < prefix.len() - 1 implies #[trigger] prefix[i + 1] == prefix[i]
            + 1 by {
            assert(ticks[i + 1] == ticks[i] + 1);
        }
        lemma_ticks_count(start, prefix);
        let j = ticks.len() - 2;
        assert(ticks[j + 1] == ticks[j] + 1);
    }
}

} // verus!
