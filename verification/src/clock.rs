use vstd::prelude::*;
use crate::interrupts::{action_of, kernel, Dispatch, InterruptAction};

verus! {

/// Nanoseconds in a second.
pub const NANOS_PER_SEC: i32 = 1_000_000_000;

/// A span of time in whole seconds and the nanoseconds beyond them.
#[derive(Clone, Copy)]
pub struct Duration {
    pub secs: i64,
    pub nanos: i32,
}

impl Duration {
    /// The nanoseconds stay below a second.
    pub open spec fn wf(self) -> bool {
        0 <= self.nanos < NANOS_PER_SEC
    }

    /// The span in nanoseconds.
    pub open spec fn total(self) -> int {
        self.secs * 1_000_000_000 + self.nanos
    }

    /// The sum of two spans, carrying a full second of nanoseconds into the seconds.
    pub fn add(self, other: Duration) -> (r: Duration)
        requires
            self.wf(),
            other.wf(),
            i64::MIN <= self.secs + other.secs,
            self.secs + other.secs < i64::MAX,
        ensures
            r.wf(),
            r.total() == self.total() + other.total(),
    {
        let nanos = self.nanos + other.nanos;
        if nanos >= NANOS_PER_SEC {
            Duration { secs: self.secs + other.secs + 1, nanos: nanos - NANOS_PER_SEC }
        } else {
            Duration { secs: self.secs + other.secs, nanos }
        }
    }
}

/// The time between two timer interrupts.
pub fn pit_duration() -> (r: Duration)
    ensures
        r.secs == 0,
        r.nanos == 2250286,
{
    Duration { secs: 0, nanos: 2250286 }
}

/// The kernel's two clocks.
pub struct Clocks {
    /// Clock realtime (default)
    pub realtime: Duration,
    /// Monotonic clock
    pub monotonic: Duration,
}

impl Clocks {
    pub open spec fn wf(self) -> bool {
        self.realtime.wf() && self.monotonic.wf()
    }

    /// Both clocks start at zero.
    pub fn new() -> (r: Clocks)
        ensures
            r.wf(),
            r.realtime.total() == 0,
            r.monotonic.total() == 0,
    {
        Clocks { realtime: Duration { secs: 0, nanos: 0 }, monotonic: Duration { secs: 0, nanos: 0 } }
    }

    /// A timer interrupt: both clocks advance by the timer period.
    pub fn tick(&mut self)
        requires
            old(self).wf(),
            old(self).realtime.secs < i64::MAX,
            old(self).monotonic.secs < i64::MAX,
        ensures
            final(self).wf(),
            final(self).realtime.total() == old(self).realtime.total() + 2250286,
            final(self).monotonic.total() == old(self).monotonic.total() + 2250286,
    {
        let pit = pit_duration();
        self.realtime = self.realtime.add(pit);
        self.monotonic = self.monotonic.add(pit);
    }
}

impl Clocks {
    /// Takes an interrupt: decides how the kernel handles `vector` and, for
    /// the timer (vector 0x20) alone, advances both clocks by the timer period.
    /// Every other vector leaves the clocks as they were.
    pub fn on_interrupt(&mut self, vector: usize) -> (d: Dispatch)
        requires
            old(self).wf(),
            vector == 0x20 ==> old(self).realtime.secs < i64::MAX && old(self).monotonic.secs
                < i64::MAX,
        ensures
            final(self).wf(),
            d.eoi_master == (0x20 <= vector < 0x30),
            d.eoi_slave == (0x28 <= vector < 0x30),
            d.action == action_of(vector),
            vector == 0x20 ==> final(self).realtime.total() == old(self).realtime.total() + 2250286
                && final(self).monotonic.total() == old(self).monotonic.total() + 2250286,
            vector != 0x20 ==> *final(self) == *old(self),
    {
        let d = kernel(vector);
        if let InterruptAction::Tick = d.action {
            self.tick();
        }
        d
    }
}

/// Clock law: the clocks change only on the timer interrupt, each by exactly
/// the timer period, so the monotonic clock never goes back.
pub proof fn law_clocks_move_only_on_timer(before: Clocks, after: Clocks, vector: usize)
    requires
        vector == 0x20 ==> after.realtime.total() == before.realtime.total() + 2250286
            && after.monotonic.total() == before.monotonic.total() + 2250286,
        vector != 0x20 ==> after == before,
    ensures
        after.monotonic.total() >= before.monotonic.total(),
        after.realtime.total() >= before.realtime.total(),
        vector != 0x20 ==> after.realtime.total() == before.realtime.total()
            && after.monotonic.total() == before.monotonic.total(),
{
}

/// Lockstep law: timer ticks move both clocks by the same amount, so the
/// distance between real time and monotonic time never changes.
pub proof fn law_clocks_keep_their_distance(before: Clocks, after: Clocks)
    requires
        after.realtime.total() == before.realtime.total() + 2250286,
        after.monotonic.total() == before.monotonic.total() + 2250286,
    ensures
        after.realtime.total() - after.monotonic.total() == before.realtime.total()
            - before.monotonic.total(),
{
}

/// Canonical-form law: two well-formed spans with the same length in
/// nanoseconds are the same value; so sums of spans do not depend on how
/// they are grouped.
pub proof fn law_spans_are_canonical(x: Duration, y: Duration)
    requires
        x.wf(),
        y.wf(),
        x.total() == y.total(),
    ensures
        x == y,
{
    assert(x.secs == y.secs) by (nonlinear_arith)
        requires
            x.secs * 1_000_000_000 + x.nanos == y.secs * 1_000_000_000 + y.nanos,
            0 <= x.nanos < 1_000_000_000,
            0 <= y.nanos < 1_000_000_000,
    ;
}

} // verus!
