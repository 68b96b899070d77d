//! Spans of media time, counted in nanoseconds.

use vstd::prelude::*;

verus! {

/// Nanoseconds in one second.
pub const NANOS_PER_SEC: u64 = 1_000_000_000;

/// A span of media time in whole nanoseconds.
#[derive(Clone, Copy, Debug, Default, PartialEq, Eq, Structural)]
pub struct MediaDuration {
    pub nanos: u64,
}

impl MediaDuration {
    /// The span of `ticks` ticks of a clock that runs at `rate` ticks per
    /// second, rounded down to a whole nanosecond.
    pub open spec fn of_ticks(ticks: int, rate: int) -> MediaDuration
        recommends
            0 <= ticks <= u32::MAX,
            0 < rate,
    {
        MediaDuration { nanos: (ticks * 1_000_000_000 / rate) as u64 }
    }

    /// The ticks that a clock at `rate` ticks per second makes in this span,
    /// counted over its whole milliseconds and capped at `u32::MAX`.
    pub open spec fn ticks_at(self, rate: u32) -> u32 {
        let ticks = rate * (self.nanos / 1_000_000) / 1000;
        if ticks > u32::MAX {
            u32::MAX
        } else {
            ticks as u32
        }
    }

    /// A span of whole seconds, capped at the longest span there is.
    pub fn from_secs(secs: u64) -> (d: MediaDuration)
        ensures
            d.nanos == if secs * 1_000_000_000 > u64::MAX {
                u64::MAX as int
            } else {
                secs * 1_000_000_000
            },
    {
        if secs > u64::MAX / NANOS_PER_SEC {
            MediaDuration { nanos: u64::MAX }
        } else {
            MediaDuration { nanos: secs * NANOS_PER_SEC }
        }
    }

    /// The time that `ticks` ticks take on a clock at `rate` ticks per second.
    pub fn from_ticks(ticks: u32, rate: u32) -> (d: MediaDuration)
        requires
            rate > 0,
        ensures
            d == Self::of_ticks(ticks as int, rate as int),
            d.nanos == ticks * 1_000_000_000 / (rate as int),
    {
        assert(ticks * 1_000_000_000 <= 0xffff_ffff * 1_000_000_000) by (nonlinear_arith)
            requires
                ticks <= 0xffff_ffff,
        ;
        let scaled: u64 = (ticks as u64) * NANOS_PER_SEC;
        MediaDuration { nanos: scaled / (rate as u64) }
    }

    /// The ticks that a clock at `rate` ticks per second makes in this span.
    pub fn to_ticks(&self, rate: u32) -> (ticks: u32)
        ensures
            ticks == self.ticks_at(rate),
    {
        let millis: u64 = self.nanos / 1_000_000;
        assert(rate * millis <= 0xffff_ffff * 0xffff_ffff_ffff_ffff) by (nonlinear_arith)
            requires
                rate <= 0xffff_ffff,
                millis <= 0xffff_ffff_ffff_ffff,
        ;
        let ticks: u128 = (rate as u128) * (millis as u128) / 1000;
        if ticks > 0xffff_ffff {
            u32::MAX
        } else {
            ticks as u32
        }
    }
}

} // verus!
