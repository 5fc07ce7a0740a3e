//! Time on the film's timeline, kept in whole milliseconds, and frame rates
//! kept as exact fractions.

use vstd::prelude::*;

verus! {

/// A point or a span on the timeline, with millisecond resolution.
#[derive(Debug, Clone, Copy, PartialEq, Eq, Structural)]
pub struct Seconds {
    pub ms: u64,
}

impl Seconds {
    pub fn from_ms(ms: u64) -> (s: Seconds)
        ensures
            s.ms == ms,
    {
        Seconds { ms }
    }

    pub fn zero() -> (s: Seconds)
        ensures
            s.ms == 0,
    {
        Seconds { ms: 0 }
    }
}

/// Frames per second as the fraction `num / den`, as containers store it;
/// a zero denominator means the rate is unknown.
#[derive(Debug, Clone, Copy, PartialEq, Eq, Structural)]
pub struct FrameRate {
    pub num: u32,
    pub den: u32,
}

impl FrameRate {
    pub fn unknown() -> (r: FrameRate)
        ensures
            r.num == 0 && r.den == 1,
    {
        FrameRate { num: 0, den: 1 }
    }

    /// Number of the frame shown at `t`: `t * num / den` rounded half up
    /// (0 when the rate is unknown).
    pub open spec fn spec_frame_at(self, t: Seconds) -> nat {
        if self.den == 0 {
            0
        } else {
            ((t.ms * self.num + self.den * 500) / (self.den * 1000)) as nat
        }
    }

    /// Number of the frame shown at `t` (see [`FrameRate::spec_frame_at`]).
    pub fn frame_at(self, t: Seconds) -> (f: u128)
        ensures
            f == self.spec_frame_at(t),
            f < 0x10_0000_0000_0000_0000_0000_0000,
    {
        if self.den == 0 {
            0
        } else {
            let a = t.ms as u128;
            let b = self.num as u128;
            assert(a * b <= 0xffff_ffff_ffff_ffffu128 * 0xffff_ffffu128) by (nonlinear_arith)
                requires
                    a <= 0xffff_ffff_ffff_ffffu128,
                    b <= 0xffff_ffffu128,
            ;
            let x = a * b;
            let d = self.den as u128;
            let f = (x + d * 500) / (d * 1000);
            assert(f < 0x10_0000_0000_0000_0000_0000_0000) by (nonlinear_arith)
                requires
                    f == (x + d * 500) / (d * 1000),
                    x <= 0xffff_ffff_ffff_ffffu128 * 0xffff_ffffu128,
                    1 <= d <= 0xffff_ffff,
            ;
            f
        }
    }
}

} // verus!
