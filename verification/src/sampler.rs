//! Sampling the bitrate of a track: which moments to look at, and the bitrate
//! a window of packets amounts to.

use vstd::prelude::*;
use crate::parse::{parse_u64, spec_parse_u64};
use crate::units::Seconds;

verus! {

/// Sum of the packet sizes that read as numbers (the others count as nothing).
pub open spec fn packet_bytes(sizes: Seq<Seq<char>>) -> nat
    decreases sizes.len(),
{
    if sizes.len() == 0 {
        0
    } else {
        packet_bytes(sizes.drop_last()) + match spec_parse_u64(sizes.last()) {
            Some(v) => v as nat,
            None => 0,
        }
    }
}

/// The characters of each packet size.
pub open spec fn size_views(sizes: Seq<String>) -> Seq<Seq<char>> {
    sizes.map_values(|s: String| s@)
}

/// Bits per second of `bytes` spread over `ms` milliseconds, rounded half up,
/// and capped at `u64::MAX`.
pub open spec fn window_bps(bytes: nat, ms: nat) -> u64 {
    let v = (bytes * 8000 + ms / 2) / ms;
    if v > u64::MAX {
        u64::MAX
    } else {
        v as u64
    }
}

/// The bitrate a window of packets amounts to: their total size over the
/// length of the window. Nothing for an empty window or a window of no length.
pub fn window_bitrate(sizes: &Vec<String>, window: Seconds) -> (r: Option<u64>)
    requires
        packet_bytes(size_views(sizes@)) <= u64::MAX,
    ensures
        r == (if sizes@.len() == 0 || window.ms == 0 {
            None
        } else {
            Some(window_bps(packet_bytes(size_views(sizes@)), window.ms as nat))
        }),
{
    if sizes.len() == 0 || window.ms == 0 {
        return None;
    }
    let mut bytes: u64 = 0;
    let mut i: usize = 0;
    while i < sizes.len()
        invariant
            i <= sizes@.len(),
            packet_bytes(size_views(sizes@)) <= u64::MAX,
            bytes == packet_bytes(size_views(sizes@.subrange(0, i as int))),
        decreases sizes@.len() - i,
    {
        proof {
            assert(size_views(sizes@.subrange(0, i + 1)).drop_last() =~= size_views(
                sizes@.subrange(0, i as int),
            ));
            lemma_packet_bytes_prefix(size_views(sizes@), i + 1);
            assert(size_views(sizes@).subrange(0, i + 1) =~= size_views(sizes@.subrange(0, i + 1)));
        }
        match parse_u64(sizes[i].as_str()) {
            Some(v) => {
                bytes = bytes + v;
            },
            None => {},
        }
        i = i + 1;
    }
    assert(sizes@.subrange(0, i as int) =~= sizes@);
    let ms = window.ms as u128;
    let b = bytes as u128;
    assert(b * 8000 <= 0xffff_ffff_ffff_ffffu128 * 8000) by (nonlinear_arith)
        requires
            b <= 0xffff_ffff_ffff_ffffu128,
    ;
    let v = (b * 8000 + ms / 2) / ms;
    if v > 0xffff_ffff_ffff_ffffu128 {
        Some(0xffff_ffff_ffff_ffffu64)
    } else {
        Some(v as u64)
    }
}

/// A prefix never holds more bytes than the whole.
proof fn lemma_packet_bytes_prefix(s: Seq<Seq<char>>, n: int)
    requires
        0 <= n <= s.len(),
    ensures
        packet_bytes(s.subrange(0, n)) <= packet_bytes(s),
    decreases s.len() - n,
{
    if n < s.len() {
        lemma_packet_bytes_prefix(s, n + 1);
        assert(s.subrange(0, n + 1).drop_last() =~= s.subrange(0, n));
    } else {
        assert(s.subrange(0, n) =~= s);
    }
}

/// The sampler that asks `ffprobe` for the packets of short windows spread
/// over the film.
pub struct FfprobeSampler {
    /// Length of each window that is read.
    pub window_s: Seconds,
    /// Distance between the starts of neighbouring windows.
    pub step_s: Seconds,
}

impl Default for FfprobeSampler {
    fn default() -> (s: Self)
        ensures
            s.window_s.ms == 2000,
            s.step_s.ms == 60000,
    {
        FfprobeSampler { window_s: Seconds { ms: 2000 }, step_s: Seconds { ms: 60000 } }
    }
}

impl FfprobeSampler {
    /// Starts of the windows to read: `0, step, 2·step, …` for as long as a
    /// whole window still ends before the end of the film.
    pub fn sample_times(&self, duration_s: Seconds) -> (v: Vec<Seconds>)
        requires
            self.step_s.ms > 0,
        ensures
            forall|i: int| 0 <= i < v@.len() ==> (#[trigger] v@[i]).ms == i * self.step_s.ms,
            forall|i: int| 0 <= i < v@.len() ==> #[trigger] v@[i].ms + self.window_s.ms < duration_s.ms,
            v@.len() * self.step_s.ms + self.window_s.ms >= duration_s.ms,
    {
        let step = self.step_s.ms as u128;
        let w = self.window_s.ms as u128;
        let d = duration_s.ms as u128;
        let mut t: u128 = 0;
        let mut out: Vec<Seconds> = Vec::new();
        assert(out@.len() * step == 0) by (nonlinear_arith)
            requires
                out@.len() == 0,
        ;
        while t + w < d
            invariant
                step == self.step_s.ms,
                w == self.window_s.ms,
                d == duration_s.ms,
                step > 0,
                t == out@.len() * step,
                t <= d + step,
                forall|i: int| 0 <= i < out@.len() ==> (#[trigger] out@[i]).ms == i * step,
                forall|i: int| 0 <= i < out@.len() ==> #[trigger] out@[i].ms + w < d,
            decreases d + step - t,
        {
            out.push(Seconds { ms: t as u64 });
            proof {
                assert(out@[out@.len() - 1].ms == t);
                assert((out@.len() - 1) * step + step == out@.len() * step) by (nonlinear_arith);
            }
            t = t + step;
        }
        out
    }
}

} // verus!
