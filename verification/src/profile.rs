//! Bitrate over time, sampled from the file, and the bytes it implies for a
//! stretch of the film.
//!
//! It serves exactly one purpose: counting honestly how many bytes a trim
//! saves. Credits are darker and more static than the average frame, so a
//! proportional guess ("7% of the length cut, 7% of the size saved")
//! overstates the saving many times over.

use vstd::prelude::*;
use vstd::seq_lib::to_multiset_insert;
use crate::units::Seconds;

verus! {

/// Samples stay below these bounds: about 34 years of film and about a
/// terabit per second, which keeps the integral within 128-bit arithmetic.
pub const SAMPLE_LIMIT: u64 = 0x100_0000_0000;

/// Average bitrate measured at a point in time.
#[derive(Debug, Clone, Copy, PartialEq, Eq, Structural)]
pub struct Sample {
    pub t_s: Seconds,
    pub bps: u64,
}

/// A "bitrate over time" curve built by sampling the file.
#[derive(Debug, Clone, PartialEq)]
pub struct BitrateProfile {
    pub track_index: usize,
    /// Samples in order of time.
    pub samples: Vec<Sample>,
}

/// Samples in non-decreasing order of time.
pub open spec fn sorted_by_time(s: Seq<Sample>) -> bool {
    forall|i: int, j: int| 0 <= i < j < s.len() ==> s[i].t_s.ms <= s[j].t_s.ms
}

/// Every sample within [`SAMPLE_LIMIT`].
pub open spec fn samples_bounded(s: Seq<Sample>) -> bool {
    forall|i: int| 0 <= i < s.len() ==> #[trigger] s[i].t_s.ms < SAMPLE_LIMIT && s[i].bps < SAMPLE_LIMIT
}

pub open spec fn max_int(a: int, b: int) -> int {
    if a >= b { a } else { b }
}

pub open spec fn min_int(a: int, b: int) -> int {
    if a <= b { a } else { b }
}

/// Area, in bit-milliseconds rounded down, under the straight line from `a`
/// to `b` over the part of `[a, b]` inside `[start, end]`: the trapezoid rule
/// with the bitrate interpolated linearly at the edges of the overlap.
pub open spec fn segment_millibits(a: Sample, b: Sample, start: int, end: int) -> int {
    let s = max_int(a.t_s.ms as int, start);
    let e = min_int(b.t_s.ms as int, end);
    let span = b.t_s.ms - a.t_s.ms;
    if e <= s || span <= 0 {
        0
    } else {
        ((2 * a.bps * span + (b.bps - a.bps) * ((s - a.t_s.ms) + (e - a.t_s.ms))) * (e - s)) / (2
            * span)
    }
}

/// Sum of [`segment_millibits`] over the first `n` consecutive pairs.
pub open spec fn millibits_upto(s: Seq<Sample>, n: int, start: int, end: int) -> int
    decreases n,
{
    if n <= 0 {
        0
    } else {
        millibits_upto(s, n - 1, start, end) + segment_millibits(s[n - 1], s[n], start, end)
    }
}

/// Bytes between `start` and `end` by the trapezoid rule, rounded half up.
pub open spec fn integral_bytes(s: Seq<Sample>, start: int, end: int) -> int {
    if s.len() < 2 || end <= start {
        0
    } else {
        (millibits_upto(s, s.len() - 1, start, end) + 4000) / 8000
    }
}

/// Segments never contribute a negative area.
pub proof fn lemma_segment_nonneg(a: Sample, b: Sample, start: int, end: int)
    ensures
        0 <= segment_millibits(a, b, start, end),
{
    let s = max_int(a.t_s.ms as int, start);
    let e = min_int(b.t_s.ms as int, end);
    let span = b.t_s.ms - a.t_s.ms;
    if !(e <= s || span <= 0) {
        let x = a.bps as int;
        let y = b.bps as int;
        let d = (s - a.t_s.ms) + (e - a.t_s.ms);
        let len = e - s;
        assert(0 <= d <= 2 * span);
        let inner = 2 * x * span + (y - x) * d;
        assert(0 <= inner) by (nonlinear_arith)
            requires
                inner == 2 * x * span + (y - x) * d,
                0 <= d <= 2 * span,
                0 <= x,
                0 <= y,
                span > 0,
        ;
        assert(0 <= inner * len) by (nonlinear_arith)
            requires
                0 <= inner,
                0 < len,
        ;
    }
}

/// Partial sums of segments never go negative.
pub proof fn lemma_millibits_nonneg_any(s: Seq<Sample>, n: int, start: int, end: int)
    requires
        n < s.len(),
    ensures
        0 <= millibits_upto(s, n, start, end),
    decreases n,
{
    if n > 0 {
        lemma_millibits_nonneg_any(s, n - 1, start, end);
        lemma_segment_nonneg(s[n - 1], s[n], start, end);
    }
}

/// The integral never goes negative.
pub proof fn lemma_integral_nonneg(s: Seq<Sample>, start: int, end: int)
    ensures
        0 <= integral_bytes(s, start, end),
{
    if s.len() >= 2 {
        lemma_millibits_nonneg_any(s, s.len() - 1, start, end);
    }
}

proof fn lemma_segment_bounds(a: Sample, b: Sample, start: int, end: int)
    requires
        a.t_s.ms < SAMPLE_LIMIT,
        a.bps < SAMPLE_LIMIT,
        b.t_s.ms < SAMPLE_LIMIT,
        b.bps < SAMPLE_LIMIT,
    ensures
        0 <= segment_millibits(a, b, start, end),
        segment_millibits(a, b, start, end) <= SAMPLE_LIMIT * SAMPLE_LIMIT,
{
    let s = max_int(a.t_s.ms as int, start);
    let e = min_int(b.t_s.ms as int, end);
    let span = b.t_s.ms - a.t_s.ms;
    if !(e <= s || span <= 0) {
        let x = a.bps as int;
        let y = b.bps as int;
        let d = (s - a.t_s.ms) + (e - a.t_s.ms);
        let len = e - s;
        let l = SAMPLE_LIMIT as int;
        assert(0 <= d <= 2 * span);
        assert(0 < len <= span);
        let inner = 2 * x * span + (y - x) * d;
        assert(0 <= inner <= 2 * l * span) by (nonlinear_arith)
            requires
                inner == 2 * x * span + (y - x) * d,
                0 <= d <= 2 * span,
                0 <= x < l,
                0 <= y < l,
                span > 0,
        ;
        assert(0 <= inner * len <= 2 * l * span * l) by (nonlinear_arith)
            requires
                0 <= inner <= 2 * l * span,
                0 < len <= span,
                span < l,
                l > 0,
        ;
        assert((inner * len) / (2 * span) <= l * l) by (nonlinear_arith)
            requires
                0 <= inner * len <= 2 * l * span * l,
                span > 0,
        ;
    }
}

fn segment(a: Sample, b: Sample, start: u64, end: u64) -> (m: u128)
    requires
        a.t_s.ms < SAMPLE_LIMIT,
        a.bps < SAMPLE_LIMIT,
        b.t_s.ms < SAMPLE_LIMIT,
        b.bps < SAMPLE_LIMIT,
    ensures
        m == segment_millibits(a, b, start as int, end as int),
{
    let s = if a.t_s.ms >= start { a.t_s.ms } else { start };
    let e = if b.t_s.ms <= end { b.t_s.ms } else { end };
    if e <= s || b.t_s.ms <= a.t_s.ms {
        return 0;
    }
    proof {
        lemma_segment_bounds(a, b, start as int, end as int);
    }
    let span = (b.t_s.ms - a.t_s.ms) as u128;
    let x = a.bps as u128;
    let y = b.bps as u128;
    let d = ((s - a.t_s.ms) + (e - a.t_s.ms)) as u128;
    let len = (e - s) as u128;
    let l = SAMPLE_LIMIT as u128;
    assert(x * span <= l * l) by (nonlinear_arith)
        requires
            x < l,
            span < l,
    ;
    let base = 2 * (x * span);
    let inner = if y >= x {
        assert((y - x) * d <= l * (2 * l)) by (nonlinear_arith)
            requires
                y - x < l,
                d <= 2 * span,
                span < l,
        ;
        let r = base + (y - x) * d;
        assert(r as int == 2 * (x * span) + (y - x) * d);
        r
    } else {
        assert((x - y) * d <= base) by (nonlinear_arith)
            requires
                x - y <= x,
                d <= 2 * span,
                base == 2 * (x * span),
        ;
        let r = base - (x - y) * d;
        assert(r as int == 2 * (x * span) + (y - x) * d) by (nonlinear_arith)
            requires
                r as int == base - (x - y) * d,
                base == 2 * (x * span),
                x > y,
        ;
        r
    };
    assert(2 * (x * span) == 2 * x * span) by (nonlinear_arith);
    assert(inner as int == 2 * a.bps * (b.t_s.ms - a.t_s.ms) + (b.bps - a.bps) * ((s - a.t_s.ms) + (
    e - a.t_s.ms)));
    assert(inner <= 2 * l * span) by (nonlinear_arith)
        requires
            inner as int == 2 * (x * span) + (y - x) * d,
            d <= 2 * span,
            x < l,
            y < l,
    ;
    assert(inner * len <= 2 * l * span * l) by (nonlinear_arith)
        requires
            inner <= 2 * l * span,
            len <= span,
            span < l,
    ;
    (inner * len) / (2 * span)
}

impl BitrateProfile {
    /// Builds a profile from samples in any order; they are put in order of time.
    pub fn from_samples(track_index: usize, samples: Vec<Sample>) -> (p: Self)
        ensures
            p.track_index == track_index,
            sorted_by_time(p.samples@),
            p.samples@.to_multiset() == samples@.to_multiset(),
    {
        let mut out: Vec<Sample> = Vec::new();
        let mut k: usize = 0;
        assert(out@ =~= samples@.subrange(0, 0));
        while k < samples.len()
            invariant
                k <= samples@.len(),
                sorted_by_time(out@),
                out@.to_multiset() == samples@.subrange(0, k as int).to_multiset(),
            decreases samples@.len() - k,
        {
            let x = samples[k];
            let mut p: usize = 0;
            while p < out.len() && out[p].t_s.ms <= x.t_s.ms
                invariant
                    p <= out@.len(),
                    forall|j: int| 0 <= j < p ==> #[trigger] out@[j].t_s.ms <= x.t_s.ms,
                decreases out@.len() - p,
            {
                p = p + 1;
            }
            let ghost before = out@;
            out.insert(p, x);
            proof {
                to_multiset_insert(before, p as int, x);
                assert(samples@.subrange(0, k + 1) =~= samples@.subrange(0, k as int).push(x));
                vstd::seq_lib::to_multiset_build(samples@.subrange(0, k as int), x);
                assert forall|i: int, j: int| 0 <= i < j < out@.len() implies out@[i].t_s.ms
                    <= out@[j].t_s.ms by {
                    if i < p && j > p {
                        assert(out@[j] == before[j - 1]);
                    } else if i > p {
                        assert(out@[i] == before[i - 1]);
                        assert(out@[j] == before[j - 1]);
                    } else if i == p && j > p {
                        assert(out@[j] == before[j - 1]);
                        assert(before[p as int].t_s.ms > x.t_s.ms);
                    }
                }
            }
            k = k + 1;
        }
        assert(samples@.subrange(0, k as int) =~= samples@);
        BitrateProfile { track_index, samples: out }
    }

    pub fn samples(&self) -> (s: &[Sample])
        ensures
            s@ == self.samples@,
    {
        self.samples.as_slice()
    }

    pub open spec fn spec_is_empty(self) -> bool {
        self.samples@.len() < 2
    }

    /// Fewer than two samples give no curve.
    pub fn is_empty(&self) -> (b: bool)
        ensures
            b == self.spec_is_empty(),
    {
        self.samples.len() < 2
    }

    /// Bytes between `start` and `end` by the trapezoid rule, capped at the
    /// largest `u64` as a saturating conversion would.
    pub open spec fn spec_bytes_between(self, start: Seconds, end: Seconds) -> int {
        let b = integral_bytes(self.samples@, start.ms as int, end.ms as int);
        if b > u64::MAX {
            u64::MAX as int
        } else {
            b
        }
    }

    /// Bytes between `start` and `end`: the integral under the curve by the
    /// trapezoid rule.
    pub fn bytes_between(&self, start: Seconds, end: Seconds) -> (b: u64)
        requires
            samples_bounded(self.samples@),
        ensures
            b == self.spec_bytes_between(start, end),
    {
        if self.samples.len() < 2 || end.ms <= start.ms {
            return 0;
        }
        let n = self.samples.len() - 1;
        let mut total: u128 = 0;
        let mut i: usize = 0;
        while i < n
            invariant
                n == self.samples@.len() - 1,
                samples_bounded(self.samples@),
                i <= n,
                total == min_int(
                    millibits_upto(self.samples@, i as int, start.ms as int, end.ms as int),
                    u128::MAX as int,
                ),
            decreases n - i,
        {
            let a = self.samples[i];
            let b = self.samples[i + 1];
            proof {
                lemma_segment_bounds(a, b, start.ms as int, end.ms as int);
            }
            let seg = segment(a, b, start.ms, end.ms);
            total = total.saturating_add(seg);
            i = i + 1;
        }
        proof {
            lemma_millibits_nonneg(self.samples@, n as int, start.ms as int, end.ms as int);
        }
        if total > u128::MAX - 4000 {
            return u64::MAX;
        }
        let bytes = (total + 4000) / 8000;
        if bytes > u64::MAX as u128 {
            u64::MAX
        } else {
            bytes as u64
        }
    }
}

proof fn lemma_millibits_nonneg(s: Seq<Sample>, n: int, start: int, end: int)
    requires
        samples_bounded(s),
        0 <= n < s.len(),
    ensures
        0 <= millibits_upto(s, n, start, end),
    decreases n,
{
    if n > 0 {
        lemma_millibits_nonneg(s, n - 1, start, end);
        lemma_segment_bounds(s[n - 1], s[n], start, end);
    }
}

/// Twice `span` times the area under the line from `x` (at offset 0) to `y`
/// (at offset `span`), from offset 0 to `w`.
spec fn ramp_area(x: int, y: int, span: int, w: int) -> int {
    2 * x * span * w + (y - x) * w * w
}

/// The area under a non-negative line grows with the end of the stretch.
proof fn lemma_ramp_area_grows(x: int, y: int, span: int, w1: int, w2: int)
    requires
        0 <= x,
        0 <= y,
        0 <= w1 <= w2 <= span,
    ensures
        ramp_area(x, y, span, w1) <= ramp_area(x, y, span, w2),
{
    let p = w1 + w2;
    let q = w2 - w1;
    assert(w2 * w2 - w1 * w1 == p * q) by (nonlinear_arith)
        requires
            p == w1 + w2,
            q == w2 - w1,
    ;
    assert(2 * x * span * w2 - 2 * x * span * w1 == 2 * x * span * q) by (nonlinear_arith)
        requires
            q == w2 - w1,
    ;
    assert((y - x) * w2 * w2 - (y - x) * w1 * w1 == (y - x) * (p * q)) by (nonlinear_arith)
        requires
            w2 * w2 - w1 * w1 == p * q,
    ;
    assert(2 * x * span * q + (y - x) * (p * q) == q * (x * (2 * span - p) + y * p)) by (nonlinear_arith);
    assert(0 <= x * (2 * span - p)) by (nonlinear_arith)
        requires
            0 <= x,
            0 <= 2 * span - p,
    ;
    assert(0 <= y * p) by (nonlinear_arith)
        requires
            0 <= y,
            0 <= p,
    ;
    assert(0 <= q * (x * (2 * span - p) + y * p)) by (nonlinear_arith)
        requires
            0 <= q,
            0 <= x * (2 * span - p) + y * p,
    ;
}

/// The area between offsets `u` and `v` is the difference of the areas up to them.
proof fn lemma_ramp_area_between(x: int, y: int, span: int, u: int, v: int)
    ensures
        (2 * x * span + (y - x) * (u + v)) * (v - u) == ramp_area(x, y, span, v) - ramp_area(
            x,
            y,
            span,
            u,
        ),
{
    let p = u + v;
    let q = v - u;
    assert(v * v - u * u == p * q) by (nonlinear_arith)
        requires
            p == u + v,
            q == v - u,
    ;
    assert(2 * x * span * v - 2 * x * span * u == 2 * x * span * q) by (nonlinear_arith)
        requires
            q == v - u,
    ;
    assert((y - x) * v * v - (y - x) * u * u == (y - x) * (p * q)) by (nonlinear_arith)
        requires
            v * v - u * u == p * q,
    ;
    assert((2 * x * span + (y - x) * p) * q == 2 * x * span * q + (y - x) * (p * q)) by (nonlinear_arith);
}

/// A segment's share of a wider stretch is never smaller.
proof fn lemma_segment_monotone(a: Sample, b: Sample, s1: int, e1: int, s2: int, e2: int)
    requires
        s2 <= s1,
        e1 <= e2,
    ensures
        segment_millibits(a, b, s1, e1) <= segment_millibits(a, b, s2, e2),
{
    lemma_segment_nonneg(a, b, s2, e2);
    let ta = a.t_s.ms as int;
    let span = b.t_s.ms - a.t_s.ms;
    let lo1 = max_int(ta, s1);
    let hi1 = min_int(b.t_s.ms as int, e1);
    let lo2 = max_int(ta, s2);
    let hi2 = min_int(b.t_s.ms as int, e2);
    if !(hi1 <= lo1 || span <= 0) {
        let x = a.bps as int;
        let y = b.bps as int;
        let u1 = lo1 - ta;
        let v1 = hi1 - ta;
        let u2 = lo2 - ta;
        let v2 = hi2 - ta;
        assert(0 <= u2 <= u1 < v1 <= v2 <= span);
        let q1 = (2 * x * span + (y - x) * (u1 + v1)) * (v1 - u1);
        let q2 = (2 * x * span + (y - x) * (u2 + v2)) * (v2 - u2);
        lemma_ramp_area_between(x, y, span, u1, v1);
        lemma_ramp_area_between(x, y, span, u2, v2);
        lemma_ramp_area_grows(x, y, span, u2, u1);
        lemma_ramp_area_grows(x, y, span, v1, v2);
        assert(q1 <= q2);
        assert(segment_millibits(a, b, s1, e1) == q1 / (2 * span));
        assert(segment_millibits(a, b, s2, e2) == q2 / (2 * span));
        assert(q1 / (2 * span) <= q2 / (2 * span)) by (nonlinear_arith)
            requires
                q1 <= q2,
                span > 0,
        ;
    }
}

proof fn lemma_millibits_monotone(s: Seq<Sample>, n: int, s1: int, e1: int, s2: int, e2: int)
    requires
        n < s.len(),
        s2 <= s1,
        e1 <= e2,
    ensures
        millibits_upto(s, n, s1, e1) <= millibits_upto(s, n, s2, e2),
    decreases n,
{
    if n > 0 {
        lemma_millibits_monotone(s, n - 1, s1, e1, s2, e2);
        lemma_segment_monotone(s[n - 1], s[n], s1, e1, s2, e2);
    }
}

impl BitrateProfile {
    /// Trimming never adds bytes: a stretch inside another never holds more
    /// bytes than the wider one, so the saving of a trim is never negative.
    pub proof fn law_narrower_range_holds_fewer_bytes(self, start: Seconds, end: Seconds, outer_start: Seconds, outer_end: Seconds)
        requires
            outer_start.ms <= start.ms,
            end.ms <= outer_end.ms,
        ensures
            self.spec_bytes_between(start, end) <= self.spec_bytes_between(outer_start, outer_end),
            0 <= self.spec_bytes_between(start, end),
    {
        let s = self.samples@;
        lemma_integral_nonneg(s, start.ms as int, end.ms as int);
        lemma_integral_nonneg(s, outer_start.ms as int, outer_end.ms as int);
        if s.len() >= 2 && end.ms > start.ms {
            let n = s.len() - 1;
            lemma_millibits_monotone(s, n, start.ms as int, end.ms as int, outer_start.ms as int, outer_end.ms as int);
        }
    }
}

} // verus!
