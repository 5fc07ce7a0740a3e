//! How big the result will be, how sure that figure is, and whether it fits.

use vstd::prelude::*;
use crate::codec::{CodecRegistry, EncodeCtx};
use crate::estimated::{upper_bound, Confidence, Estimated};
use crate::media::{bytes_at, bytes_at_rate, label_text, MediaInfo, Track, TrackKind};
use crate::plan::{usable_of, Plan, TrackAction, SECTOR_BYTES};
use crate::profile::{samples_bounded, BitrateProfile};
use crate::text::uppercase;

verus! {

/// Matroska overhead: block headers, cues, seek head (in thousandths of the payload).
pub const CONTAINER_RATIO_PERMILLE: u64 = 5;

pub const CONTAINER_FIXED_BYTES: u64 = 2 * 1000 * 1000;

#[derive(Debug, Clone, PartialEq)]
pub struct TrackSize {
    pub index: usize,
    pub label: String,
    pub bytes: Estimated<u64>,
}

#[derive(Debug, Clone, Copy, PartialEq, Eq, Structural)]
pub enum Verdict {
    /// The upper end of the interval is within the usable capacity.
    Fits,
    /// The point estimate fits, the upper end does not.
    Tight,
    Overflow { excess: u64 },
}

#[derive(Debug, Clone, PartialEq)]
pub struct SizeBreakdown {
    pub tracks: Vec<TrackSize>,
    pub container: Estimated<u64>,
    pub total: Estimated<u64>,
    /// Sum of the upper ends of the parts. Exact parts are not inflated just
    /// because a neighbouring one is an estimate.
    pub total_upper: u64,
    pub capacity_bytes: u64,
    pub usable_bytes: u64,
    pub verdict: Verdict,
}

/// What the breakdown says about one track: index, caption, bytes, confidence.
pub type SizeView = (usize, Seq<char>, int, Confidence);

pub open spec fn size_view(t: TrackSize) -> SizeView {
    (t.index, t.label@, t.bytes.value as int, t.bytes.confidence)
}

/// `bytes` rounded up to whole disc sectors.
pub open spec fn round_up_sectors(bytes: int) -> int {
    ((bytes + SECTOR_BYTES - 1) / SECTOR_BYTES as int) * SECTOR_BYTES
}

fn round_up_to_sector(bytes: u64) -> (r: u64)
    requires
        bytes + SECTOR_BYTES - 1 <= u64::MAX,
    ensures
        r == round_up_sectors(bytes as int),
{
    let q = (bytes + (SECTOR_BYTES - 1)) / SECTOR_BYTES;
    assert(q * 2048 <= bytes + 2047) by (nonlinear_arith)
        requires
            q == (bytes + 2047) / 2048,
    ;
    q * SECTOR_BYTES
}

/// Size of a track's part of the result: value and confidence, or nothing
/// if the track does not end up in the file.
pub open spec fn track_bytes(
    media: MediaInfo,
    plan: Plan,
    registry: CodecRegistry,
    profile: Option<&BitrateProfile>,
    t: Track,
) -> Option<(int, Confidence)> {
    let duration = plan.range.spec_duration_ms();
    let full = plan.range.spec_is_full(media.duration_s);
    if t.kind == TrackKind::Attachment {
        None
    } else {
        match plan.spec_action(t.index) {
            TrackAction::Drop => None,
            TrackAction::Copy => {
                if profile is Some && profile->0.track_index == t.index && !profile->0.spec_is_empty()
                    && !full {
                    // With a known curve the trimmed part is integrated.
                    Some(
                        (
                            profile->0.spec_bytes_between(plan.range.start_s, plan.range.end_s),
                            Confidence::Sampled,
                        ),
                    )
                } else {
                    // Otherwise linearly; without a curve the saving from a trim is a guess.
                    Some(
                        (
                            bytes_at(t.bps.value as nat, duration) as int,
                            if !full && t.bps.confidence == Confidence::Exact {
                                Confidence::Guessed
                            } else {
                                t.bps.confidence
                            },
                        ),
                    )
                }
            },
            TrackAction::Transcode { codec_id, opts } => match registry.spec_get(codec_id@) {
                None => None,
                Some(p) => {
                    let bps = p.spec_estimate_bps(t, opts);
                    Some((bytes_at(bps.value as nat, duration) as int, bps.confidence))
                },
            },
        }
    }
}

/// The breakdown rows for the first `n` tracks of the file.
pub open spec fn sizes_upto(
    media: MediaInfo,
    plan: Plan,
    registry: CodecRegistry,
    profile: Option<&BitrateProfile>,
    n: int,
) -> Seq<SizeView>
    decreases n,
{
    if n <= 0 {
        Seq::empty()
    } else {
        let r = sizes_upto(media, plan, registry, profile, n - 1);
        let t = media.tracks@[n - 1];
        match track_bytes(media, plan, registry, profile, t) {
            Some(b) => r.push((t.index, label_text(uppercase(t.codec@), t), b.0, b.1)),
            None => r,
        }
    }
}

pub open spec fn spec_sizes(
    media: MediaInfo,
    plan: Plan,
    registry: CodecRegistry,
    profile: Option<&BitrateProfile>,
) -> Seq<SizeView> {
    sizes_upto(media, plan, registry, profile, media.tracks@.len() as int)
}

pub open spec fn values_sum(s: Seq<SizeView>) -> int
    decreases s.len(),
{
    if s.len() == 0 {
        0
    } else {
        values_sum(s.drop_last()) + s.last().2
    }
}

pub open spec fn uppers_sum(s: Seq<SizeView>) -> int
    decreases s.len(),
{
    if s.len() == 0 {
        0
    } else {
        uppers_sum(s.drop_last()) + upper_bound(s.last().2, s.last().3)
    }
}

pub open spec fn worst_of(s: Seq<SizeView>) -> Confidence
    decreases s.len(),
{
    if s.len() == 0 {
        Confidence::Exact
    } else {
        worst_of(s.drop_last()).spec_worst(s.last().3)
    }
}

/// Container overhead for a payload.
pub open spec fn container_bytes(payload: int) -> int {
    payload * CONTAINER_RATIO_PERMILLE / 1000 + CONTAINER_FIXED_BYTES
}

pub open spec fn spec_total(sizes: Seq<SizeView>) -> int {
    let payload = values_sum(sizes);
    round_up_sectors(payload + container_bytes(payload))
}

/// The unrounded sum of the upper ends of the tracks and the container.
pub open spec fn raw_upper(sizes: Seq<SizeView>) -> int {
    uppers_sum(sizes) + upper_bound(container_bytes(values_sum(sizes)), Confidence::Sampled)
}

pub open spec fn spec_total_upper(sizes: Seq<SizeView>) -> int {
    round_up_sectors(raw_upper(sizes))
}

pub open spec fn spec_verdict(total: int, total_upper: int, usable: int) -> Verdict {
    if total_upper <= usable {
        Verdict::Fits
    } else if total <= usable {
        Verdict::Tight
    } else {
        Verdict::Overflow { excess: (total - usable) as u64 }
    }
}

/// The whole breakdown can be held in 64-bit byte counts.
pub open spec fn estimate_fits(
    media: MediaInfo,
    plan: Plan,
    registry: CodecRegistry,
    profile: Option<&BitrateProfile>,
) -> bool {
    raw_upper(spec_sizes(media, plan, registry, profile)) + SECTOR_BYTES <= u64::MAX
}

/// What every caller of the estimate must hand it.
pub open spec fn estimate_inputs_ok(
    plan: Plan,
    registry: CodecRegistry,
    profile: Option<&BitrateProfile>,
) -> bool {
    &&& plan.wf()
    &&& registry.wf()
    &&& profile matches Some(p) ==> samples_bounded(p.samples@)
}

/// The breakdown matches the specification for the given inputs.
pub open spec fn breakdown_matches(
    b: SizeBreakdown,
    media: MediaInfo,
    plan: Plan,
    registry: CodecRegistry,
    profile: Option<&BitrateProfile>,
) -> bool {
    let sizes = spec_sizes(media, plan, registry, profile);
    let payload = values_sum(sizes);
    let usable = usable_of(plan.target.capacity_bytes);
    &&& b.tracks@.map_values(|t: TrackSize| size_view(t)) == sizes
    &&& b.container.value == container_bytes(payload)
    &&& b.container.confidence == Confidence::Sampled
    &&& b.total.value == spec_total(sizes)
    &&& b.total.confidence == worst_of(sizes).spec_worst(Confidence::Sampled)
    &&& b.total_upper == spec_total_upper(sizes)
    &&& b.capacity_bytes == plan.target.capacity_bytes
    &&& b.usable_bytes == usable
    &&& b.verdict == spec_verdict(spec_total(sizes), spec_total_upper(sizes), usable as int)
}

proof fn lemma_sums(s: Seq<SizeView>)
    requires
        forall|i: int| 0 <= i < s.len() ==> #[trigger] s[i].2 >= 0,
    ensures
        0 <= values_sum(s) <= uppers_sum(s),
        forall|i: int| 0 <= i < s.len() ==> #[trigger] s[i].2 <= values_sum(s),
    decreases s.len(),
{
    if s.len() > 0 {
        let r = s.drop_last();
        assert forall|i: int| 0 <= i < r.len() implies #[trigger] r[i].2 >= 0 by {
            assert(r[i] == s[i]);
        }
        lemma_sums(r);
        assert forall|i: int| 0 <= i < s.len() implies #[trigger] s[i].2 <= values_sum(s) by {
            if i < s.len() - 1 {
                assert(r[i] == s[i]);
            }
        }
    }
}

} // verus!

verus! {

/// Largest byte count a single part can reach (`u64` bitrate over `u64` milliseconds).
pub const PART_LIMIT: u128 = 0x10_0000_0000_0000_0000_0000_0000_0000;

proof fn lemma_part_bounds(
    media: MediaInfo,
    plan: Plan,
    registry: CodecRegistry,
    profile: Option<&BitrateProfile>,
    t: Track,
)
    ensures
        track_bytes(media, plan, registry, profile, t) matches Some(b) ==> 0 <= b.0 < PART_LIMIT,
{
    let duration = plan.range.spec_duration_ms();
    if let Some(p) = profile {
        crate::profile::lemma_integral_nonneg(
            p.samples@,
            plan.range.start_s.ms as int,
            plan.range.end_s.ms as int,
        );
    }
    assert forall|bps: nat| bps <= u64::MAX implies bytes_at(bps, duration) < PART_LIMIT by {
        assert(bps * duration <= 0xffff_ffff_ffff_ffff * 0xffff_ffff_ffff_ffff) by (nonlinear_arith)
            requires
                bps <= 0xffff_ffff_ffff_ffff,
                duration <= 0xffff_ffff_ffff_ffff,
        ;
    }
}

proof fn lemma_sizes_bounded(
    media: MediaInfo,
    plan: Plan,
    registry: CodecRegistry,
    profile: Option<&BitrateProfile>,
    n: int,
)
    requires
        0 <= n <= media.tracks@.len(),
    ensures
        forall|i: int|
            0 <= i < sizes_upto(media, plan, registry, profile, n).len() ==> 0 <= #[trigger] sizes_upto(
                media,
                plan,
                registry,
                profile,
                n,
            )[i].2 < PART_LIMIT,
    decreases n,
{
    if n > 0 {
        lemma_sizes_bounded(media, plan, registry, profile, n - 1);
        lemma_part_bounds(media, plan, registry, profile, media.tracks@[n - 1]);
        let r = sizes_upto(media, plan, registry, profile, n - 1);
        let s = sizes_upto(media, plan, registry, profile, n);
        assert forall|i: int| 0 <= i < s.len() implies 0 <= #[trigger] s[i].2 < PART_LIMIT by {
            if i < r.len() {
                assert(s[i] == r[i]);
            }
        }
    }
}

fn track_part(
    media: &MediaInfo,
    plan: &Plan,
    registry: &CodecRegistry,
    profile: Option<&BitrateProfile>,
    t: &Track,
) -> (r: Option<(u128, Confidence)>)
    requires
        estimate_inputs_ok(*plan, *registry, profile),
    ensures
        match r {
            Some(x) => track_bytes(*media, *plan, *registry, profile, *t) == Some((x.0 as int, x.1)),
            None => track_bytes(*media, *plan, *registry, profile, *t) is None,
        },
{
    let duration = plan.range.duration_s();
    let full = plan.range.is_full(media.duration_s);
    if t.kind == TrackKind::Attachment {
        return None;
    }
    match plan.action(t.index) {
        TrackAction::Drop => None,
        TrackAction::Copy => {
            if let Some(p) = profile {
                if p.track_index == t.index && !p.is_empty() && !full {
                    let b = p.bytes_between(plan.range.start_s, plan.range.end_s);
                    return Some((b as u128, Confidence::Sampled));
                }
            }
            let b = bytes_at_rate(t.bps.value, duration);
            let c = if !full && t.bps.confidence == Confidence::Exact {
                Confidence::Guessed
            } else {
                t.bps.confidence
            };
            Some((b, c))
        },
        TrackAction::Transcode { codec_id, opts } => {
            match registry.get(codec_id.as_str()) {
                None => None,
                Some(pc) => {
                    let ctx = EncodeCtx { src: t, opts, duration_s: duration };
                    let bps = pc.estimate_bps(&ctx);
                    Some((bytes_at_rate(bps.value, duration), bps.confidence))
                },
            }
        },
    }
}

/// The size estimate, or `None` when the byte counts would not fit in 64 bits.
pub fn estimate_checked(
    media: &MediaInfo,
    plan: &Plan,
    registry: &CodecRegistry,
    profile: Option<&BitrateProfile>,
) -> (r: Option<SizeBreakdown>)
    requires
        estimate_inputs_ok(*plan, *registry, profile),
    ensures
        r is Some <==> estimate_fits(*media, *plan, *registry, profile),
        r matches Some(b) ==> breakdown_matches(b, *media, *plan, *registry, profile),
{
    let ghost all = spec_sizes(*media, *plan, *registry, profile);
    let mut tracks: Vec<TrackSize> = Vec::new();
    let mut payload: u128 = 0;
    let mut uppers: u128 = 0;
    let mut conf = Confidence::Exact;
    let mut i: usize = 0;
    while i < media.tracks.len()
        invariant
            estimate_inputs_ok(*plan, *registry, profile),
            i <= media.tracks@.len(),
            tracks@.len() == sizes_upto(*media, *plan, *registry, profile, i as int).len(),
            forall|j: int|
                0 <= j < tracks@.len() ==> {
                    let s = #[trigger] sizes_upto(*media, *plan, *registry, profile, i as int)[j];
                    &&& tracks@[j].index == s.0
                    &&& tracks@[j].label@ == s.1
                    &&& tracks@[j].bytes.value == s.2 as u64
                    &&& tracks@[j].bytes.confidence == s.3
                },
            payload == min_u128(values_sum(sizes_upto(*media, *plan, *registry, profile, i as int))),
            uppers == min_u128(uppers_sum(sizes_upto(*media, *plan, *registry, profile, i as int))),
            conf == worst_of(sizes_upto(*media, *plan, *registry, profile, i as int)),
        decreases media.tracks@.len() - i,
    {
        let t = &media.tracks[i];
        let ghost before = sizes_upto(*media, *plan, *registry, profile, i as int);
        proof {
            lemma_sizes_bounded(*media, *plan, *registry, profile, i as int);
            lemma_sums(before);
            lemma_part_bounds(*media, *plan, *registry, profile, *t);
        }
        match track_part(media, plan, registry, profile, t) {
            Some((v, c)) => {
                let m = c.margin() as u128;
                assert(v * m <= PART_LIMIT * 200) by (nonlinear_arith)
                    requires
                        v < PART_LIMIT,
                        m <= 200,
                ;
                let up = v + (v * m + 500) / 1000;
                let label = t.label();
                tracks.push(
                    TrackSize {
                        index: t.index,
                        label,
                        bytes: Estimated { value: v as u64, confidence: c },
                    },
                );
                payload = payload.saturating_add(v);
                uppers = uppers.saturating_add(up);
                conf = conf.worst(c);
                proof {
                    let after = sizes_upto(*media, *plan, *registry, profile, i + 1);
                    assert(after.drop_last() == before);
                    assert forall|j: int| 0 <= j < tracks@.len() implies {
                        let s = #[trigger] sizes_upto(*media, *plan, *registry, profile, i + 1)[j];
                        &&& tracks@[j].index == s.0
                        &&& tracks@[j].label@ == s.1
                        &&& tracks@[j].bytes.value == s.2 as u64
                        &&& tracks@[j].bytes.confidence == s.3
                    } by {
                        if j < tracks@.len() - 1 {
                            assert(after[j] == before[j]);
                        }
                    }
                }
            },
            None => {
                proof {
                    assert(sizes_upto(*media, *plan, *registry, profile, i + 1) == before);
                }
            },
        }
        i = i + 1;
    }
    proof {
        lemma_sizes_bounded(*media, *plan, *registry, profile, i as int);
        lemma_sums(all);
    }
    if uppers > 0xffff_ffff_ffff_ffffu128 {
        return None;
    }
    let container = payload * 5 / 1000 + 2_000_000;
    let container_upper = container + (container * 50 + 500) / 1000;
    let raw = uppers + container_upper;
    if raw + 2048 > 0xffff_ffff_ffff_ffffu128 {
        return None;
    }
    let total = round_up_to_sector((payload + container) as u64);
    let total_upper = round_up_to_sector(raw as u64);
    let usable = plan.target.usable_bytes();
    let verdict = if total_upper <= usable {
        Verdict::Fits
    } else if total <= usable {
        Verdict::Tight
    } else {
        Verdict::Overflow { excess: total - usable }
    };
    let b = SizeBreakdown {
        tracks,
        container: Estimated::sampled(container as u64),
        total: Estimated { value: total, confidence: conf.worst(Confidence::Sampled) },
        total_upper,
        capacity_bytes: plan.target.capacity_bytes,
        usable_bytes: usable,
        verdict,
    };
    proof {
        assert(b.tracks@.map_values(|t: TrackSize| size_view(t)) =~= all);
    }
    Some(b)
}

/// The largest `u128` value not above `x` (so `x` itself when it fits).
pub open spec fn min_u128(x: int) -> int {
    if x > u128::MAX {
        u128::MAX as int
    } else {
        x
    }
}

/// How big the result will be: per-track parts, container overhead, the
/// total with its confidence, the sum of upper ends and the verdict against
/// the usable capacity of the target.
pub fn estimate(
    media: &MediaInfo,
    plan: &Plan,
    registry: &CodecRegistry,
    profile: Option<&BitrateProfile>,
) -> (b: SizeBreakdown)
    requires
        estimate_inputs_ok(*plan, *registry, profile),
        estimate_fits(*media, *plan, *registry, profile),
    ensures
        breakdown_matches(b, *media, *plan, *registry, profile),
{
    match estimate_checked(media, plan, registry, profile) {
        Some(b) => b,
        None => vstd::pervasive::unreached(),
    }
}

} // verus!

verus! {

pub proof fn lemma_round_up_monotone(a: int, b: int)
    requires
        0 <= a <= b,
    ensures
        a <= round_up_sectors(a) <= round_up_sectors(b),
        round_up_sectors(a) < a + SECTOR_BYTES,
{
    assert((a + 2047) / 2048 <= (b + 2047) / 2048) by (nonlinear_arith)
        requires
            a <= b,
    ;
    assert(a <= ((a + 2047) / 2048) * 2048 < a + 2048) by (nonlinear_arith)
        requires
            0 <= a,
    ;
    assert(((a + 2047) / 2048) * 2048 <= ((b + 2047) / 2048) * 2048) by (nonlinear_arith)
        requires
            (a + 2047) / 2048 <= (b + 2047) / 2048,
    ;
}

/// The point estimate never exceeds the sum of upper ends, so the verdict is
/// consistent: a fit means the point estimate fits too, a tight result has
/// the point inside and the upper end outside the usable space, and an
/// overflow reports by how much the point estimate exceeds it.
pub proof fn law_verdict_is_consistent(
    media: MediaInfo,
    plan: Plan,
    registry: CodecRegistry,
    profile: Option<&BitrateProfile>,
    usable: int,
)
    requires
        estimate_inputs_ok(plan, registry, profile),
    ensures
        ({
            let s = spec_sizes(media, plan, registry, profile);
            let total = spec_total(s);
            let upper = spec_total_upper(s);
            &&& total <= upper
            &&& spec_verdict(total, upper, usable) == Verdict::Fits ==> upper <= usable && total <= usable
            &&& spec_verdict(total, upper, usable) == Verdict::Tight ==> total <= usable < upper
            &&& (spec_verdict(total, upper, usable) matches Verdict::Overflow { excess } ==> usable
                < total && (total <= u64::MAX + usable ==> excess == total - usable))
        }),
{
    let n = media.tracks@.len() as int;
    lemma_sizes_bounded(media, plan, registry, profile, n);
    let s = spec_sizes(media, plan, registry, profile);
    lemma_sums(s);
    let payload = values_sum(s);
    let c = container_bytes(payload);
    assert(c >= 0) by (nonlinear_arith)
        requires
            c == payload * 5 / 1000 + 2_000_000,
            payload >= 0,
    ;
    assert(payload + c <= raw_upper(s));
    lemma_round_up_monotone(payload + c, raw_upper(s));
}

/// A track that is dropped, unknown to the plan, an attachment, or sent to
/// an unknown codec takes no place in the breakdown: every row belongs to a
/// track of the file that is kept.
pub proof fn law_only_kept_tracks_are_counted(
    media: MediaInfo,
    plan: Plan,
    registry: CodecRegistry,
    profile: Option<&BitrateProfile>,
    n: int,
)
    requires
        0 <= n <= media.tracks@.len(),
    ensures
        forall|i: int|
            0 <= i < sizes_upto(media, plan, registry, profile, n).len() ==> exists|j: int|
                0 <= j < n && media.tracks@[j].index == #[trigger] sizes_upto(
                    media,
                    plan,
                    registry,
                    profile,
                    n,
                )[i].0 && media.tracks@[j].kind != TrackKind::Attachment && !(plan.spec_action(
                    media.tracks@[j].index,
                ) is Drop),
    decreases n,
{
    if n > 0 {
        law_only_kept_tracks_are_counted(media, plan, registry, profile, n - 1);
        let r = sizes_upto(media, plan, registry, profile, n - 1);
        let s = sizes_upto(media, plan, registry, profile, n);
        assert forall|i: int| 0 <= i < s.len() implies exists|j: int|
            0 <= j < n && media.tracks@[j].index == #[trigger] s[i].0 && media.tracks@[j].kind
                != TrackKind::Attachment && !(plan.spec_action(media.tracks@[j].index) is Drop) by {
            if i < r.len() {
                assert(s[i] == r[i]);
                let j = choose|j: int|
                    0 <= j < n - 1 && media.tracks@[j].index == #[trigger] r[i].0
                        && media.tracks@[j].kind != TrackKind::Attachment && !(plan.spec_action(
                        media.tracks@[j].index,
                    ) is Drop);
            } else {
                assert(media.tracks@[n - 1].index == s[i].0);
            }
        }
    }
}

/// Dropping a track changes the part of no other track.
proof fn lemma_drop_keeps_other_parts(
    media: MediaInfo,
    plan: Plan,
    dropped: Plan,
    registry: CodecRegistry,
    profile: Option<&BitrateProfile>,
    index: usize,
    t: Track,
)
    requires
        dropped.action_map() == plan.action_map().insert(index, TrackAction::Drop),
        dropped.range == plan.range,
    ensures
        t.index == index ==> track_bytes(media, dropped, registry, profile, t) is None,
        t.index != index ==> track_bytes(media, dropped, registry, profile, t) == track_bytes(
            media,
            plan,
            registry,
            profile,
            t,
        ),
{
    if t.index != index {
        assert(dropped.spec_action(t.index) == plan.spec_action(t.index));
    } else {
        assert(dropped.spec_action(t.index) == TrackAction::Drop);
    }
}

/// The sums over the rows of a plan with one more track dropped.
proof fn lemma_drop_sums(
    media: MediaInfo,
    plan: Plan,
    dropped: Plan,
    registry: CodecRegistry,
    profile: Option<&BitrateProfile>,
    index: usize,
    n: int,
)
    requires
        dropped.action_map() == plan.action_map().insert(index, TrackAction::Drop),
        dropped.range == plan.range,
        0 <= n <= media.tracks@.len(),
    ensures
        values_sum(sizes_upto(media, dropped, registry, profile, n)) <= values_sum(
            sizes_upto(media, plan, registry, profile, n),
        ),
        uppers_sum(sizes_upto(media, dropped, registry, profile, n)) <= uppers_sum(
            sizes_upto(media, plan, registry, profile, n),
        ),
    decreases n,
{
    if n > 0 {
        lemma_drop_sums(media, plan, dropped, registry, profile, index, n - 1);
        let t = media.tracks@[n - 1];
        lemma_drop_keeps_other_parts(media, plan, dropped, registry, profile, index, t);
        lemma_part_bounds(media, plan, registry, profile, t);
        let r = sizes_upto(media, plan, registry, profile, n - 1);
        let s = sizes_upto(media, plan, registry, profile, n);
        if let Some(b) = track_bytes(media, plan, registry, profile, t) {
            assert(s.drop_last() == r);
            let m = b.1.margin_permille() as int;
            assert(0 <= (b.0 * m + 500) / 1000) by (nonlinear_arith)
                requires
                    0 <= b.0,
                    0 <= m,
            ;
        }
        let r2 = sizes_upto(media, dropped, registry, profile, n - 1);
        let s2 = sizes_upto(media, dropped, registry, profile, n);
        if track_bytes(media, dropped, registry, profile, t) is Some {
            assert(s2.drop_last() == r2);
        }
    }
}

/// Container overhead and its upper end grow with the payload.
proof fn lemma_container_monotone(p1: int, p2: int)
    requires
        0 <= p1 <= p2,
    ensures
        container_bytes(p1) <= container_bytes(p2),
        upper_bound(container_bytes(p1), Confidence::Sampled) <= upper_bound(
            container_bytes(p2),
            Confidence::Sampled,
        ),
{
    assert(p1 * 5 / 1000 <= p2 * 5 / 1000) by (nonlinear_arith)
        requires
            0 <= p1 <= p2,
    ;
    let c1 = container_bytes(p1);
    let c2 = container_bytes(p2);
    assert((c1 * 50 + 500) / 1000 <= (c2 * 50 + 500) / 1000) by (nonlinear_arith)
        requires
            c1 <= c2,
    ;
}

/// Dropping a track never makes the result bigger: the payload, the total
/// and the upper end of the interval can only shrink, so a plan that fitted
/// (for any usable capacity) still fits, and a tight one is tight at worst.
pub proof fn law_dropping_a_track_never_grows_the_estimate(
    media: MediaInfo,
    plan: Plan,
    dropped: Plan,
    registry: CodecRegistry,
    profile: Option<&BitrateProfile>,
    index: usize,
    usable: int,
)
    requires
        dropped.action_map() == plan.action_map().insert(index, TrackAction::Drop),
        dropped.range == plan.range,
    ensures
        ({
            let before = spec_sizes(media, plan, registry, profile);
            let after = spec_sizes(media, dropped, registry, profile);
            let v_before = spec_verdict(spec_total(before), spec_total_upper(before), usable);
            let v_after = spec_verdict(spec_total(after), spec_total_upper(after), usable);
            &&& values_sum(after) <= values_sum(before)
            &&& spec_total(after) <= spec_total(before)
            &&& spec_total_upper(after) <= spec_total_upper(before)
            &&& v_before == Verdict::Fits ==> v_after == Verdict::Fits
            &&& v_before == Verdict::Tight ==> (v_after == Verdict::Fits || v_after == Verdict::Tight)
        }),
{
    let n = media.tracks@.len() as int;
    let before = spec_sizes(media, plan, registry, profile);
    let after = spec_sizes(media, dropped, registry, profile);
    lemma_drop_sums(media, plan, dropped, registry, profile, index, n);
    lemma_sizes_bounded(media, dropped, registry, profile, n);
    lemma_sums(after);
    let p1 = values_sum(after);
    let p2 = values_sum(before);
    lemma_container_monotone(p1, p2);
    let c1 = container_bytes(p1);
    assert(c1 >= 0) by (nonlinear_arith)
        requires
            c1 == p1 * 5 / 1000 + 2_000_000,
            p1 >= 0,
    ;
    lemma_round_up_monotone(p1 + c1, p2 + container_bytes(p2));
    lemma_sizes_bounded(media, plan, registry, profile, n);
    lemma_sums(before);
    assert(0 <= upper_bound(c1, Confidence::Sampled)) by (nonlinear_arith)
        requires
            c1 >= 0,
            upper_bound(c1, Confidence::Sampled) == c1 + (c1 * 50 + 500) / 1000,
    ;
    lemma_round_up_monotone(raw_upper(after), raw_upper(before));
}

/// What a breakdown's verdict means, read off the breakdown itself: it fits
/// exactly when the upper end is within the usable space, it is tight
/// exactly when only the point estimate is, it overflows exactly when the
/// point estimate is beyond it, by the difference; the usable space is the
/// target's capacity less the file system and the safety margin.
pub proof fn law_breakdown_verdict(
    b: SizeBreakdown,
    media: MediaInfo,
    plan: Plan,
    registry: CodecRegistry,
    profile: Option<&BitrateProfile>,
)
    requires
        estimate_inputs_ok(plan, registry, profile),
        breakdown_matches(b, media, plan, registry, profile),
    ensures
        b.verdict == Verdict::Fits <==> b.total_upper <= b.usable_bytes,
        b.verdict == Verdict::Tight <==> b.total.value <= b.usable_bytes < b.total_upper,
        b.verdict is Overflow <==> b.total.value > b.usable_bytes,
        b.verdict matches Verdict::Overflow { excess } ==> excess == b.total.value - b.usable_bytes,
        b.usable_bytes == usable_of(plan.target.capacity_bytes),
        b.capacity_bytes == plan.target.capacity_bytes,
{
    law_verdict_is_consistent(media, plan, registry, profile, b.usable_bytes as int);
}

} // verus!

verus! {

/// Whether a track gets a row of the breakdown: it is no attachment, the plan
/// keeps it, and a transcode goes to a codec that the registry knows.
pub open spec fn has_row(plan: Plan, registry: CodecRegistry, t: Track) -> bool {
    t.kind != TrackKind::Attachment && match plan.spec_action(t.index) {
        TrackAction::Drop => false,
        TrackAction::Copy => true,
        TrackAction::Transcode { codec_id, .. } => registry.spec_get(codec_id@) is Some,
    }
}

pub open spec fn row_key(r: SizeView) -> (usize, Seq<char>) {
    (r.0, r.1)
}

pub open spec fn track_key(t: Track) -> (usize, Seq<char>) {
    (t.index, label_text(uppercase(t.codec@), t))
}

proof fn lemma_rows_upto(
    media: MediaInfo,
    plan: Plan,
    registry: CodecRegistry,
    profile: Option<&BitrateProfile>,
    n: int,
)
    requires
        0 <= n <= media.tracks@.len(),
    ensures
        sizes_upto(media, plan, registry, profile, n).map_values(|r: SizeView| row_key(r))
            == media.tracks@.subrange(0, n).filter(|t: Track| has_row(plan, registry, t)).map_values(
            |t: Track| track_key(t),
        ),
    decreases n,
{
    let pred = |t: Track| has_row(plan, registry, t);
    let s = media.tracks@.subrange(0, n);
    reveal_with_fuel(Seq::<Track>::filter, 1);
    if n == 0 {
        assert(s.filter(pred) =~= Seq::<Track>::empty());
        assert(sizes_upto(media, plan, registry, profile, n).map_values(|r: SizeView| row_key(r))
            =~= Seq::<(usize, Seq<char>)>::empty());
    } else {
        lemma_rows_upto(media, plan, registry, profile, n - 1);
        let t = media.tracks@[n - 1];
        assert(s.drop_last() =~= media.tracks@.subrange(0, n - 1));
        assert(s.last() == t);
        assert(track_bytes(media, plan, registry, profile, t) is Some <==> has_row(plan, registry, t));
        let r = sizes_upto(media, plan, registry, profile, n - 1);
        let f = media.tracks@.subrange(0, n - 1).filter(pred);
        if has_row(plan, registry, t) {
            assert(s.filter(pred) == f.push(t));
            assert(sizes_upto(media, plan, registry, profile, n).map_values(|r: SizeView| row_key(r))
                =~= r.map_values(|r: SizeView| row_key(r)).push(track_key(t)));
            assert(f.push(t).map_values(|t: Track| track_key(t)) =~= f.map_values(
                |t: Track| track_key(t),
            ).push(track_key(t)));
        } else {
            assert(s.filter(pred) == f);
        }
    }
}

/// The breakdown has one row for each track that is kept, is no attachment
/// and, when transcoded, goes to a known codec; the rows come in the order of
/// the file's tracks and carry each track's index and caption.
pub proof fn law_rows_follow_kept_tracks(
    media: MediaInfo,
    plan: Plan,
    registry: CodecRegistry,
    profile: Option<&BitrateProfile>,
)
    ensures
        spec_sizes(media, plan, registry, profile).map_values(|r: SizeView| row_key(r))
            == media.tracks@.filter(|t: Track| has_row(plan, registry, t)).map_values(
            |t: Track| track_key(t),
        ),
{
    lemma_rows_upto(media, plan, registry, profile, media.tracks@.len() as int);
    assert(media.tracks@.subrange(0, media.tracks@.len() as int) =~= media.tracks@);
}

} // verus!
