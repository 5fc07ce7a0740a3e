//! How sizes and times are written for people.

use vstd::prelude::*;
use crate::text::{decimal, div_round_even, div_round_even_u64, fixed1, fixed1_to_string, fixed2, fixed2_to_string, padded_decimal, padded_to_string, u64_to_string};
use crate::codec::CodecRegistry;
use crate::estimate::{SizeBreakdown, TrackSize, Verdict};
use crate::plan::TrackAction;
use crate::estimated::Confidence;
use crate::note::Level;
use crate::plan::{Target, TargetSource};
use crate::text::owned;
use crate::units::Seconds;

verus! {

/// From this size on, sizes are shown in gigabytes.
pub const GIGABYTE_DISPLAY_THRESHOLD_BYTES: u64 = 100_000_000;

/// A byte count in decimal units, as disc labels give them: gigabytes with
/// two decimals from a tenth of a gigabyte on, then megabytes and kilobytes
/// with one decimal, and plain bytes below a kilobyte (the last digit rounded
/// to the nearest, an exact half to even).
pub open spec fn spec_format_bytes(b: u64) -> Seq<char> {
    if b >= GIGABYTE_DISPLAY_THRESHOLD_BYTES {
        fixed2(div_round_even(b as nat, 10_000_000)) + " ГБ"@
    } else if b >= 1_000_000 {
        fixed1(div_round_even(b as nat, 100_000)) + " МБ"@
    } else if b >= 1_000 {
        fixed1(div_round_even(b as nat, 100)) + " КБ"@
    } else {
        decimal(b as nat) + " Б"@
    }
}

/// A byte count for people (see [`spec_format_bytes`]).
pub fn format_bytes(b: u64) -> (s: String)
    ensures
        s@ == spec_format_bytes(b),
{
    let mut s;
    if b >= GIGABYTE_DISPLAY_THRESHOLD_BYTES {
        s = fixed2_to_string(div_round_even_u64(b, 10_000_000));
        s.append(" ГБ");
    } else if b >= 1_000_000 {
        s = fixed1_to_string(div_round_even_u64(b, 100_000));
        s.append(" МБ");
    } else if b >= 1_000 {
        s = fixed1_to_string(div_round_even_u64(b, 100));
        s.append(" КБ");
    } else {
        s = u64_to_string(b);
        s.append(" Б");
    }
    s
}

/// A moment as `h:mm:ss`, rounded to the nearest second (halves up).
pub open spec fn spec_format_time(t: Seconds) -> Seq<char> {
    let s = ((t.ms + 500) / 1000) as nat;
    decimal(s / 3600) + ":"@ + padded_decimal((s % 3600) / 60, 2) + ":"@ + padded_decimal(s % 60, 2)
}

/// A moment as `h:mm:ss` (see [`spec_format_time`]).
pub fn format_time(t: Seconds) -> (r: String)
    ensures
        r@ == spec_format_time(t),
{
    let s = ((t.ms as u128 + 500) / 1000) as u64;
    let mut r = u64_to_string(s / 3600);
    r.append(":");
    r.append(padded_to_string((s % 3600) / 60, 2).as_str());
    r.append(":");
    r.append(padded_to_string(s % 60, 2).as_str());
    r
}

/// The verdict in words: the free space that remains, a warning that the
/// fit is narrow, or the excess.
pub open spec fn spec_verdict_caption(b: SizeBreakdown) -> Seq<char> {
    match b.verdict {
        Verdict::Fits => "влезает, запас "@ + spec_format_bytes(
            if b.usable_bytes >= b.total.value {
                (b.usable_bytes - b.total.value) as u64
            } else {
                0
            },
        ),
        Verdict::Tight => "влезает впритык — лучше убрать ещё дорожку"@,
        Verdict::Overflow { excess } => "не влезает, лишних "@ + spec_format_bytes(excess),
    }
}

/// The verdict as the budget panel words it (see [`spec_verdict_caption`]).
pub fn verdict_caption(b: &SizeBreakdown) -> (s: String)
    ensures
        s@ == spec_verdict_caption(*b),
{
    match b.verdict {
        Verdict::Fits => {
            let mut s = owned("влезает, запас ");
            s.append(format_bytes(b.usable_bytes.saturating_sub(b.total.value)).as_str());
            s
        },
        Verdict::Tight => owned("влезает впритык — лучше убрать ещё дорожку"),
        Verdict::Overflow { excess } => {
            let mut s = owned("не влезает, лишних ");
            s.append(format_bytes(excess).as_str());
            s
        },
    }
}

/// The total against the capacity: `<total> из <capacity>`.
pub fn total_caption(b: &SizeBreakdown) -> (s: String)
    ensures
        s@ == spec_format_bytes(b.total.value) + " из "@ + spec_format_bytes(b.capacity_bytes),
{
    let mut s = format_bytes(b.total.value);
    s.append(" из ");
    s.append(format_bytes(b.capacity_bytes).as_str());
    s
}

/// The mark before a size: a dot for an exact figure, a tilde for an estimate.
pub fn confidence_mark(c: Confidence) -> (m: &'static str)
    ensures
        m@ == (if c == Confidence::Exact {
            "•"@
        } else {
            "~"@
        }),
{
    match c {
        Confidence::Exact => "•",
        _ => "~",
    }
}

/// The prefix of a note in the list.
pub fn level_prefix(l: Level) -> (p: &'static str)
    ensures
        p@ == (match l {
            Level::Info => "i"@,
            Level::Warning => "!"@,
            Level::Blocker => "стоп"@,
        }),
{
    match l {
        Level::Info => "i",
        Level::Warning => "!",
        Level::Blocker => "стоп",
    }
}

/// How the chosen target is named: where its capacity comes from, then the capacity.
pub open spec fn spec_target_caption(t: Target) -> Seq<char> {
    let origin = match t.source {
        TargetSource::Drive(d) => "диск в "@ + d@,
        TargetSource::Preset(p) => p@,
        TargetSource::Manual => "вручную"@,
    };
    origin + " — "@ + spec_format_bytes(t.capacity_bytes)
}

/// How the chosen target is named (see [`spec_target_caption`]).
pub fn target_caption(t: &Target) -> (s: String)
    ensures
        s@ == spec_target_caption(*t),
{
    let mut s = match &t.source {
        TargetSource::Drive(d) => {
            let mut s = owned("диск в ");
            s.append(d.as_str());
            s
        },
        TargetSource::Preset(p) => owned(p.as_str()),
        TargetSource::Manual => owned("вручную"),
    };
    s.append(" — ");
    s.append(format_bytes(t.capacity_bytes).as_str());
    s
}

/// What the action picker shows for a track's action: copy, the codec
/// profile's label (or its identifier if the registry does not know it), drop.
pub open spec fn spec_action_caption(registry: CodecRegistry, action: TrackAction) -> Seq<char> {
    match action {
        TrackAction::Copy => "Копировать"@,
        TrackAction::Transcode { codec_id, .. } => match registry.spec_get(codec_id@) {
            Some(p) => p.spec_label(),
            None => codec_id@,
        },
        TrackAction::Drop => "Удалить"@,
    }
}

/// What the action picker shows (see [`spec_action_caption`]).
pub fn action_caption(registry: &CodecRegistry, action: &TrackAction) -> (s: String)
    requires
        registry.wf(),
    ensures
        s@ == spec_action_caption(*registry, *action),
{
    match action {
        TrackAction::Copy => owned("Копировать"),
        TrackAction::Transcode { codec_id, .. } => match registry.get(codec_id.as_str()) {
            Some(p) => owned(p.label()),
            None => codec_id.clone(),
        },
        TrackAction::Drop => owned("Удалить"),
    }
}

/// Position of the first breakdown row of the track with stream index `index`.
pub open spec fn first_row(rows: Seq<TrackSize>, index: usize) -> Option<int> {
    if exists|i: int| 0 <= i < rows.len() && (#[trigger] rows[i]).index == index {
        Some(choose|i: int| 0 <= i < rows.len() && (#[trigger] rows[i]).index == index && forall|j: int|
            0 <= j < i ==> (#[trigger] rows[j]).index != index)
    } else {
        None
    }
}

/// The size shown beside a track: its part of the breakdown, or a dash for
/// a track that takes no place.
pub open spec fn spec_size_caption(b: SizeBreakdown, index: usize) -> Seq<char> {
    match first_row(b.tracks@, index) {
        Some(i) => spec_format_bytes(b.tracks@[i].bytes.value),
        None => "—"@,
    }
}

/// The size shown beside a track (see [`spec_size_caption`]).
pub fn size_caption(b: &SizeBreakdown, index: usize) -> (s: String)
    ensures
        s@ == spec_size_caption(*b, index),
{
    let mut i: usize = 0;
    while i < b.tracks.len()
        invariant
            i <= b.tracks@.len(),
            forall|j: int| 0 <= j < i ==> (#[trigger] b.tracks@[j]).index != index,
        decreases b.tracks@.len() - i,
    {
        if b.tracks[i].index == index {
            proof {
                let w = choose|w: int| 0 <= w < b.tracks@.len() && (#[trigger] b.tracks@[w]).index == index
                    && forall|j: int| 0 <= j < w ==> (#[trigger] b.tracks@[j]).index != index;
                assert(b.tracks@[i as int].index == index);
                if w < i {
                    assert(b.tracks@[w].index != index);
                }
                if w > i {
                    assert(b.tracks@[i as int].index != index);
                }
            }
            return format_bytes(b.tracks[i].bytes.value);
        }
        i = i + 1;
    }
    owned("—")
}

} // verus!
