//! What the probed file holds: its tracks, colour format and length.

use vstd::prelude::*;
use crate::estimated::Estimated;
use crate::text::{decimal, to_uppercase, u64_to_string, uppercase};
use crate::units::{FrameRate, Seconds};

verus! {

#[derive(Debug, Clone, Copy, PartialEq, Eq, Structural)]
pub enum TrackKind {
    Video,
    Audio,
    Subtitle,
    Attachment,
}

#[derive(Debug, Clone, PartialEq)]
pub struct Track {
    /// Index of the stream in the source file as ffmpeg sees it (`-map 0:<index>`).
    pub index: usize,
    pub kind: TrackKind,
    pub codec: String,
    pub language: Option<String>,
    pub title: Option<String>,
    pub channels: Option<u32>,
    pub width: Option<u32>,
    pub height: Option<u32>,
    pub bps: Estimated<u64>,
}

/// Bytes taken by `ms` milliseconds at `bps` bits per second, rounded half up.
pub open spec fn bytes_at(bps: nat, ms: nat) -> nat {
    (bps * ms + 4000) / 8000
}

/// Computes [`bytes_at`] without overflow for any `bps` and `ms`.
pub fn bytes_at_rate(bps: u64, t: Seconds) -> (b: u128)
    ensures
        b == bytes_at(bps as nat, t.ms as nat),
{
    let a = bps as u128;
    let m = t.ms as u128;
    assert(a * m <= 0xffff_ffff_ffff_ffffu128 * 0xffff_ffff_ffff_ffffu128) by (nonlinear_arith)
        requires
            a <= 0xffff_ffff_ffff_ffffu128,
            m <= 0xffff_ffff_ffff_ffffu128,
    ;
    (a * m + 4000) / 8000
}

/// Human-readable caption of a track, given the upper-cased codec name:
/// codec, channel count, height, language and title in guillemets.
pub open spec fn label_text(upper_codec: Seq<char>, t: Track) -> Seq<char> {
    upper_codec + match t.channels {
        Some(c) => seq![' '] + decimal(c as nat) + seq!['c', 'h'],
        None => Seq::empty(),
    } + match t.height {
        Some(h) => seq![' '] + decimal(h as nat) + seq!['p'],
        None => Seq::empty(),
    } + match t.language {
        Some(l) => seq![' '] + l@,
        None => Seq::empty(),
    } + match t.title {
        Some(ti) => seq![' ', '«'] + ti@ + seq!['»'],
        None => Seq::empty(),
    }
}

impl Track {
    /// Bytes this track takes over `seconds` of playback (capped at
    /// `u64::MAX`, as a saturating conversion would).
    pub fn bytes_for(&self, seconds: Seconds) -> (e: Estimated<u64>)
        ensures
            e.value == (if bytes_at(self.bps.value as nat, seconds.ms as nat) > u64::MAX {
                u64::MAX as nat
            } else {
                bytes_at(self.bps.value as nat, seconds.ms as nat)
            }),
            e.confidence == self.bps.confidence,
    {
        let bytes = bytes_at_rate(self.bps.value, seconds);
        let value = if bytes > 0xffff_ffff_ffff_ffffu128 {
            0xffff_ffff_ffff_ffffu64
        } else {
            bytes as u64
        };
        Estimated { value, confidence: self.bps.confidence }
    }

    /// Caption for the track table and the budget breakdown.
    pub fn label(&self) -> (s: String)
        ensures
            s@ == label_text(uppercase(self.codec@), *self),
    {
        let upper = to_uppercase(self.codec.as_str());
        self.label_from_upper(upper)
    }

    /// The caption built around an already upper-cased codec name.
    pub fn label_from_upper(&self, upper_codec: String) -> (s: String)
        ensures
            s@ == label_text(upper_codec@, *self),
    {
        proof {
            reveal_strlit(" ");
            reveal_strlit("ch");
            reveal_strlit("p");
            reveal_strlit(" «");
            reveal_strlit("»");
        }
        let mut s = upper_codec;
        let ghost s0 = s@;
        if let Some(ch) = self.channels {
            s.append(" ");
            s.append(u64_to_string(ch as u64).as_str());
            s.append("ch");
        }
        let ghost s1 = s@;
        assert(s1 =~= s0 + match self.channels {
            Some(c) => seq![' '] + decimal(c as nat) + seq!['c', 'h'],
            None => Seq::<char>::empty(),
        });
        if let Some(h) = self.height {
            s.append(" ");
            s.append(u64_to_string(h as u64).as_str());
            s.append("p");
        }
        let ghost s2 = s@;
        assert(s2 =~= s1 + match self.height {
            Some(h) => seq![' '] + decimal(h as nat) + seq!['p'],
            None => Seq::<char>::empty(),
        });
        if let Some(l) = &self.language {
            s.append(" ");
            s.append(l.as_str());
        }
        let ghost s3 = s@;
        assert(s3 =~= s2 + match self.language {
            Some(l) => seq![' '] + l@,
            None => Seq::<char>::empty(),
        });
        if let Some(t) = &self.title {
            s.append(" «");
            s.append(t.as_str());
            s.append("»");
        }
        assert(s@ =~= s3 + match self.title {
            Some(ti) => seq![' ', '«'] + ti@ + seq!['»'],
            None => Seq::<char>::empty(),
        });
        s
    }
}

#[derive(Debug, Clone, Copy, PartialEq, Eq, Structural)]
pub enum ColorInfo {
    Sdr,
    Hdr10,
    DolbyVision { profile: u8, has_hdr10_base: bool },
}

impl ColorInfo {
    pub open spec fn spec_survives_reencode_without_rpu(self) -> bool {
        match self {
            ColorInfo::Sdr | ColorInfo::Hdr10 => true,
            ColorInfo::DolbyVision { has_hdr10_base, .. } => has_hdr10_base,
        }
    }

    /// Whether the picture survives re-encoding if the Dolby Vision RPU is lost.
    pub fn survives_reencode_without_rpu(self) -> (b: bool)
        ensures
            b == self.spec_survives_reencode_without_rpu(),
    {
        match self {
            ColorInfo::Sdr | ColorInfo::Hdr10 => true,
            ColorInfo::DolbyVision { has_hdr10_base, .. } => has_hdr10_base,
        }
    }

    pub fn is_dolby_vision(self) -> (b: bool)
        ensures
            b == (self is DolbyVision),
    {
        match self {
            ColorInfo::DolbyVision { .. } => true,
            _ => false,
        }
    }
}

#[derive(Debug, Clone, PartialEq)]
pub struct MediaInfo {
    pub path: String,
    pub duration_s: Seconds,
    pub tracks: Vec<Track>,
    pub color: ColorInfo,
    /// Actual size of the source file on disk.
    pub file_bytes: u64,
    /// Frame rate of the video; needed to cut the Dolby Vision RPU frame-accurately.
    pub fps: FrameRate,
}

/// Position of the first track satisfying `pred`, if any.
pub open spec fn first_where(tracks: Seq<Track>, pred: spec_fn(Track) -> bool) -> Option<int> {
    if exists|i: int| 0 <= i < tracks.len() && pred(tracks[i]) {
        Some(choose|i: int|
            0 <= i < tracks.len() && pred(tracks[i]) && forall|j: int|
                0 <= j < i ==> !pred(#[trigger] tracks[j]))
    } else {
        None
    }
}

/// The first track satisfying `pred`, if any.
pub open spec fn first_track_where(tracks: Seq<Track>, pred: spec_fn(Track) -> bool) -> Option<Track> {
    match first_where(tracks, pred) {
        Some(i) => Some(tracks[i]),
        None => None,
    }
}

pub open spec fn has_index(index: usize) -> spec_fn(Track) -> bool {
    |t: Track| t.index == index
}

pub open spec fn is_video() -> spec_fn(Track) -> bool {
    |t: Track| t.kind == TrackKind::Video
}

/// Ties the chosen position of [`first_where`] to the first match found by a scan.
pub proof fn lemma_first_where(tracks: Seq<Track>, pred: spec_fn(Track) -> bool, i: int)
    requires
        0 <= i < tracks.len(),
        pred(tracks[i]),
        forall|j: int| 0 <= j < i ==> !pred(#[trigger] tracks[j]),
    ensures
        first_where(tracks, pred) == Some(i),
{
    let k = choose|k: int|
        0 <= k < tracks.len() && pred(tracks[k]) && forall|j: int|
            0 <= j < k ==> !pred(#[trigger] tracks[j]);
    assert(0 <= k < tracks.len() && pred(tracks[k]) && forall|j: int|
        0 <= j < k ==> !pred(#[trigger] tracks[j]));
    if k < i {
        assert(!pred(tracks[k]));
    }
    if k > i {
        assert(!pred(tracks[i]));
    }
}

impl MediaInfo {
    /// The track with the given stream index.
    pub fn track(&self, index: usize) -> (r: Option<&Track>)
        ensures
            match r {
                Some(t) => first_track_where(self.tracks@, has_index(index)) == Some(*t),
                None => first_track_where(self.tracks@, has_index(index)) is None,
            },
    {
        let mut i: usize = 0;
        while i < self.tracks.len()
            invariant
                i <= self.tracks@.len(),
                forall|j: int| 0 <= j < i ==> !has_index(index)(#[trigger] self.tracks@[j]),
            decreases self.tracks@.len() - i,
        {
            if self.tracks[i].index == index {
                proof {
                    lemma_first_where(self.tracks@, has_index(index), i as int);
                }
                return Some(&self.tracks[i]);
            }
            i = i + 1;
        }
        None
    }

    /// The first video track.
    pub fn video(&self) -> (r: Option<&Track>)
        ensures
            match r {
                Some(t) => first_track_where(self.tracks@, is_video()) == Some(*t),
                None => first_track_where(self.tracks@, is_video()) is None,
            },
    {
        let mut i: usize = 0;
        while i < self.tracks.len()
            invariant
                i <= self.tracks@.len(),
                forall|j: int| 0 <= j < i ==> !is_video()(#[trigger] self.tracks@[j]),
            decreases self.tracks@.len() - i,
        {
            if self.tracks[i].kind == TrackKind::Video {
                proof {
                    lemma_first_where(self.tracks@, is_video(), i as int);
                }
                return Some(&self.tracks[i]);
            }
            i = i + 1;
        }
        None
    }
}

} // verus!
