//! What `ffprobe -of json` says about a file, turned into [`MediaInfo`].
//!
//! The JSON itself is decoded elsewhere into the plain records below; this
//! module decides what they mean: which streams are tracks, how many bits per
//! second each one takes, the frame rate and the colour format.

use vstd::prelude::*;
use crate::estimated::{Confidence, Estimated};
use crate::media::{ColorInfo, MediaInfo, Track, TrackKind};
use crate::parse::{
    find_char, first_index_of, parse_thousandths, parse_u64,
    spec_parse_thousandths, spec_parse_u64,
};
use crate::text::str_eq;
use crate::units::{FrameRate, Seconds};

verus! {

/// Why a file could not be probed.
#[derive(Debug, Clone, PartialEq, Eq)]
pub enum ProbeError {
    /// ffprobe could not be started.
    Spawn(String),
    /// ffprobe ran and reported an error.
    Failed(String),
    /// ffprobe's answer could not be decoded.
    Parse(String),
    /// The file holds no stream at all.
    Empty,
}

/// The `format` section of ffprobe's answer.
#[derive(Debug, Clone, Default)]
pub struct RawFormat {
    pub duration: Option<String>,
}

/// The tags of a stream that matter here.
#[derive(Debug, Clone, Default)]
pub struct RawTags {
    pub language: Option<String>,
    pub title: Option<String>,
    /// Matroska's statistics tag: the measured bits per second.
    pub bps: Option<String>,
}

/// One entry of a stream's side data (Dolby Vision configuration).
#[derive(Debug, Clone, Copy, Default, PartialEq, Eq)]
pub struct RawSideData {
    pub dv_profile: Option<u8>,
    pub dv_bl_signal_compatibility_id: Option<u8>,
}

/// One stream of ffprobe's answer.
#[derive(Debug, Clone)]
pub struct RawStream {
    pub index: usize,
    pub codec_name: Option<String>,
    pub codec_type: String,
    pub width: Option<u32>,
    pub height: Option<u32>,
    pub channels: Option<u32>,
    pub bit_rate: Option<String>,
    pub r_frame_rate: Option<String>,
    pub color_transfer: Option<String>,
    pub tags: RawTags,
    pub side_data_list: Vec<RawSideData>,
}

/// ffprobe's whole answer.
#[derive(Debug, Clone)]
pub struct Raw {
    pub streams: Vec<RawStream>,
    pub format: RawFormat,
}

/// The characters of an optional string.
pub open spec fn opt_view(o: Option<String>) -> Option<Seq<char>> {
    match o {
        Some(s) => Some(s@),
        None => None,
    }
}

/// A frame rate written `num/den` with whole numbers and a nonzero denominator.
pub open spec fn spec_parse_rational(s: Seq<char>) -> Option<FrameRate> {
    match first_index_of(s, '/') {
        Some(k) => match (spec_parse_u64(s.subrange(0, k)), spec_parse_u64(s.subrange(k + 1, s.len() as int))) {
            (Some(a), Some(b)) => if a <= u32::MAX && 0 < b <= u32::MAX {
                Some(FrameRate { num: a as u32, den: b as u32 })
            } else {
                None
            },
            _ => None,
        },
        None => None,
    }
}

/// Reads a frame rate such as `24000/1001`; `None` for anything else or a
/// zero denominator.
pub fn parse_rational(s: &str) -> (r: Option<FrameRate>)
    ensures
        r == spec_parse_rational(s@),
{
    let k = match find_char(s, '/') {
        Some(k) => k,
        None => return None,
    };
    let n = s.unicode_len();
    let a = parse_u64(s.substring_char(0, k));
    let b = parse_u64(s.substring_char(k + 1, n));
    match (a, b) {
        (Some(a), Some(b)) => if a <= 0xffff_ffff && 0 < b && b <= 0xffff_ffff {
            Some(FrameRate { num: a as u32, den: b as u32 })
        } else {
            None
        },
        _ => None,
    }
}

/// Codecs heard as lossless or high-resolution audio.
pub open spec fn is_hd_audio(codec: Seq<char>) -> bool {
    codec == "truehd"@ || codec == "dts"@
}

pub open spec fn is_pcm_like(codec: Seq<char>) -> bool {
    codec == "flac"@ || codec == "pcm_s24le"@
}

pub open spec fn is_lossy_audio(codec: Seq<char>) -> bool {
    codec == "ac3"@ || codec == "eac3"@ || codec == "aac"@ || codec == "opus"@
}

pub open spec fn is_text_subtitle(codec: Seq<char>) -> bool {
    codec == "subrip"@ || codec == "ass"@ || codec == "srt"@
}

/// A rough bitrate for a stream that states none, by codec, channel count
/// and picture height.
pub open spec fn spec_guess_bps(codec: Seq<char>, channels: Option<u32>, height: Option<u32>) -> u64 {
    let ch: u64 = match channels {
        Some(c) => c as u64,
        None => 2,
    };
    if is_hd_audio(codec) {
        4_500_000
    } else if is_pcm_like(codec) {
        (ch * 700_000) as u64
    } else if is_lossy_audio(codec) {
        (ch * 110_000) as u64
    } else if is_text_subtitle(codec) {
        100
    } else if codec == "hdmv_pgs_subtitle"@ {
        30_000
    } else {
        match height {
            Some(h) => if h >= 2160 {
                50_000_000
            } else if h >= 1080 {
                12_000_000
            } else {
                3_000_000
            },
            None => 3_000_000,
        }
    }
}

fn is_hd_audio_str(codec: &str) -> (b: bool)
    ensures
        b == is_hd_audio(codec@),
{
    str_eq(codec, "truehd") || str_eq(codec, "dts")
}

fn is_pcm_like_str(codec: &str) -> (b: bool)
    ensures
        b == is_pcm_like(codec@),
{
    str_eq(codec, "flac") || str_eq(codec, "pcm_s24le")
}

fn is_lossy_audio_str(codec: &str) -> (b: bool)
    ensures
        b == is_lossy_audio(codec@),
{
    str_eq(codec, "ac3") || str_eq(codec, "eac3") || str_eq(codec, "aac") || str_eq(codec, "opus")
}

fn is_text_subtitle_str(codec: &str) -> (b: bool)
    ensures
        b == is_text_subtitle(codec@),
{
    str_eq(codec, "subrip") || str_eq(codec, "ass") || str_eq(codec, "srt")
}

/// A rough bitrate for a stream that states none (see [`spec_guess_bps`]).
pub fn guess_bps(codec: &str, channels: Option<u32>, height: Option<u32>) -> (b: u64)
    ensures
        b == spec_guess_bps(codec@, channels, height),
{
    let ch: u64 = match channels {
        Some(c) => c as u64,
        None => 2,
    };
    if is_hd_audio_str(codec) {
        4_500_000
    } else if is_pcm_like_str(codec) {
        ch * 700_000
    } else if is_lossy_audio_str(codec) {
        ch * 110_000
    } else if is_text_subtitle_str(codec) {
        100
    } else if str_eq(codec, "hdmv_pgs_subtitle") {
        30_000
    } else {
        match height {
            Some(h) => if h >= 2160 {
                50_000_000
            } else if h >= 1080 {
                12_000_000
            } else {
                3_000_000
            },
            None => 3_000_000,
        }
    }
}

/// The kind of track ffprobe's `codec_type` names; anything unknown is an attachment.
pub open spec fn spec_kind_of(codec_type: Seq<char>) -> TrackKind {
    if codec_type == "video"@ {
        TrackKind::Video
    } else if codec_type == "audio"@ {
        TrackKind::Audio
    } else if codec_type == "subtitle"@ {
        TrackKind::Subtitle
    } else {
        TrackKind::Attachment
    }
}

/// The kind of track ffprobe's `codec_type` names.
pub fn kind_of(codec_type: &str) -> (k: TrackKind)
    ensures
        k == spec_kind_of(codec_type@),
{
    if str_eq(codec_type, "video") {
        TrackKind::Video
    } else if str_eq(codec_type, "audio") {
        TrackKind::Audio
    } else if str_eq(codec_type, "subtitle") {
        TrackKind::Subtitle
    } else {
        TrackKind::Attachment
    }
}

/// A "video" stream that is really a cover picture.
pub open spec fn spec_is_cover_attachment(kind: TrackKind, codec: Seq<char>) -> bool {
    kind == TrackKind::Video && (codec == "mjpeg"@ || codec == "png"@)
}

/// Whether a "video" stream is really a cover picture (MJPEG or PNG).
pub fn is_cover_attachment(kind: TrackKind, codec: &str) -> (b: bool)
    ensures
        b == spec_is_cover_attachment(kind, codec@),
{
    kind == TrackKind::Video && (str_eq(codec, "mjpeg") || str_eq(codec, "png"))
}

/// Whether a Dolby Vision base layer is compatible with HDR10 (compatibility
/// ids 1 and 2).
pub fn dolby_vision_compatibility_implies_hdr10_base(id: Option<u8>) -> (b: bool)
    ensures
        b == (id == Some(1u8) || id == Some(2u8)),
{
    match id {
        Some(1) | Some(2) => true,
        _ => false,
    }
}

/// Position of the first side-data entry that gives a Dolby Vision profile.
pub open spec fn first_dv_entry(list: Seq<RawSideData>) -> Option<int> {
    if exists|i: int| 0 <= i < list.len() && (#[trigger] list[i]).dv_profile is Some {
        Some(choose|i: int| 0 <= i < list.len() && (#[trigger] list[i]).dv_profile is Some && forall|j: int|
            0 <= j < i ==> (#[trigger] list[j]).dv_profile is None)
    } else {
        None
    }
}

/// Whether the stream's transfer function is PQ (`smpte2084`), i.e. HDR10.
pub open spec fn is_pq(s: RawStream) -> bool {
    opt_view(s.color_transfer) == Some("smpte2084"@)
}

/// The colour format a stream declares: Dolby Vision if a side-data entry
/// gives a profile (with an HDR10 base if the compatibility id says so or
/// the transfer is PQ), else HDR10 for a PQ transfer, else nothing.
pub open spec fn spec_color_of(s: RawStream) -> Option<ColorInfo> {
    match first_dv_entry(s.side_data_list@) {
        Some(i) => {
            let d = s.side_data_list@[i];
            Some(ColorInfo::DolbyVision {
                profile: match d.dv_profile {
                    Some(p) => p,
                    None => 8,
                },
                has_hdr10_base: d.dv_bl_signal_compatibility_id == Some(1u8)
                    || d.dv_bl_signal_compatibility_id == Some(2u8) || is_pq(s),
            })
        },
        None => if is_pq(s) {
            Some(ColorInfo::Hdr10)
        } else {
            None
        },
    }
}

/// The colour format a stream declares (see [`spec_color_of`]).
pub fn color_of(stream: &RawStream) -> (r: Option<ColorInfo>)
    ensures
        r == spec_color_of(*stream),
{
    proof {
        reveal_strlit("smpte2084");
    }
    let hdr10 = match &stream.color_transfer {
        Some(t) => str_eq(t.as_str(), "smpte2084"),
        None => false,
    };
    assert(hdr10 == is_pq(*stream));
    let list = &stream.side_data_list;
    let mut i: usize = 0;
    while i < list.len()
        invariant
            list@ == stream.side_data_list@,
            hdr10 == is_pq(*stream),
            i <= list@.len(),
            forall|j: int| 0 <= j < i ==> (#[trigger] list@[j]).dv_profile is None,
        decreases list@.len() - i,
    {
        if list[i].dv_profile.is_some() {
            let d = list[i];
            proof {
                let w = choose|w: int| 0 <= w < list@.len() && (#[trigger] list@[w]).dv_profile is Some && forall|j: int|
                    0 <= j < w ==> (#[trigger] list@[j]).dv_profile is None;
                assert(list@[i as int].dv_profile is Some);
                if w < i {
                    assert(list@[w].dv_profile is None);
                }
                if w > i {
                    assert(list@[i as int].dv_profile is None);
                }
                assert(w == i);
                assert(first_dv_entry(stream.side_data_list@) == Some(i as int));
                assert(d == stream.side_data_list@[i as int]);
            }
            return Some(
                ColorInfo::DolbyVision {
                    profile: match d.dv_profile {
                        Some(p) => p,
                        None => 8,
                    },
                    has_hdr10_base: dolby_vision_compatibility_implies_hdr10_base(
                        d.dv_bl_signal_compatibility_id,
                    ) || hdr10,
                },
            );
        }
        i = i + 1;
    }
    if hdr10 {
        Some(ColorInfo::Hdr10)
    } else {
        None
    }
}

/// An optional decimal string read as `u64`.
pub open spec fn opt_u64(o: Option<String>) -> Option<u64> {
    match o {
        Some(s) => spec_parse_u64(s@),
        None => None,
    }
}

fn parse_opt_u64(o: &Option<String>) -> (r: Option<u64>)
    ensures
        r == opt_u64(*o),
{
    match o {
        Some(s) => parse_u64(s.as_str()),
        None => None,
    }
}

/// The bitrate of a stream: the `BPS` tag if it reads as a number, else the
/// declared `bit_rate`, both exact; else a guess from the codec.
pub open spec fn spec_bps_of(s: RawStream, codec: Seq<char>) -> Estimated<u64> {
    match opt_u64(s.tags.bps) {
        Some(v) => Estimated { value: v, confidence: Confidence::Exact },
        None => match opt_u64(s.bit_rate) {
            Some(v) => Estimated { value: v, confidence: Confidence::Exact },
            None => Estimated {
                value: spec_guess_bps(codec, s.channels, s.height),
                confidence: Confidence::Guessed,
            },
        },
    }
}

/// The bitrate of a stream (see [`spec_bps_of`]).
pub fn bps_of(stream: &RawStream, codec: &str) -> (e: Estimated<u64>)
    ensures
        e == spec_bps_of(*stream, codec@),
{
    match parse_opt_u64(&stream.tags.bps) {
        Some(v) => Estimated::exact(v),
        None => match parse_opt_u64(&stream.bit_rate) {
            Some(v) => Estimated::exact(v),
            None => Estimated::guessed(guess_bps(codec, stream.channels, stream.height)),
        },
    }
}

/// The codec name of a stream, empty when ffprobe gives none.
pub open spec fn codec_of(s: RawStream) -> Seq<char> {
    match s.codec_name {
        Some(c) => c@,
        None => Seq::empty(),
    }
}

/// Streams that do not become tracks: attachments and cover pictures.
pub open spec fn is_skipped(s: RawStream) -> bool {
    let kind = spec_kind_of(s.codec_type@);
    kind == TrackKind::Attachment || spec_is_cover_attachment(kind, codec_of(s))
}

/// The streams among the first `n` that become tracks, in order.
pub open spec fn kept_streams(s: Seq<RawStream>, n: int) -> Seq<RawStream>
    decreases n,
{
    if n <= 0 || n > s.len() {
        Seq::empty()
    } else if is_skipped(s[n - 1]) {
        kept_streams(s, n - 1)
    } else {
        kept_streams(s, n - 1).push(s[n - 1])
    }
}

/// The track made of a stream.
pub open spec fn track_from(t: Track, s: RawStream) -> bool {
    &&& t.index == s.index
    &&& t.kind == spec_kind_of(s.codec_type@)
    &&& t.codec@ == codec_of(s)
    &&& t.language == s.tags.language
    &&& t.title == s.tags.title
    &&& t.channels == s.channels
    &&& t.width == s.width
    &&& t.height == s.height
    &&& t.bps == spec_bps_of(s, codec_of(s))
}

/// The frame rate after the first `n` streams: the last readable rate of a
/// video track, unknown if there is none.
pub open spec fn fps_upto(s: Seq<RawStream>, n: int) -> FrameRate
    decreases n,
{
    if n <= 0 || n > s.len() {
        FrameRate { num: 0, den: 1 }
    } else {
        let st = s[n - 1];
        let prev = fps_upto(s, n - 1);
        if !is_skipped(st) && spec_kind_of(st.codec_type@) == TrackKind::Video {
            match st.r_frame_rate {
                Some(r) => match spec_parse_rational(r@) {
                    Some(f) => f,
                    None => prev,
                },
                None => prev,
            }
        } else {
            prev
        }
    }
}

/// The colour format after the first `n` streams: the last one a video
/// track declares, SDR if none does.
pub open spec fn color_upto(s: Seq<RawStream>, n: int) -> ColorInfo
    decreases n,
{
    if n <= 0 || n > s.len() {
        ColorInfo::Sdr
    } else {
        let st = s[n - 1];
        let prev = color_upto(s, n - 1);
        if !is_skipped(st) && spec_kind_of(st.codec_type@) == TrackKind::Video {
            match spec_color_of(st) {
                Some(c) => c,
                None => prev,
            }
        } else {
            prev
        }
    }
}

/// The length of the film: ffprobe's `format.duration` read in milliseconds,
/// zero when missing or unreadable.
pub open spec fn spec_duration(raw: Raw) -> Seconds {
    match raw.format.duration {
        Some(d) => match spec_parse_thousandths(d@) {
            Some(ms) => Seconds { ms },
            None => Seconds { ms: 0 },
        },
        None => Seconds { ms: 0 },
    }
}

fn clone_opt(o: &Option<String>) -> (r: Option<String>)
    ensures
        r == *o,
{
    match o {
        Some(s) => Some(s.clone()),
        None => None,
    }
}

fn duration_of(raw: &Raw) -> (d: Seconds)
    ensures
        d == spec_duration(*raw),
{
    match &raw.format.duration {
        Some(d) => match parse_thousandths(d.as_str()) {
            Some(ms) => Seconds { ms },
            None => Seconds { ms: 0 },
        },
        None => Seconds { ms: 0 },
    }
}

fn codec_string(s: &RawStream) -> (c: String)
    ensures
        c@ == codec_of(*s),
{
    match &s.codec_name {
        Some(c) => c.clone(),
        None => String::new(),
    }
}

/// What ffprobe's answer means: the tracks (attachments and cover pictures
/// left out), the length, the frame rate and colour format of the video, the
/// given path and file size. A file without streams is an error.
pub fn media_from_raw(raw: &Raw, path: String, file_bytes: u64) -> (r: Result<MediaInfo, ProbeError>)
    ensures
        raw.streams@.len() == 0 <==> r == Err::<MediaInfo, ProbeError>(ProbeError::Empty),
        r is Err ==> r == Err::<MediaInfo, ProbeError>(ProbeError::Empty),
        r matches Ok(m) ==> {
            let kept = kept_streams(raw.streams@, raw.streams@.len() as int);
            &&& m.path == path
            &&& m.file_bytes == file_bytes
            &&& m.duration_s == spec_duration(*raw)
            &&& m.fps == fps_upto(raw.streams@, raw.streams@.len() as int)
            &&& m.color == color_upto(raw.streams@, raw.streams@.len() as int)
            &&& m.tracks@.len() == kept.len()
            &&& forall|i: int| 0 <= i < kept.len() ==> track_from(#[trigger] m.tracks@[i], kept[i])
        },
{
    if raw.streams.len() == 0 {
        return Err(ProbeError::Empty);
    }
    let duration_s = duration_of(raw);
    let mut fps = FrameRate::unknown();
    let mut color = ColorInfo::Sdr;
    let mut tracks: Vec<Track> = Vec::new();
    let mut i: usize = 0;
    while i < raw.streams.len()
        invariant
            i <= raw.streams@.len(),
            fps == fps_upto(raw.streams@, i as int),
            color == color_upto(raw.streams@, i as int),
            tracks@.len() == kept_streams(raw.streams@, i as int).len(),
            forall|j: int|
                0 <= j < tracks@.len() ==> track_from(#[trigger] tracks@[j], kept_streams(raw.streams@, i as int)[j]),
        decreases raw.streams@.len() - i,
    {
        let s = &raw.streams[i];
        let ghost before = kept_streams(raw.streams@, i as int);
        let kind = kind_of(s.codec_type.as_str());
        let codec = codec_string(s);
        if kind == TrackKind::Attachment || is_cover_attachment(kind, codec.as_str()) {
            i = i + 1;
            continue;
        }
        if kind == TrackKind::Video {
            if let Some(r) = &s.r_frame_rate {
                if let Some(f) = parse_rational(r.as_str()) {
                    fps = f;
                }
            }
            if let Some(c) = color_of(s) {
                color = c;
            }
        }
        let bps = bps_of(s, codec.as_str());
        let t = Track {
            index: s.index,
            kind,
            codec,
            language: clone_opt(&s.tags.language),
            title: clone_opt(&s.tags.title),
            channels: s.channels,
            width: s.width,
            height: s.height,
            bps,
        };
        tracks.push(t);
        proof {
            let after = kept_streams(raw.streams@, i + 1);
            assert(after == before.push(raw.streams@[i as int]));
            assert forall|j: int| 0 <= j < tracks@.len() implies track_from(
                #[trigger] tracks@[j],
                kept_streams(raw.streams@, i + 1)[j],
            ) by {
                if j < tracks@.len() - 1 {
                    assert(after[j] == before[j]);
                }
            }
        }
        i = i + 1;
    }
    Ok(MediaInfo { path, duration_s, tracks, color, file_bytes, fps })
}

/// The probe that runs `ffprobe` on a file.
pub struct FfprobeProbe;

impl FfprobeProbe {
    pub fn new() -> (p: Self) {
        FfprobeProbe
    }
}

impl Default for FfprobeProbe {
    fn default() -> (p: Self) {
        FfprobeProbe::new()
    }
}

} // verus!

verus! {

/// How a stream's colour format is read. When the `i`-th side-data entry is
/// the first to give a Dolby Vision profile, the stream is Dolby Vision with
/// that profile, and its base layer is HDR10 exactly when the entry's
/// compatibility id is 1 or 2 or the transfer is PQ (`smpte2084`): a PQ
/// stream has an HDR10 base whatever its compatibility id. Without such an
/// entry a PQ stream is HDR10 and any other declares nothing.
pub proof fn law_colour_of_stream(s: RawStream, i: int)
    ensures
        ({
            let list = s.side_data_list@;
            let pq = s.color_transfer matches Some(t) && t@ == "smpte2084"@;
            &&& (0 <= i < list.len() && list[i].dv_profile is Some && (forall|j: int|
                0 <= j < i ==> (#[trigger] list[j]).dv_profile is None)) ==> spec_color_of(s)
                == Some(
                ColorInfo::DolbyVision {
                    profile: list[i].dv_profile->0,
                    has_hdr10_base: list[i].dv_bl_signal_compatibility_id == Some(1u8)
                        || list[i].dv_bl_signal_compatibility_id == Some(2u8) || pq,
                },
            )
            &&& (0 <= i < list.len() && list[i].dv_profile is Some && (forall|j: int|
                0 <= j < i ==> (#[trigger] list[j]).dv_profile is None) && pq) ==> spec_color_of(
                s,
            ) == Some(ColorInfo::DolbyVision { profile: list[i].dv_profile->0, has_hdr10_base: true })
            &&& (forall|j: int| 0 <= j < list.len() ==> (#[trigger] list[j]).dv_profile is None)
                ==> spec_color_of(s) == if pq {
                Some(ColorInfo::Hdr10)
            } else {
                None
            }
        }),
{
    let list = s.side_data_list@;
    if 0 <= i < list.len() && list[i].dv_profile is Some && (forall|j: int|
        0 <= j < i ==> (#[trigger] list[j]).dv_profile is None) {
        let w = choose|w: int|
            0 <= w < list.len() && (#[trigger] list[w]).dv_profile is Some && forall|j: int|
                0 <= j < w ==> (#[trigger] list[j]).dv_profile is None;
        if w < i {
            assert(list[w].dv_profile is None);
        }
        if w > i {
            assert(list[i].dv_profile is None);
        }
        assert(first_dv_entry(list) == Some(i));
    }
}

} // verus!
