//! Audio codec profiles.

use vstd::prelude::*;
use crate::estimated::{Confidence, Estimated};
use crate::media::Track;
use crate::note::{notes_view, Level, Note, NoteTarget};
use crate::plan::Opts;
use crate::text::{decimal, owned, str_eq, u64_to_string, views};

verus! {

pub const AUDIO_BITRATE_INFO: &'static str = "Битрейт аудио — сколько данных в секунду отводится звуку. \
     640 кбит/с для 5.1 на слух неотличимы от исходника почти всегда.";

pub const LOSSLESS_SOURCE_WARNING: &'static str =
    "Исходная дорожка без потерь — после перекодирования вернуть качество будет нельзя";

pub const FLAC_SIZE_WARNING: &'static str = "FLAC не теряет качество, но его размер заранее неизвестен — \
     оценка показана диапазоном, а не точкой";

pub const FLAC_ID: &'static str = "flac";

pub const FLAC_LABEL: &'static str = "FLAC (без потерь)";

/// Channel count of a source track; unknown counts are taken as stereo.
pub open spec fn source_channels(src: Track) -> nat {
    match src.channels {
        Some(c) => c as nat,
        None => 2,
    }
}

/// Codec names of sources that are stored without loss.
pub open spec fn is_lossless_codec(codec: Seq<char>) -> bool {
    codec == "truehd"@ || codec == "dts"@ || codec == "flac"@ || codec == "pcm_s24le"@
}

fn lossless_codec(codec: &str) -> (b: bool)
    ensures
        b == is_lossless_codec(codec@),
{
    str_eq(codec, "truehd") || str_eq(codec, "dts") || str_eq(codec, "flac") || str_eq(
        codec,
        "pcm_s24le",
    )
}

/// A codec with a constant bitrate: its size is predictable exactly.
#[derive(Debug, Clone, Copy, PartialEq, Eq)]
pub struct CbrAudio {
    pub id: &'static str,
    pub label: &'static str,
    pub ffmpeg_name: &'static str,
    pub default_bps: u64,
    pub max_channels: u32,
}

/// Option flag addressing output stream `out_idx` of its type, such as `-c:a:1`.
pub open spec fn stream_flag(prefix: Seq<char>, out_idx: nat) -> Seq<char> {
    prefix + decimal(out_idx)
}

/// A bitrate in whole kilobits with the `k` suffix ffmpeg expects.
pub open spec fn kbit_arg(bps: nat) -> Seq<char> {
    decimal(bps / 1000) + seq!['k']
}

pub(crate) fn flag_with_index(prefix: &str, out_idx: usize) -> (s: String)
    ensures
        s@ == stream_flag(prefix@, out_idx as nat),
{
    let mut s = owned(prefix);
    s.append(u64_to_string(out_idx as u64).as_str());
    s
}

pub(crate) fn kbit_string(bps: u64) -> (s: String)
    ensures
        s@ == kbit_arg(bps as nat),
{
    let mut s = u64_to_string(bps / 1000);
    s.append("k");
    proof {
        reveal_strlit("k");
    }
    s
}

impl CbrAudio {
    /// A channel limit of at least one keeps "n.1" wording meaningful.
    pub open spec fn wf(self) -> bool {
        self.max_channels >= 1
    }

    pub open spec fn spec_default_opts(self, src: Track) -> Opts {
        let ch = source_channels(src);
        Opts {
            bitrate_bps: Some(self.default_bps),
            channels: Some(if ch <= self.max_channels { ch as u32 } else { self.max_channels }),
            height: None,
        }
    }

    pub open spec fn spec_bitrate(self, opts: Opts) -> u64 {
        match opts.bitrate_bps {
            Some(b) => b,
            None => self.default_bps,
        }
    }

    pub open spec fn spec_estimate_bps(self, opts: Opts) -> Estimated<u64> {
        Estimated { value: self.spec_bitrate(opts), confidence: Confidence::Exact }
    }

    pub open spec fn spec_args(self, src: Track, opts: Opts, out_idx: nat) -> Seq<Seq<char>> {
        seq![
            stream_flag("-c:a:"@, out_idx),
            self.ffmpeg_name@,
            stream_flag("-b:a:"@, out_idx),
            kbit_arg(self.spec_bitrate(opts) as nat),
        ] + if source_channels(src) > self.max_channels {
            seq![stream_flag("-ac:a:"@, out_idx), decimal(self.max_channels as nat)]
        } else {
            Seq::empty()
        }
    }

    /// Text of the warning about folding `src` channels into the profile's limit.
    pub open spec fn downmix_text(self, src_channels: nat) -> Seq<char> {
        self.label@ + " не умеет "@ + decimal((src_channels - 1) as nat) + ".1 — дорожка сложится в "@
            + decimal((self.max_channels - 1) as nat) + ".1"@
    }

    pub open spec fn spec_notes(self, src: Track) -> Seq<(Level, NoteTarget, Seq<char>)> {
        let t = NoteTarget::Track(src.index);
        seq![(Level::Info, t, AUDIO_BITRATE_INFO@)] + if source_channels(src) > self.max_channels {
            seq![(Level::Warning, t, self.downmix_text(source_channels(src)))]
        } else {
            Seq::empty()
        } + if is_lossless_codec(src.codec@) {
            seq![(Level::Warning, t, LOSSLESS_SOURCE_WARNING@)]
        } else {
            Seq::empty()
        }
    }

    /// Reasonable settings when this profile is chosen: the profile's
    /// bitrate and the source's channels, capped at the profile's limit.
    pub fn default_opts(&self, src: &Track) -> (o: Opts)
        ensures
            o == self.spec_default_opts(*src),
    {
        let ch = match src.channels {
            Some(c) => c,
            None => 2,
        };
        Opts {
            bitrate_bps: Some(self.default_bps),
            channels: Some(if ch <= self.max_channels { ch } else { self.max_channels }),
            height: None,
        }
    }

    /// The requested bitrate (or the profile's), exactly.
    pub fn estimate_bps(&self, opts: &Opts) -> (e: Estimated<u64>)
        ensures
            e == self.spec_estimate_bps(*opts),
    {
        let b = match opts.bitrate_bps {
            Some(b) => b,
            None => self.default_bps,
        };
        Estimated::exact(b)
    }

    /// ffmpeg arguments for output audio stream `out_idx`.
    pub fn args(&self, src: &Track, opts: &Opts, out_idx: usize) -> (v: Vec<String>)
        ensures
            views(v@) == self.spec_args(*src, *opts, out_idx as nat),
    {
        let bps = match opts.bitrate_bps {
            Some(b) => b,
            None => self.default_bps,
        };
        let mut v: Vec<String> = Vec::new();
        v.push(flag_with_index("-c:a:", out_idx));
        v.push(owned(self.ffmpeg_name));
        v.push(flag_with_index("-b:a:", out_idx));
        v.push(kbit_string(bps));
        let src_ch = match src.channels {
            Some(c) => c,
            None => 2,
        };
        if src_ch > self.max_channels {
            v.push(flag_with_index("-ac:a:", out_idx));
            v.push(u64_to_string(self.max_channels as u64));
        }
        assert(views(v@) =~= self.spec_args(*src, *opts, out_idx as nat));
        v
    }

    /// Notes about the consequences of encoding `src` with this profile.
    pub fn notes(&self, src: &Track) -> (v: Vec<Note>)
        requires
            self.wf(),
        ensures
            notes_view(v@) == self.spec_notes(*src),
    {
        let t = NoteTarget::Track(src.index);
        let mut v: Vec<Note> = Vec::new();
        v.push(Note::info(t, owned(AUDIO_BITRATE_INFO)));
        let src_ch = match src.channels {
            Some(c) => c,
            None => 2,
        };
        if src_ch > self.max_channels {
            let mut text = owned(self.label);
            text.append(" не умеет ");
            text.append(u64_to_string((src_ch - 1) as u64).as_str());
            text.append(".1 — дорожка сложится в ");
            text.append(u64_to_string((self.max_channels - 1) as u64).as_str());
            text.append(".1");
            v.push(Note::warning(t, text));
        }
        if lossless_codec(src.codec.as_str()) {
            v.push(Note::warning(t, owned(LOSSLESS_SOURCE_WARNING)));
        }
        assert(notes_view(v@) =~= self.spec_notes(*src));
        v
    }
}

/// FLAC compresses without loss, but by how much is not known in advance.
pub struct FlacAudio;

impl FlacAudio {
    pub open spec fn spec_default_opts(src: Track) -> Opts {
        Opts { bitrate_bps: None, channels: src.channels, height: None }
    }

    /// 24-bit PCM at 48 kHz, taken as compressing to 60%.
    pub open spec fn spec_estimate_bps(src: Track) -> Estimated<u64> {
        Estimated {
            value: (source_channels(src) * 48_000 * 24 * 3 / 5) as u64,
            confidence: Confidence::Guessed,
        }
    }

    pub open spec fn spec_args(out_idx: nat) -> Seq<Seq<char>> {
        seq![stream_flag("-c:a:"@, out_idx), "flac"@]
    }

    pub open spec fn spec_notes(src: Track) -> Seq<(Level, NoteTarget, Seq<char>)> {
        seq![(Level::Warning, NoteTarget::Track(src.index), FLAC_SIZE_WARNING@)]
    }

    pub fn default_opts(src: &Track) -> (o: Opts)
        ensures
            o == Self::spec_default_opts(*src),
    {
        Opts { bitrate_bps: None, channels: src.channels, height: None }
    }

    pub fn estimate_bps(src: &Track) -> (e: Estimated<u64>)
        ensures
            e == Self::spec_estimate_bps(*src),
    {
        let ch: u64 = match src.channels {
            Some(c) => c as u64,
            None => 2,
        };
        let pcm = ch * 48_000 * 24;
        Estimated::guessed(pcm * 3 / 5)
    }

    pub fn args(out_idx: usize) -> (v: Vec<String>)
        ensures
            views(v@) == Self::spec_args(out_idx as nat),
    {
        let mut v: Vec<String> = Vec::new();
        v.push(flag_with_index("-c:a:", out_idx));
        v.push(owned("flac"));
        assert(views(v@) =~= Self::spec_args(out_idx as nat));
        v
    }

    pub fn notes(src: &Track) -> (v: Vec<Note>)
        ensures
            notes_view(v@) == Self::spec_notes(*src),
    {
        let mut v: Vec<Note> = Vec::new();
        v.push(Note::warning(NoteTarget::Track(src.index), owned(FLAC_SIZE_WARNING)));
        assert(notes_view(v@) =~= Self::spec_notes(*src));
        v
    }
}

} // verus!

verus! {

pub open spec fn ac3() -> crate::codec::CodecProfile {
    crate::codec::CodecProfile::CbrAudio(
        CbrAudio { id: "ac3", label: "AC3", ffmpeg_name: "ac3", default_bps: 640_000, max_channels: 6 },
    )
}

pub open spec fn eac3() -> crate::codec::CodecProfile {
    crate::codec::CodecProfile::CbrAudio(
        CbrAudio {
            id: "eac3",
            label: "E-AC3",
            ffmpeg_name: "eac3",
            default_bps: 768_000,
            max_channels: 8,
        },
    )
}

pub open spec fn opus() -> crate::codec::CodecProfile {
    crate::codec::CodecProfile::CbrAudio(
        CbrAudio {
            id: "opus",
            label: "Opus",
            ffmpeg_name: "libopus",
            default_bps: 256_000,
            max_channels: 8,
        },
    )
}

/// The built-in audio profiles, keyed by identifier.
pub open spec fn audio_profiles(m: Map<Seq<char>, crate::codec::CodecProfile>) -> Map<
    Seq<char>,
    crate::codec::CodecProfile,
> {
    m.insert(ac3().spec_id(), ac3()).insert(eac3().spec_id(), eac3()).insert(
        opus().spec_id(),
        opus(),
    ).insert(FLAC_ID@, crate::codec::CodecProfile::FlacAudio)
}

/// Registers AC3, E-AC3, Opus and FLAC.
pub fn register(reg: &mut crate::codec::CodecRegistry)
    requires
        old(reg).wf(),
    ensures
        final(reg).wf(),
        final(reg).as_map() == audio_profiles(old(reg).as_map()),
{
    reg.register(
        crate::codec::CodecProfile::CbrAudio(
            CbrAudio {
                id: "ac3",
                label: "AC3",
                ffmpeg_name: "ac3",
                default_bps: 640_000,
                max_channels: 6,
            },
        ),
    );
    reg.register(
        crate::codec::CodecProfile::CbrAudio(
            CbrAudio {
                id: "eac3",
                label: "E-AC3",
                ffmpeg_name: "eac3",
                default_bps: 768_000,
                max_channels: 8,
            },
        ),
    );
    reg.register(
        crate::codec::CodecProfile::CbrAudio(
            CbrAudio {
                id: "opus",
                label: "Opus",
                ffmpeg_name: "libopus",
                default_bps: 256_000,
                max_channels: 8,
            },
        ),
    );
    reg.register(crate::codec::CodecProfile::FlacAudio);
}

} // verus!
