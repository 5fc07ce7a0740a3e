//! Video codec profiles.

use vstd::prelude::*;
use crate::codecs::audio::{flag_with_index, kbit_arg, kbit_string, stream_flag};
use crate::estimated::{Confidence, Estimated};
use crate::media::Track;
use crate::note::{notes_view, Level, Note, NoteTarget};
use crate::plan::Opts;
use crate::text::{decimal, fixed1, fixed1_to_string, owned, u64_to_string, views};
use crate::units::Seconds;

verus! {

/// How many times slower than real time x265 encodes 2160p material, in tenths.
pub const X265_SLOWDOWN_2160P_TENTHS: u64 = 26;

pub const VIDEO_BITRATE_INFO: &'static str = "Битрейт видео — сколько данных в секунду отводится картинке. \
     Вдвое меньше битрейт ≈ вдвое меньше файл, но на движении появляются квадраты.";

#[derive(Debug, Clone, Copy, PartialEq, Eq)]
pub struct VideoCodec {
    pub id: &'static str,
    pub label: &'static str,
    pub ffmpeg_name: &'static str,
    pub preserves_dv: bool,
    /// How many times more efficient than HEVC at equal quality, in thousandths.
    pub efficiency_permille: u64,
}

/// The source's bitrate unless the options name one.
pub open spec fn requested_bitrate(src: Track, opts: Opts) -> u64 {
    match opts.bitrate_bps {
        Some(b) => b,
        None => src.bps.value,
    }
}

/// Whether the options ask for a height other than the source's.
pub open spec fn rescales(opts: Opts, src: Track) -> bool {
    opts.height is Some && opts.height != src.height
}

pub open spec fn spec_scale_filter(opts: Opts, src: Track) -> Option<Seq<char>> {
    if rescales(opts, src) {
        Some("scale=-2:"@ + decimal(opts.height->0 as nat))
    } else {
        None
    }
}

/// The ffmpeg scale filter for a change of height, if the options ask for one.
pub fn scale_filter(opts: &Opts, src: &Track) -> (f: Option<String>)
    ensures
        match f {
            Some(s) => spec_scale_filter(*opts, *src) == Some(s@),
            None => spec_scale_filter(*opts, *src) is None,
        },
{
    let target_h = match opts.height {
        Some(h) => h,
        None => return None,
    };
    let same = match src.height {
        Some(h) => h == target_h,
        None => false,
    };
    if same {
        return None;
    }
    let mut s = owned("scale=-2:");
    s.append(u64_to_string(target_h as u64).as_str());
    Some(s)
}

/// Estimated encoding time in tenths of an hour, rounded half up.
pub open spec fn encode_hours_tenths(duration: Seconds) -> nat {
    ((duration.ms * X265_SLOWDOWN_2160P_TENTHS + 1_800_000) / 3_600_000) as nat
}

impl VideoCodec {
    pub open spec fn spec_default_opts(self, src: Track) -> Opts {
        Opts {
            bitrate_bps: Some((src.bps.value * self.efficiency_permille / 2000) as u64),
            channels: None,
            height: src.height,
        }
    }

    pub open spec fn spec_estimate_bps(self, src: Track, opts: Opts) -> Estimated<u64> {
        Estimated { value: requested_bitrate(src, opts), confidence: Confidence::Sampled }
    }

    pub open spec fn spec_args(self, src: Track, opts: Opts, out_idx: nat) -> Seq<Seq<char>> {
        let kbit = requested_bitrate(src, opts) / 1000;
        seq![
            stream_flag("-c:v:"@, out_idx),
            self.ffmpeg_name@,
            stream_flag("-b:v:"@, out_idx),
            decimal(kbit as nat) + seq!['k'],
            stream_flag("-maxrate:v:"@, out_idx),
            decimal((kbit * 12 / 10) as nat) + seq!['k'],
            stream_flag("-bufsize:v:"@, out_idx),
            decimal((kbit * 2) as nat) + seq!['k'],
            "-pix_fmt"@,
            "yuv420p10le"@,
        ] + match spec_scale_filter(opts, src) {
            Some(f) => seq!["-vf"@, f],
            None => Seq::empty(),
        }
    }

    pub open spec fn spec_notes(self, src: Track, opts: Opts, duration: Seconds) -> Seq<
        (Level, NoteTarget, Seq<char>),
    > {
        let t = NoteTarget::Track(src.index);
        seq![(Level::Info, t, VIDEO_BITRATE_INFO@)] + if self.preserves_dv {
            seq![
                (
                    Level::Warning,
                    t,
                    "x265 сохранит Dolby Vision, но кодирование займёт примерно "@ + fixed1(
                        encode_hours_tenths(duration),
                    ) + " ч вместо минут на видеокарте"@,
                ),
            ]
        } else {
            Seq::empty()
        } + if rescales(opts, src) {
            seq![
                (
                    Level::Warning,
                    t,
                    "Разрешение снизится с "@ + decimal(
                        match src.height {
                            Some(h) => h as nat,
                            None => 0,
                        },
                    ) + "p до "@ + decimal(opts.height->0 as nat)
                        + "p — самый сильный рычаг по размеру, но на большом экране мелкие детали пропадут"@,
                ),
            ]
        } else {
            Seq::empty()
        }
    }

    /// Half the source bitrate, scaled by the codec's efficiency: a safe
    /// starting point; the source's height is kept.
    pub fn default_opts(&self, src: &Track) -> (o: Opts)
        requires
            self.efficiency_permille <= 2000,
        ensures
            o == self.spec_default_opts(*src),
    {
        let v = src.bps.value as u128;
        let e = self.efficiency_permille as u128;
        assert(v * e <= 0xffff_ffff_ffff_ffffu128 * 2000) by (nonlinear_arith)
            requires
                v <= 0xffff_ffff_ffff_ffffu128,
                e <= 2000,
        ;
        let base = v * e / 2000;
        assert(base <= 0xffff_ffff_ffff_ffffu128) by (nonlinear_arith)
            requires
                base == v * e / 2000,
                v <= 0xffff_ffff_ffff_ffffu128,
                e <= 2000,
        ;
        Opts { bitrate_bps: Some(base as u64), channels: None, height: src.height }
    }

    /// The rate control keeps the average within a few percent of the request.
    pub fn estimate_bps(&self, src: &Track, opts: &Opts) -> (e: Estimated<u64>)
        ensures
            e == self.spec_estimate_bps(*src, *opts),
    {
        let b = match opts.bitrate_bps {
            Some(b) => b,
            None => src.bps.value,
        };
        Estimated::sampled(b)
    }

    /// ffmpeg arguments for output video stream `out_idx`: the bitrate pinned
    /// with a VBV limiter, 10-bit output and a scale filter if asked for.
    pub fn args(&self, src: &Track, opts: &Opts, out_idx: usize) -> (v: Vec<String>)
        ensures
            views(v@) == self.spec_args(*src, *opts, out_idx as nat),
    {
        let bps = match opts.bitrate_bps {
            Some(b) => b,
            None => src.bps.value,
        };
        let kbit = bps / 1000;
        proof {
            reveal_strlit("k");
        }
        let mut v: Vec<String> = Vec::new();
        v.push(flag_with_index("-c:v:", out_idx));
        v.push(owned(self.ffmpeg_name));
        v.push(flag_with_index("-b:v:", out_idx));
        v.push(kbit_string(bps));
        v.push(flag_with_index("-maxrate:v:", out_idx));
        let mut maxrate = u64_to_string(kbit * 12 / 10);
        maxrate.append("k");
        v.push(maxrate);
        v.push(flag_with_index("-bufsize:v:", out_idx));
        let mut bufsize = u64_to_string(kbit * 2);
        bufsize.append("k");
        v.push(bufsize);
        v.push(owned("-pix_fmt"));
        v.push(owned("yuv420p10le"));
        if let Some(vf) = scale_filter(opts, src) {
            v.push(owned("-vf"));
            v.push(vf);
        }
        assert(kbit_arg(bps as nat) == decimal(kbit as nat) + seq!['k']);
        let ghost sp = self.spec_args(*src, *opts, out_idx as nat);
        assert(views(v@).len() == sp.len());
        assert(views(v@)[3] == sp[3]);
        assert(views(v@)[5] == sp[5]);
        assert(views(v@)[7] == sp[7]);
        assert(views(v@) =~= self.spec_args(*src, *opts, out_idx as nat));
        v
    }

    /// Notes about bitrate, encode time and loss of resolution.
    pub fn notes(&self, src: &Track, opts: &Opts, duration: Seconds) -> (v: Vec<Note>)
        ensures
            notes_view(v@) == self.spec_notes(*src, *opts, duration),
    {
        let t = NoteTarget::Track(src.index);
        let mut v: Vec<Note> = Vec::new();
        v.push(Note::info(t, owned(VIDEO_BITRATE_INFO)));
        if self.preserves_dv {
            let tenths = ((duration.ms as u128) * (X265_SLOWDOWN_2160P_TENTHS as u128) + 1_800_000)
                / 3_600_000;
            let mut text = owned("x265 сохранит Dolby Vision, но кодирование займёт примерно ");
            text.append(fixed1_to_string(tenths as u64).as_str());
            text.append(" ч вместо минут на видеокарте");
            v.push(Note::warning(t, text));
        }
        if let Some(h) = opts.height {
            let same = match src.height {
                Some(sh) => sh == h,
                None => false,
            };
            if !same {
                let src_h = match src.height {
                    Some(sh) => sh,
                    None => 0,
                };
                let mut text = owned("Разрешение снизится с ");
                text.append(u64_to_string(src_h as u64).as_str());
                text.append("p до ");
                text.append(u64_to_string(h as u64).as_str());
                text.append(
                    "p — самый сильный рычаг по размеру, но на большом экране мелкие детали пропадут",
                );
                v.push(Note::warning(t, text));
            }
        }
        assert(notes_view(v@) =~= self.spec_notes(*src, *opts, duration));
        v
    }
}

} // verus!

verus! {

pub open spec fn hevc_nvenc() -> crate::codec::CodecProfile {
    crate::codec::CodecProfile::Video(
        VideoCodec {
            id: "hevc_nvenc",
            label: "HEVC на видеокарте (быстро)",
            ffmpeg_name: "hevc_nvenc",
            preserves_dv: false,
            efficiency_permille: 1000,
        },
    )
}

pub open spec fn hevc_x265_dv() -> crate::codec::CodecProfile {
    crate::codec::CodecProfile::Video(
        VideoCodec {
            id: "hevc_x265_dv",
            label: "HEVC на процессоре с сохранением Dolby Vision (медленно)",
            ffmpeg_name: "libx265",
            preserves_dv: true,
            efficiency_permille: 1000,
        },
    )
}

pub open spec fn av1_nvenc() -> crate::codec::CodecProfile {
    crate::codec::CodecProfile::Video(
        VideoCodec {
            id: "av1_nvenc",
            label: "AV1 на видеокарте (компактнее, читают не все плееры)",
            ffmpeg_name: "av1_nvenc",
            preserves_dv: false,
            efficiency_permille: 700,
        },
    )
}

/// The built-in video profiles, keyed by identifier.
pub open spec fn video_profiles(m: Map<Seq<char>, crate::codec::CodecProfile>) -> Map<
    Seq<char>,
    crate::codec::CodecProfile,
> {
    m.insert(hevc_nvenc().spec_id(), hevc_nvenc()).insert(
        hevc_x265_dv().spec_id(),
        hevc_x265_dv(),
    ).insert(av1_nvenc().spec_id(), av1_nvenc())
}

/// Registers HEVC on the graphics card, HEVC with Dolby Vision on the
/// processor and AV1 on the graphics card.
pub fn register(reg: &mut crate::codec::CodecRegistry)
    requires
        old(reg).wf(),
    ensures
        final(reg).wf(),
        final(reg).as_map() == video_profiles(old(reg).as_map()),
{
    reg.register(
        crate::codec::CodecProfile::Video(
            VideoCodec {
                id: "hevc_nvenc",
                label: "HEVC на видеокарте (быстро)",
                ffmpeg_name: "hevc_nvenc",
                preserves_dv: false,
                efficiency_permille: 1000,
            },
        ),
    );
    reg.register(
        crate::codec::CodecProfile::Video(
            VideoCodec {
                id: "hevc_x265_dv",
                label: "HEVC на процессоре с сохранением Dolby Vision (медленно)",
                ffmpeg_name: "libx265",
                preserves_dv: true,
                efficiency_permille: 1000,
            },
        ),
    );
    reg.register(
        crate::codec::CodecProfile::Video(
            VideoCodec {
                id: "av1_nvenc",
                label: "AV1 на видеокарте (компактнее, читают не все плееры)",
                ffmpeg_name: "av1_nvenc",
                preserves_dv: false,
                efficiency_permille: 700,
            },
        ),
    );
}

} // verus!
