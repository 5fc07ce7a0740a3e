use pandafit::codec::{CodecRegistry, EncodeCtx};
use pandafit::estimated::{Confidence, Estimated};
use pandafit::media::{ColorInfo, MediaInfo, Track, TrackKind};
use pandafit::note::{Level, Note, NoteTarget};
use pandafit::plan::{Opts, Plan, Target, TargetSource, TimeRange, TrackAction, PRESETS};
use pandafit::profile::{BitrateProfile, Sample};
use pandafit::units::{FrameRate, Seconds};

fn s(ms: u64) -> Seconds {
    Seconds::from_ms(ms)
}

// --- estimated ---

#[test]
fn upper_bound_grows_with_uncertainty() {
    assert_eq!(Estimated::exact(1000).upper(), 1000);
    assert_eq!(Estimated::sampled(1000).upper(), 1050);
    assert_eq!(Estimated::guessed(1000).upper(), 1200);
}

#[test]
fn sum_takes_worst_confidence() {
    let s = Estimated::sum(&[Estimated::exact(10), Estimated::guessed(5)]);
    assert_eq!(s.value, 15);
    assert_eq!(s.confidence, Confidence::Guessed);
}

#[test]
fn margins_are_given_in_thousandths() {
    assert_eq!(Confidence::Exact.margin(), 0);
    assert_eq!(Confidence::Sampled.margin(), 50);
    assert_eq!(Confidence::Guessed.margin(), 200);
}

#[test]
fn upper_bound_rounds_half_up() {
    // 5% of 10 is 0.5, rounded up to 1; 5% of 9 is 0.45, rounded down.
    assert_eq!(Estimated::sampled(10).upper(), 11);
    assert_eq!(Estimated::sampled(9).upper(), 9);
}

#[test]
fn worst_of_two_confidences_is_the_less_trustworthy() {
    assert_eq!(Confidence::Exact.worst(Confidence::Sampled), Confidence::Sampled);
    assert_eq!(Confidence::Guessed.worst(Confidence::Sampled), Confidence::Guessed);
    assert_eq!(Confidence::Exact.worst(Confidence::Exact), Confidence::Exact);
}

#[test]
fn sum_of_nothing_is_an_exact_zero() {
    let s = Estimated::sum(&[]);
    assert_eq!(s.value, 0);
    assert_eq!(s.confidence, Confidence::Exact);
}

// --- media ---

fn ac3_track() -> Track {
    Track {
        index: 1,
        kind: TrackKind::Audio,
        codec: "ac3".to_string(),
        language: Some("rus".to_string()),
        title: Some("Dub, Blu-Ray".to_string()),
        channels: Some(6),
        width: None,
        height: None,
        bps: Estimated::exact(640_000),
    }
}

#[test]
fn bytes_for_converts_bits_per_second_to_bytes() {
    let b = ac3_track().bytes_for(s(6_890_176));
    assert_eq!(b.value, 551_214_080);
    assert_eq!(b.confidence, Confidence::Exact);
}

#[test]
fn dolby_vision_profile_five_has_no_hdr10_base() {
    let c = ColorInfo::DolbyVision { profile: 5, has_hdr10_base: false };
    assert!(!c.survives_reencode_without_rpu());
    let c = ColorInfo::DolbyVision { profile: 8, has_hdr10_base: true };
    assert!(c.survives_reencode_without_rpu());
}

#[test]
fn sdr_and_hdr10_survive_reencoding() {
    assert!(ColorInfo::Sdr.survives_reencode_without_rpu());
    assert!(ColorInfo::Hdr10.survives_reencode_without_rpu());
    assert!(!ColorInfo::Hdr10.is_dolby_vision());
    assert!(ColorInfo::DolbyVision { profile: 8, has_hdr10_base: true }.is_dolby_vision());
}

#[test]
fn track_label_names_codec_channels_language_and_title() {
    assert_eq!(ac3_track().label(), "AC3 6ch rus «Dub, Blu-Ray»");
    let video = Track {
        index: 0,
        kind: TrackKind::Video,
        codec: "hevc".to_string(),
        language: None,
        title: None,
        channels: None,
        width: Some(3840),
        height: Some(2160),
        bps: Estimated::exact(1),
    };
    assert_eq!(video.label(), "HEVC 2160p");
}

#[test]
fn tracks_are_found_by_stream_index() {
    let m = small_media();
    assert_eq!(m.track(0).map(|t| t.codec.as_str()), Some("hevc"));
    assert!(m.track(7).is_none());
    assert_eq!(m.video().map(|t| t.index), Some(0));
}

// --- note ---

#[test]
fn note_constructors_set_the_level() {
    assert_eq!(Note::info(NoteTarget::Whole, "a".to_string()).level, Level::Info);
    assert_eq!(Note::warning(NoteTarget::Trim, "b".to_string()).level, Level::Warning);
    let n = Note::blocker(NoteTarget::Track(3), "c".to_string());
    assert_eq!(n.level, Level::Blocker);
    assert_eq!(n.target, NoteTarget::Track(3));
    assert_eq!(n.text, "c");
}

// --- plan ---

fn small_media() -> MediaInfo {
    MediaInfo {
        path: "/tmp/x.mkv".to_string(),
        duration_s: s(100_000),
        tracks: vec![Track {
            index: 0,
            kind: TrackKind::Video,
            codec: "hevc".to_string(),
            language: None,
            title: None,
            channels: None,
            width: Some(3840),
            height: Some(2160),
            bps: Estimated::exact(50_000_000),
        }],
        color: ColorInfo::Hdr10,
        file_bytes: 625_000_000,
        fps: FrameRate { num: 25, den: 1 },
    }
}

#[test]
fn default_plan_copies_everything_full_length() {
    let p = Plan::from_media(&small_media(), Target::preset("BD-R DL".to_string(), 50_050_629_632));
    assert_eq!(p.action(0), &TrackAction::Copy);
    assert_eq!(p.range.start_s, s(0));
    assert_eq!(p.range.end_s, s(100_000));
}

#[test]
fn usable_capacity_subtracts_udf_and_safety_margin() {
    let t = Target::preset("BD-R DL".to_string(), 50_050_629_632);
    let expected = 50_050_629_632 - 8 * 1024 * 1024 - 50_050_629_632 / 50;
    assert_eq!(t.usable_bytes(), expected);
}

#[test]
fn time_range_reports_its_own_duration() {
    let r = TimeRange { start_s: s(10_000), end_s: s(70_000) };
    assert_eq!(r.duration_s(), s(60_000));
}

#[test]
fn inverted_time_range_is_empty() {
    let r = TimeRange { start_s: s(70_000), end_s: s(10_000) };
    assert_eq!(r.duration_s(), s(0));
    assert!(!r.is_full(s(100_000)));
    assert!(TimeRange::full(s(100_000)).is_full(s(100_000)));
}

#[test]
fn tiny_capacity_leaves_nothing_usable() {
    assert_eq!(Target::preset("x".to_string(), 1000).usable_bytes(), 0);
    let t = Target::drive("/dev/sr0".to_string(), 25_025_314_816);
    assert_eq!(t.source, TargetSource::Drive("/dev/sr0".to_string()));
}

#[test]
fn set_action_then_action_reads_it_back() {
    let mut p = Plan::from_media(&small_media(), Target::preset("x".to_string(), 1));
    p.set_action(5, TrackAction::Drop);
    p.set_action(0, TrackAction::Transcode { codec_id: "hevc_nvenc".to_string(), opts: Opts::default() });
    assert_eq!(p.action(5), &TrackAction::Drop);
    assert!(matches!(p.action(0), TrackAction::Transcode { .. }));
    assert_eq!(p.action(42), &TrackAction::Drop);
    assert_eq!(p.kept_indices(), vec![0]);
}

#[test]
fn presets_list_the_nominal_disc_sizes() {
    assert_eq!(PRESETS.len(), 5);
    assert_eq!(PRESETS[1], ("BD-R DL 50 ГБ", 50_050_629_632));
}

// --- profile ---

fn film_with_credits() -> BitrateProfile {
    BitrateProfile::from_samples(
        0,
        vec![
            Sample { t_s: s(0), bps: 10_000_000 },
            Sample { t_s: s(100_000), bps: 10_000_000 },
            Sample { t_s: s(100_001), bps: 1_000_000 },
            Sample { t_s: s(200_000), bps: 1_000_000 },
        ],
    )
}

#[test]
fn integrates_bytes_over_a_range() {
    let p = film_with_credits();
    assert_eq!(p.bytes_between(s(0), s(100_000)), 125_000_000);
}

#[test]
fn cutting_credits_saves_much_less_than_proportional_guess() {
    let p = film_with_credits();
    let full = p.bytes_between(s(0), s(200_000));
    let trimmed = p.bytes_between(s(0), s(100_000));
    let saved = full - trimmed;
    assert!(saved * 5 < full, "экономия {saved} из {full} должна быть много меньше половины");
}

#[test]
fn range_outside_samples_is_clamped() {
    let p = film_with_credits();
    assert_eq!(p.bytes_between(s(0), s(0)), 0);
    assert_eq!(p.bytes_between(s(500_000), s(600_000)), 0);
}

#[test]
fn samples_are_put_in_order_of_time() {
    let p = BitrateProfile::from_samples(
        3,
        vec![Sample { t_s: s(2000), bps: 1 }, Sample { t_s: s(1000), bps: 2 }],
    );
    assert_eq!(p.track_index, 3);
    assert_eq!(p.samples()[0].t_s, s(1000));
    assert_eq!(p.samples()[1].t_s, s(2000));
    assert!(!p.is_empty());
    assert!(BitrateProfile::from_samples(0, vec![Sample { t_s: s(0), bps: 1 }]).is_empty());
}

// --- codecs ---

fn dts_71() -> Track {
    Track {
        index: 2,
        kind: TrackKind::Audio,
        codec: "dts".to_string(),
        language: Some("rus".to_string()),
        title: Some("А. Гаврилов".to_string()),
        channels: Some(8),
        width: None,
        height: None,
        bps: Estimated::exact(5_008_134),
    }
}

#[test]
fn ac3_uses_requested_bitrate_exactly() {
    let reg = CodecRegistry::with_builtins();
    let src = dts_71();
    let opts = Opts { bitrate_bps: Some(640_000), ..Default::default() };
    let ctx = EncodeCtx { src: &src, opts: &opts, duration_s: s(100_000) };
    let bps = reg.get("ac3").unwrap().estimate_bps(&ctx);
    assert_eq!(bps.value, 640_000);
    assert_eq!(bps.confidence, Confidence::Exact);
}

#[test]
fn ac3_warns_about_downmix_from_seven_one() {
    let reg = CodecRegistry::with_builtins();
    let src = dts_71();
    let opts = Opts { bitrate_bps: Some(640_000), ..Default::default() };
    let ctx = EncodeCtx { src: &src, opts: &opts, duration_s: s(100_000) };
    let notes = reg.get("ac3").unwrap().notes(&ctx);
    assert!(notes.iter().any(|n| n.level == Level::Warning && n.text.contains("5.1")));
}

#[test]
fn ac3_args_force_six_channels_for_seven_one_source() {
    let reg = CodecRegistry::with_builtins();
    let src = dts_71();
    let opts = Opts { bitrate_bps: Some(640_000), ..Default::default() };
    let ctx = EncodeCtx { src: &src, opts: &opts, duration_s: s(100_000) };
    let args = reg.get("ac3").unwrap().args(&ctx, 1);
    assert_eq!(args, vec!["-c:a:1", "ac3", "-b:a:1", "640k", "-ac:a:1", "6"]);
}

#[test]
fn flac_estimate_is_a_guess_not_a_promise() {
    let reg = CodecRegistry::with_builtins();
    let src = dts_71();
    let opts = Opts::default();
    let ctx = EncodeCtx { src: &src, opts: &opts, duration_s: s(100_000) };
    let bps = reg.get("flac").unwrap().estimate_bps(&ctx);
    assert_eq!(bps.confidence, Confidence::Guessed);
    // 8 channels of 24-bit PCM at 48 kHz, compressed to 60%.
    assert_eq!(bps.value, 8 * 48_000 * 24 * 3 / 5);
}

#[test]
fn eac3_warns_about_downmix_from_ten_channels() {
    let reg = CodecRegistry::with_builtins();
    let src = Track {
        index: 3,
        kind: TrackKind::Audio,
        codec: "pcm_s24le".to_string(),
        language: Some("eng".to_string()),
        title: None,
        channels: Some(10),
        width: None,
        height: None,
        bps: Estimated::exact(10_000_000),
    };
    let opts = Opts { bitrate_bps: Some(768_000), ..Default::default() };
    let ctx = EncodeCtx { src: &src, opts: &opts, duration_s: s(100_000) };
    let notes = reg.get("eac3").unwrap().notes(&ctx);
    assert!(notes.iter().any(|n| n.level == Level::Warning && n.text.contains("7.1")));
}

#[test]
fn audio_defaults_cap_the_channel_count() {
    let reg = CodecRegistry::with_builtins();
    let o = reg.get("ac3").unwrap().default_opts(&dts_71());
    assert_eq!(o, Opts { bitrate_bps: Some(640_000), channels: Some(6), height: None });
}

fn uhd() -> Track {
    Track {
        index: 0,
        kind: TrackKind::Video,
        codec: "hevc".to_string(),
        language: None,
        title: None,
        channels: None,
        width: Some(3840),
        height: Some(2160),
        bps: Estimated::exact(54_857_256),
    }
}

#[test]
fn video_size_follows_requested_bitrate() {
    let reg = CodecRegistry::with_builtins();
    let src = uhd();
    let opts = Opts { bitrate_bps: Some(26_000_000), ..Default::default() };
    let ctx = EncodeCtx { src: &src, opts: &opts, duration_s: s(100_000) };
    let bps = reg.get("hevc_nvenc").unwrap().estimate_bps(&ctx);
    assert_eq!(bps.value, 26_000_000);
    assert_eq!(bps.confidence, Confidence::Sampled);
}

#[test]
fn nvenc_args_pin_bitrate_with_vbv_limiter() {
    let reg = CodecRegistry::with_builtins();
    let src = uhd();
    let opts = Opts { bitrate_bps: Some(26_000_000), height: Some(2160), ..Default::default() };
    let ctx = EncodeCtx { src: &src, opts: &opts, duration_s: s(100_000) };
    let args = reg.get("hevc_nvenc").unwrap().args(&ctx, 0);
    assert!(args.windows(2).any(|w| w == ["-c:v:0", "hevc_nvenc"]));
    assert!(args.windows(2).any(|w| w == ["-b:v:0", "26000k"]));
    assert!(args.windows(2).any(|w| w == ["-maxrate:v:0", "31200k"]));
    assert!(args.windows(2).any(|w| w == ["-bufsize:v:0", "52000k"]));
}

#[test]
fn downscale_adds_scale_filter() {
    let reg = CodecRegistry::with_builtins();
    let src = uhd();
    let opts = Opts { bitrate_bps: Some(12_000_000), height: Some(1080), ..Default::default() };
    let ctx = EncodeCtx { src: &src, opts: &opts, duration_s: s(100_000) };
    let args = reg.get("hevc_nvenc").unwrap().args(&ctx, 0);
    assert!(args.windows(2).any(|w| w == ["-vf", "scale=-2:1080"]));
}

#[test]
fn only_x265_profile_preserves_dolby_vision() {
    let reg = CodecRegistry::with_builtins();
    assert!(reg.get("hevc_x265_dv").unwrap().preserves_dolby_vision());
    assert!(!reg.get("hevc_nvenc").unwrap().preserves_dolby_vision());
    assert!(!reg.get("av1_nvenc").unwrap().preserves_dolby_vision());
}

#[test]
fn x265_warns_about_encode_time() {
    let reg = CodecRegistry::with_builtins();
    let src = uhd();
    let opts = Opts { bitrate_bps: Some(26_000_000), ..Default::default() };
    let ctx = EncodeCtx { src: &src, opts: &opts, duration_s: s(6_890_000) };
    let notes = reg.get("hevc_x265_dv").unwrap().notes(&ctx);
    assert!(notes.iter().any(|n| n.text.contains("ч")));
}

#[test]
fn video_defaults_start_from_half_the_source_bitrate() {
    let reg = CodecRegistry::with_builtins();
    let o = reg.get("hevc_nvenc").unwrap().default_opts(&uhd());
    assert_eq!(o.bitrate_bps, Some(27_428_628));
    assert_eq!(o.height, Some(2160));
    let av1 = reg.get("av1_nvenc").unwrap().default_opts(&uhd());
    assert_eq!(av1.bitrate_bps, Some(19_200_039));
}

#[test]
fn scale_filter_only_when_the_height_changes() {
    let src = uhd();
    let same = Opts { height: Some(2160), ..Default::default() };
    assert_eq!(pandafit::codecs::video::scale_filter(&same, &src), None);
    let lower = Opts { height: Some(720), ..Default::default() };
    assert_eq!(pandafit::codecs::video::scale_filter(&lower, &src), Some("scale=-2:720".to_string()));
}

// --- codec registry ---

#[test]
fn registry_lists_profiles_by_kind() {
    let reg = CodecRegistry::with_builtins();
    let video: Vec<&str> = reg.for_kind(TrackKind::Video).iter().map(|p| p.id()).collect();
    assert_eq!(video.len(), 3);
    assert!(video.contains(&"hevc_x265_dv"));
    let audio = reg.for_kind(TrackKind::Audio);
    assert_eq!(audio.len(), 4);
    assert!(reg.get("mp3").is_none());
    assert!(reg.for_kind(TrackKind::Subtitle).is_empty());
}

#[test]
fn register_then_get_returns_the_profile() {
    let mut reg = CodecRegistry::new();
    assert!(reg.get("ac3").is_none());
    pandafit::codecs::audio::register(&mut reg);
    assert_eq!(reg.get("ac3").unwrap().label(), "AC3");
    assert_eq!(reg.get("opus").unwrap().kind(), TrackKind::Audio);
    assert!(reg.get("hevc_nvenc").is_none());
    pandafit::codecs::register_builtins(&mut reg);
    assert_eq!(reg.get("hevc_nvenc").unwrap().id(), "hevc_nvenc");
}

#[test]
fn bytes_for_saturates_instead_of_wrapping() {
    let t = Track { bps: Estimated::guessed(u64::MAX), ..ac3_track() };
    let b = t.bytes_for(s(u64::MAX));
    assert_eq!(b.value, u64::MAX);
    assert_eq!(b.confidence, Confidence::Guessed);
}
