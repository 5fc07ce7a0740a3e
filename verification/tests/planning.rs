use pandafit::codec::CodecRegistry;
use pandafit::compile::{compile, needs_dv_chain, BuildRequest, ProgressKind, Step};
use pandafit::estimate::{estimate, estimate_checked, Verdict};
use pandafit::estimated::{Confidence, Estimated};
use pandafit::explain::{explain, has_blockers};
use pandafit::media::{ColorInfo, MediaInfo, Track, TrackKind};
use pandafit::note::Level;
use pandafit::plan::{Opts, Plan, Target, TrackAction, UDF_METADATA_BYTES};
use pandafit::runner::ProgressEvent;
use pandafit::session::{Phase, Session, SessionEvent};
use pandafit::units::{FrameRate, Seconds};

fn s(ms: u64) -> Seconds {
    Seconds::from_ms(ms)
}

fn thor() -> MediaInfo {
    let audio = |index, codec: &str, lang: &str, title: &str, ch, bps| Track {
        index,
        kind: TrackKind::Audio,
        codec: codec.to_string(),
        language: Some(lang.to_string()),
        title: Some(title.to_string()),
        channels: Some(ch),
        width: None,
        height: None,
        bps: Estimated::exact(bps),
    };
    MediaInfo {
        path: "/home/mgu/Downloads/thor.mkv".to_string(),
        duration_s: s(6_890_176),
        color: ColorInfo::DolbyVision { profile: 8, has_hdr10_base: true },
        file_bytes: 61_909_045_268,
        fps: FrameRate { num: 24000, den: 1001 },
        tracks: vec![
            Track {
                index: 0,
                kind: TrackKind::Video,
                codec: "hevc".to_string(),
                language: None,
                title: None,
                channels: None,
                width: Some(3840),
                height: Some(2160),
                bps: Estimated::exact(54_857_256),
            },
            audio(1, "ac3", "rus", "Dub, Blu-Ray", 6, 640_000),
            audio(2, "dts", "rus", "А. Гаврилов", 8, 5_008_134),
            audio(3, "dts", "rus", "Ю. Сербин", 8, 5_064_566),
            audio(4, "ac3", "ukr", "Dub, R5", 6, 448_000),
            audio(5, "truehd", "eng", "Atmos", 8, 4_937_856),
            audio(6, "ac3", "eng", "Surround", 6, 640_000),
            audio(7, "ac3", "eng", "Commentary", 2, 224_000),
            Track {
                index: 8,
                kind: TrackKind::Subtitle,
                codec: "subrip".to_string(),
                language: Some("rus".to_string()),
                title: Some("Blu-Ray".to_string()),
                channels: None,
                width: None,
                height: None,
                bps: Estimated::exact(63),
            },
        ],
    }
}

fn bd50() -> Target {
    Target::preset("BD-R DL".to_string(), 50_050_629_632)
}

fn keep_two_ac3(plan: &mut Plan) {
    for i in [2usize, 3, 4, 5, 7] {
        plan.set_action(i, TrackAction::Drop);
    }
}

// --- estimate ---

#[test]
fn dropping_hd_audio_makes_the_remux_fit() {
    let m = thor();
    let reg = CodecRegistry::with_builtins();
    let mut plan = Plan::from_media(&m, bd50());
    keep_two_ac3(&mut plan);
    let b = estimate(&m, &plan, &reg, None);
    assert!(b.total.value > 48_000_000_000, "получилось {}", b.total.value);
    assert!(b.total.value < 49_500_000_000, "получилось {}", b.total.value);
    assert!(matches!(b.verdict, Verdict::Fits), "вердикт {:?}", b.verdict);
}

#[test]
fn untouched_file_overflows_and_reports_the_excess() {
    let m = thor();
    let reg = CodecRegistry::with_builtins();
    let plan = Plan::from_media(&m, bd50());
    let b = estimate(&m, &plan, &reg, None);
    match b.verdict {
        Verdict::Overflow { excess } => assert!(excess > 10_000_000_000),
        other => panic!("ожидали переполнение, получили {other:?}"),
    }
}

#[test]
fn dropped_tracks_do_not_appear_in_breakdown() {
    let m = thor();
    let reg = CodecRegistry::with_builtins();
    let mut plan = Plan::from_media(&m, bd50());
    keep_two_ac3(&mut plan);
    let b = estimate(&m, &plan, &reg, None);
    assert!(b.tracks.iter().all(|t| t.index != 5));
}

#[test]
fn transcoding_dts_to_ac3_uses_the_new_bitrate() {
    let m = thor();
    let reg = CodecRegistry::with_builtins();
    let mut plan = Plan::from_media(&m, bd50());
    plan.set_action(
        2,
        TrackAction::Transcode {
            codec_id: "ac3".to_string(),
            opts: Opts { bitrate_bps: Some(640_000), ..Default::default() },
        },
    );
    let b = estimate(&m, &plan, &reg, None);
    let t = b.tracks.iter().find(|t| t.index == 2).unwrap();
    assert_eq!(t.bytes.value, 551_214_080);
}

#[test]
fn tight_result_is_flagged_when_only_the_upper_bound_overflows() {
    let m = thor();
    let reg = CodecRegistry::with_builtins();
    let mut plan = Plan::from_media(&m, bd50());
    keep_two_ac3(&mut plan);
    plan.set_action(
        0,
        TrackAction::Transcode {
            codec_id: "hevc_nvenc".to_string(),
            opts: Opts { bitrate_bps: Some(40_000_000), ..Default::default() },
        },
    );
    let b0 = estimate(&m, &plan, &reg, None);
    assert!(b0.total_upper > b0.total.value, "окно достоверности схлопнулось");
    let wanted_usable = (b0.total.value + b0.total_upper) / 2;
    let capacity = (wanted_usable + UDF_METADATA_BYTES) * 50 / 49;
    plan.target = Target::preset("узкая".to_string(), capacity);
    let b = estimate(&m, &plan, &reg, None);
    assert!(b.total.value <= b.usable_bytes);
    assert!(b.total_upper > b.usable_bytes);
    assert!(matches!(b.verdict, Verdict::Tight), "вердикт {:?}", b.verdict);
}

#[test]
fn control_numbers_match_expectations() {
    let m = thor();
    let reg = CodecRegistry::with_builtins();
    let mut plan = Plan::from_media(&m, bd50());
    keep_two_ac3(&mut plan);
    let b = estimate(&m, &plan, &reg, None);
    assert_eq!(
        b.tracks.iter().map(|t| t.bytes.value).sum::<u64>(),
        48_349_501_010,
        "payload должно быть 48 349 501 010"
    );
    assert_eq!(b.container.value, 243_747_505, "контейнер должен быть 243 747 505");
    assert_eq!(b.total.value, 48_593_250_304, "total.value должно быть 48 593 250 304");
    assert_eq!(b.total_upper, 48_605_435_904, "total_upper должно быть 48 605 435 904");
    assert_eq!(b.usable_bytes, 49_041_228_432, "usable должно быть 49 041 228 432");
}

#[test]
fn checked_estimate_agrees_with_the_plain_one() {
    let m = thor();
    let reg = CodecRegistry::with_builtins();
    let plan = Plan::from_media(&m, bd50());
    let a = estimate_checked(&m, &plan, &reg, None).unwrap();
    let b = estimate(&m, &plan, &reg, None);
    assert_eq!(a, b);
    assert_eq!(b.container.confidence, Confidence::Sampled);
    assert_eq!(b.tracks.len(), 9);
}

#[test]
fn estimate_refuses_byte_counts_beyond_64_bits() {
    let mut m = thor();
    m.duration_s = s(u64::MAX);
    m.tracks[0].bps = Estimated::exact(u64::MAX);
    let reg = CodecRegistry::with_builtins();
    let plan = Plan::from_media(&m, bd50());
    assert!(estimate_checked(&m, &plan, &reg, None).is_none());
}

// --- explain ---

fn plan_with_video_transcode(codec_id: &str) -> (MediaInfo, Plan) {
    let m = thor();
    let mut p = Plan::from_media(&m, bd50());
    p.set_action(
        0,
        TrackAction::Transcode {
            codec_id: codec_id.to_string(),
            opts: Opts { bitrate_bps: Some(26_000_000), height: Some(2160), ..Default::default() },
        },
    );
    (m, p)
}

#[test]
fn transcoding_profile_eight_warns_but_allows() {
    let (m, p) = plan_with_video_transcode("hevc_nvenc");
    let notes = explain(&m, &p, &CodecRegistry::with_builtins());
    assert!(notes.iter().any(|n| n.level == Level::Warning && n.text.contains("Dolby Vision")));
    assert!(!has_blockers(&notes));
}

#[test]
fn transcoding_profile_five_is_blocked() {
    let (mut m, p) = plan_with_video_transcode("hevc_nvenc");
    m.color = ColorInfo::DolbyVision { profile: 5, has_hdr10_base: false };
    let notes = explain(&m, &p, &CodecRegistry::with_builtins());
    assert!(has_blockers(&notes));
    assert!(notes.iter().any(|n| n.level == Level::Blocker && n.text.contains("Profile 5")));
}

#[test]
fn x265_profile_removes_the_dolby_vision_warning() {
    let (m, p) = plan_with_video_transcode("hevc_x265_dv");
    let notes = explain(&m, &p, &CodecRegistry::with_builtins());
    assert!(!notes
        .iter()
        .any(|n| n.level == Level::Warning && n.text.contains("Dolby Vision будет потерян")));
}

#[test]
fn dropping_every_audio_track_is_blocked() {
    let m = thor();
    let mut p = Plan::from_media(&m, bd50());
    for i in 1..=7 {
        p.set_action(i, TrackAction::Drop);
    }
    let notes = explain(&m, &p, &CodecRegistry::with_builtins());
    assert!(notes.iter().any(|n| n.level == Level::Blocker && n.text.contains("звук")));
}

#[test]
fn trimming_a_copied_stream_warns_about_keyframes() {
    let m = thor();
    let mut p = Plan::from_media(&m, bd50());
    p.range.end_s = s(6_700_000);
    let notes = explain(&m, &p, &CodecRegistry::with_builtins());
    assert!(notes.iter().any(|n| n.text.contains("ключев")));
}

#[test]
fn dropping_the_video_is_blocked_and_an_empty_trim_too() {
    let m = thor();
    let mut p = Plan::from_media(&m, bd50());
    p.set_action(0, TrackAction::Drop);
    let notes = explain(&m, &p, &CodecRegistry::with_builtins());
    assert!(notes.iter().any(|n| n.level == Level::Blocker && n.text.contains("видеодорожки")));
    let mut q = Plan::from_media(&m, bd50());
    q.range.start_s = s(100_000);
    q.range.end_s = s(100_000);
    let notes = explain(&m, &q, &CodecRegistry::with_builtins());
    assert!(notes.iter().any(|n| n.level == Level::Blocker && n.text.contains("Пустой")));
}

#[test]
fn untouched_plan_raises_no_notes() {
    let m = thor();
    let p = Plan::from_media(&m, bd50());
    assert!(explain(&m, &p, &CodecRegistry::with_builtins()).is_empty());
}

// --- compile ---

fn req() -> BuildRequest {
    BuildRequest {
        output: "/out/thor.bd50.mkv".to_string(),
        workdir: "/out/.pandafit".to_string(),
        burn_device: None,
    }
}

fn remux_plan() -> (MediaInfo, Plan) {
    let m = thor();
    let mut p = Plan::from_media(&m, bd50());
    keep_two_ac3(&mut p);
    (m, p)
}

#[test]
fn pure_remux_is_a_single_ffmpeg_step() {
    let (m, p) = remux_plan();
    let steps = compile(&m, &p, &CodecRegistry::with_builtins(), &req());
    assert_eq!(steps.len(), 1);
    assert_eq!(steps[0].id, "build");
    assert_eq!(steps[0].program, "ffmpeg");
    assert_eq!(steps[0].progress, ProgressKind::FfmpegPipe);
}

#[test]
fn remux_maps_only_kept_tracks_and_copies_them() {
    let (m, p) = remux_plan();
    let steps = compile(&m, &p, &CodecRegistry::with_builtins(), &req());
    let a = &steps[0].args;
    assert!(a.windows(2).any(|w| w == ["-map", "0:0"]));
    assert!(a.windows(2).any(|w| w == ["-map", "0:1"]));
    assert!(a.windows(2).any(|w| w == ["-map", "0:6"]));
    assert!(a.windows(2).any(|w| w == ["-map", "0:8"]));
    assert!(!a.windows(2).any(|w| w == ["-map", "0:5"]));
    assert!(a.windows(2).any(|w| w == ["-c", "copy"]));
}

#[test]
fn trim_adds_seek_and_end_before_input() {
    let (m, mut p) = remux_plan();
    p.range.start_s = s(0);
    p.range.end_s = s(6_700_000);
    let steps = compile(&m, &p, &CodecRegistry::with_builtins(), &req());
    let a = &steps[0].args;
    let to_pos = a.iter().position(|x| x == "-to").expect("нет -to");
    let i_pos = a.iter().position(|x| x == "-i").expect("нет -i");
    assert!(to_pos < i_pos, "-to должен стоять до -i для точного реза по контейнеру");
    assert_eq!(a[to_pos + 1], "6700.000");
}

#[test]
fn audio_transcode_emits_per_output_stream_args() {
    let (m, mut p) = remux_plan();
    p.set_action(2, TrackAction::Copy);
    p.set_action(
        2,
        TrackAction::Transcode {
            codec_id: "ac3".to_string(),
            opts: Opts { bitrate_bps: Some(640_000), ..Default::default() },
        },
    );
    let steps = compile(&m, &p, &CodecRegistry::with_builtins(), &req());
    let a = &steps[0].args;
    assert!(a.windows(2).any(|w| w == ["-c:a:1", "ac3"]));
    assert!(a.windows(2).any(|w| w == ["-b:a:1", "640k"]));
}

#[test]
fn burn_request_appends_a_growisofs_step() {
    let (m, p) = remux_plan();
    let mut r = req();
    r.burn_device = Some("/dev/sr0".to_string());
    let steps = compile(&m, &p, &CodecRegistry::with_builtins(), &r);
    let last = steps.last().unwrap();
    assert_eq!(last.id, "burn");
    assert_eq!(last.program, "growisofs");
    assert!(last.args.windows(2).any(|w| w == ["-Z", "/dev/sr0"]));
    assert!(last.args.iter().any(|x| x == "-udf"));
    assert!(last.args.iter().any(|x| x == "-allow-limited-size"));
}

#[test]
fn command_line_is_copyable_into_a_terminal() {
    let (m, p) = remux_plan();
    let steps = compile(&m, &p, &CodecRegistry::with_builtins(), &req());
    let line = steps[0].command_line();
    assert!(line.starts_with("ffmpeg "));
    assert!(line.contains("'/out/thor.bd50.mkv'"));
}

#[test]
fn command_line_quotes_only_what_the_shell_would_misread() {
    let step = Step {
        id: "build",
        title: "t".to_string(),
        program: "echo".to_string(),
        args: vec!["plain-1.0".to_string(), "it's".to_string(), "".to_string()],
        progress: ProgressKind::Silent,
        produces: None,
        prepare: None,
    };
    // An empty word is left as it is, like any word of safe characters.
    assert_eq!(step.command_line(), "echo plain-1.0 'it'\\''s' ");
}

fn dv_plan(trim: bool) -> (MediaInfo, Plan) {
    let m = thor();
    let mut p = Plan::from_media(&m, Target::preset("BD-R 25".to_string(), 25_025_314_816));
    keep_two_ac3(&mut p);
    p.set_action(
        0,
        TrackAction::Transcode {
            codec_id: "hevc_x265_dv".to_string(),
            opts: Opts { bitrate_bps: Some(23_000_000), height: Some(2160), ..Default::default() },
        },
    );
    if trim {
        p.range.end_s = s(6_700_000);
    }
    (m, p)
}

#[test]
fn dv_chain_without_trim_has_three_steps() {
    let (m, p) = dv_plan(false);
    let steps = compile(&m, &p, &CodecRegistry::with_builtins(), &req());
    let ids: Vec<_> = steps.iter().map(|s| s.id).collect();
    assert_eq!(ids, vec!["dv_extract", "dv_encode", "dv_mux"]);
    assert!(needs_dv_chain(&m, &p, &CodecRegistry::with_builtins()));
}

#[test]
fn trimming_inserts_an_rpu_editor_step() {
    let (m, p) = dv_plan(true);
    let steps = compile(&m, &p, &CodecRegistry::with_builtins(), &req());
    let ids: Vec<_> = steps.iter().map(|s| s.id).collect();
    assert_eq!(ids, vec!["dv_extract", "dv_trim", "dv_encode", "dv_mux"]);
}

#[test]
fn encode_step_passes_the_rpu_to_x265() {
    let (m, p) = dv_plan(false);
    let steps = compile(&m, &p, &CodecRegistry::with_builtins(), &req());
    let enc = steps.iter().find(|s| s.id == "dv_encode").unwrap();
    let joined = enc.args.join(" ");
    assert!(joined.contains("dolby-vision-rpu=/out/.pandafit/rpu.bin"));
    assert!(joined.contains("dolby-vision-profile=8.1"));
    assert!(joined.contains("vbv-maxrate"));
}

#[test]
fn trimmed_chain_feeds_the_edited_rpu_to_the_encoder() {
    let (m, p) = dv_plan(true);
    let steps = compile(&m, &p, &CodecRegistry::with_builtins(), &req());
    let enc = steps.iter().find(|s| s.id == "dv_encode").unwrap();
    assert!(enc.args.join(" ").contains("rpu.trimmed.bin"));
}

#[test]
fn every_dv_step_declares_what_it_produces() {
    let (m, p) = dv_plan(true);
    let steps = compile(&m, &p, &CodecRegistry::with_builtins(), &req());
    for s in steps.iter().filter(|s| s.id.starts_with("dv_")) {
        assert!(s.produces.is_some(), "шаг {} не объявил результат", s.id);
    }
}

#[test]
fn nvenc_transcode_stays_on_the_simple_path() {
    let (m, mut p) = dv_plan(false);
    p.set_action(
        0,
        TrackAction::Transcode {
            codec_id: "hevc_nvenc".to_string(),
            opts: Opts { bitrate_bps: Some(23_000_000), ..Default::default() },
        },
    );
    let steps = compile(&m, &p, &CodecRegistry::with_builtins(), &req());
    assert_eq!(steps.len(), 1);
    assert_eq!(steps[0].id, "build");
}

#[test]
fn rpu_trim_range_is_computed_from_real_frame_rate() {
    let (m, p) = dv_plan(true);
    let steps = compile(&m, &p, &CodecRegistry::with_builtins(), &req());
    let trim = steps.iter().find(|s| s.id == "dv_trim").unwrap();
    let prepared = trim.prepare.as_ref().expect("dv_trim обязан готовить конфиг");
    assert_eq!(prepared.path, "/out/.pandafit/rpu-edit.json");
    let last = (6700.0f64 * 23.976).round() as u64;
    let expected_tail = format!("{}-", last + 1);
    assert!(
        prepared.contents.contains(&expected_tail),
        "конфиг {:?} не содержит хвостовой диапазон {expected_tail}",
        prepared.contents
    );
    assert!(!trim.args.iter().any(|a| a == "--active-area-offsets"));
    assert!(trim.args.contains(&"-j".to_string()));
}

#[test]
fn full_range_trim_has_no_leading_removed_span() {
    let (m, mut p) = dv_plan(true);
    p.range.start_s = s(0);
    let steps = compile(&m, &p, &CodecRegistry::with_builtins(), &req());
    let trim = steps.iter().find(|s| s.id == "dv_trim").unwrap();
    let prepared = trim.prepare.as_ref().unwrap();
    assert!(!prepared.contents.contains("\"0-"), "лишний головной диапазон: {}", prepared.contents);
}

#[test]
fn trim_with_a_nonzero_start_removes_a_leading_span_too() {
    let (m, mut p) = dv_plan(true);
    p.range.start_s = s(120_000);
    let steps = compile(&m, &p, &CodecRegistry::with_builtins(), &req());
    let trim = steps.iter().find(|s| s.id == "dv_trim").unwrap();
    let prepared = trim.prepare.as_ref().unwrap();
    let first = (120.0f64 * 23.976).round() as u64;
    let expected_head = format!("0-{}", first - 1);
    assert!(
        prepared.contents.contains(&expected_head),
        "конфиг {:?} не содержит головной диапазон {expected_head}",
        prepared.contents
    );
}

#[test]
fn dv_mux_splits_kept_tracks_into_audio_and_subtitle_lists() {
    let (m, p) = dv_plan(false);
    let steps = compile(&m, &p, &CodecRegistry::with_builtins(), &req());
    let mux = steps.iter().find(|s| s.id == "dv_mux").unwrap();
    let a_pos = mux.args.iter().position(|x| x == "--audio-tracks").expect("нет --audio-tracks");
    let audio_list = &mux.args[a_pos + 1];
    let s_pos = mux.args.iter().position(|x| x == "--subtitle-tracks").expect("нет --subtitle-tracks");
    let sub_list = &mux.args[s_pos + 1];
    assert_eq!(audio_list, "1,6");
    assert_eq!(sub_list, "8");
    assert!(!audio_list.split(',').any(|i| i == "8"), "субтитр попал в список звука");
    assert!(mux.args.iter().any(|x| x == "--no-video"));
}

// --- session ---

fn opened() -> Session {
    let mut s = Session::new();
    s.apply(SessionEvent::FileOpened(thor()));
    s.apply(SessionEvent::TargetChosen(bd50()));
    s
}

#[test]
fn opening_a_file_switches_to_setup_and_estimates_immediately() {
    let s = opened();
    assert_eq!(s.phase, Phase::Setup);
    let b = s.breakdown.as_ref().unwrap();
    assert!(matches!(b.verdict, Verdict::Overflow { .. }));
}

#[test]
fn dropping_tracks_updates_the_estimate_and_flips_the_verdict() {
    let mut s = opened();
    for i in [2usize, 3, 4, 5, 7] {
        s.apply(SessionEvent::TrackActionChanged { index: i, action: TrackAction::Drop });
    }
    assert!(matches!(s.breakdown.as_ref().unwrap().verdict, Verdict::Fits));
}

#[test]
fn a_blocker_disables_building() {
    let mut s = opened();
    for i in 1..=7 {
        s.apply(SessionEvent::TrackActionChanged { index: i, action: TrackAction::Drop });
    }
    assert!(!s.can_build());
}

#[test]
fn overflow_also_disables_building() {
    let s = opened();
    assert!(!s.can_build(), "переполненный план не должен собираться");
}

#[test]
fn fitting_plan_without_blockers_can_be_built() {
    let mut s = opened();
    for i in [2usize, 3, 4, 5, 7] {
        s.apply(SessionEvent::TrackActionChanged { index: i, action: TrackAction::Drop });
    }
    assert!(s.can_build());
    assert!(!s.needs_dv_tools());
}

#[test]
fn transcoding_uses_codec_defaults_when_opts_are_empty() {
    let mut s = opened();
    s.apply(SessionEvent::TrackActionChanged {
        index: 5,
        action: TrackAction::Transcode { codec_id: "ac3".to_string(), opts: Opts::default() },
    });
    let t = s.breakdown.as_ref().unwrap().tracks.iter().find(|t| t.index == 5).unwrap();
    assert_eq!(t.bytes.value, 551_214_080);
}

#[test]
fn transcoding_keeps_a_user_chosen_height_and_only_fills_the_missing_bitrate() {
    let mut s = opened();
    s.apply(SessionEvent::TrackActionChanged {
        index: 0,
        action: TrackAction::Transcode {
            codec_id: "hevc_nvenc".to_string(),
            opts: Opts { bitrate_bps: None, channels: None, height: Some(1080) },
        },
    });
    let action = s.plan.as_ref().unwrap().action(0).clone();
    let TrackAction::Transcode { opts, .. } = action else {
        panic!("ожидали Transcode");
    };
    assert_eq!(opts.height, Some(1080));
    assert!(opts.bitrate_bps.is_some());
}

#[test]
fn trim_narrows_the_plan_range() {
    let mut s = opened();
    s.apply(SessionEvent::TrimChanged { start_s: s_ms(0), end_s: s_ms(6_700_000) });
    assert_eq!(s.plan.as_ref().unwrap().range.end_s, s_ms(6_700_000));
}

fn s_ms(ms: u64) -> Seconds {
    Seconds::from_ms(ms)
}

#[test]
fn live_projection_extrapolates_from_written_bytes() {
    let mut s = opened();
    for i in [2usize, 3, 4, 5, 7] {
        s.apply(SessionEvent::TrackActionChanged { index: i, action: TrackAction::Drop });
    }
    s.begin_running();
    s.apply(SessionEvent::Progress(ProgressEvent::Tick {
        step_id: "build",
        position_s: s_ms(3_445_000),
        bytes_written: 26_000_000_000,
        speed: Some(1000),
    }));
    let projected = s.projected_total().unwrap();
    assert!(projected > 50_000_000_000, "прогноз {projected}");
}

#[test]
fn projection_needs_a_second_of_progress_and_some_bytes() {
    let mut s = opened();
    s.apply(SessionEvent::Progress(ProgressEvent::Tick {
        step_id: "build",
        position_s: s_ms(1_000),
        bytes_written: 5,
        speed: None,
    }));
    assert_eq!(s.projected_total(), None);
    s.apply(SessionEvent::Progress(ProgressEvent::Tick {
        step_id: "build",
        position_s: s_ms(2_000),
        bytes_written: 0,
        speed: None,
    }));
    // A tick without bytes keeps the last count.
    assert_eq!(s.bytes_written, 5);
    // 5 bytes over 2 s of a 6890.176 s film.
    assert_eq!(s.projected_total(), Some(17_225));
}

#[test]
fn opening_a_new_file_clears_the_previous_build_traces() {
    let mut s = opened();
    s.fail("сборка не удалась".to_string());
    s.log.push("хвост лога прошлой сборки".to_string());
    s.steps.push(Step {
        id: "build",
        title: "старый шаг".to_string(),
        program: "ffmpeg".to_string(),
        args: Vec::new(),
        progress: ProgressKind::FfmpegPipe,
        produces: None,
        prepare: None,
    });
    s.current_step = Some("build");
    s.position_s = s_ms(1_234_000);
    s.bytes_written = 999;

    s.apply(SessionEvent::FileOpened(thor()));

    assert_eq!(s.phase, Phase::Setup);
    assert!(s.log.is_empty());
    assert!(s.steps.is_empty());
    assert!(s.current_step.is_none());
    assert_eq!(s.position_s, s_ms(0));
    assert_eq!(s.bytes_written, 0);
    assert!(s.error.is_none());
}

#[test]
fn progress_events_drive_the_phase() {
    let mut s = opened();
    let steps = s.build_steps(&req());
    assert_eq!(steps.len(), 1);
    assert_eq!(s.steps.len(), 1);
    s.apply(SessionEvent::Progress(ProgressEvent::Started { step_id: "build", title: "Сборка".to_string() }));
    assert_eq!(s.phase, Phase::Running);
    assert_eq!(s.current_step, Some("build"));
    assert_eq!(s.log.last().map(|l| l.as_str()), Some("— Сборка"));
    s.apply(SessionEvent::Progress(ProgressEvent::Finished { step_id: "other" }));
    assert_eq!(s.phase, Phase::Running);
    s.apply(SessionEvent::Progress(ProgressEvent::Finished { step_id: "build" }));
    assert_eq!(s.phase, Phase::Done);
    s.apply(SessionEvent::Progress(ProgressEvent::Failed {
        step_id: "build",
        message: "беда".to_string(),
        tail: vec!["a".to_string(), "b".to_string()],
    }));
    assert_eq!(s.phase, Phase::Failed);
    assert_eq!(s.error.as_deref(), Some("беда"));
    assert_eq!(s.log.len(), 3);
    s.apply(SessionEvent::Progress(ProgressEvent::Cancelled));
    assert_eq!(s.error.as_deref(), Some("отменено"));
}

#[test]
fn the_log_keeps_only_the_last_five_hundred_lines() {
    let mut s = Session::new();
    for i in 0..600 {
        s.apply(SessionEvent::Progress(ProgressEvent::Log { step_id: "build", line: format!("{i}") }));
    }
    assert_eq!(s.log.len(), 500);
    assert_eq!(s.log[0], "100");
    assert_eq!(s.log[499], "599");
}

#[test]
fn a_new_file_keeps_the_chosen_target() {
    let mut s = Session::new();
    s.apply(SessionEvent::FileOpened(thor()));
    assert_eq!(s.plan.as_ref().unwrap().target.capacity_bytes, 50_050_629_632);
    s.apply(SessionEvent::TargetChosen(Target::preset("BD-R 25".to_string(), 25_025_314_816)));
    s.apply(SessionEvent::FileOpened(thor()));
    assert_eq!(s.plan.as_ref().unwrap().target.capacity_bytes, 25_025_314_816);
}

#[test]
fn dropping_a_track_never_grows_the_estimate() {
    let m = thor();
    let reg = CodecRegistry::with_builtins();
    let mut plan = Plan::from_media(&m, bd50());
    let mut last = estimate(&m, &plan, &reg, None);
    for i in [5usize, 2, 3, 8, 0] {
        plan.set_action(i, TrackAction::Drop);
        let b = estimate(&m, &plan, &reg, None);
        assert!(b.total.value <= last.total.value);
        assert!(b.total_upper <= last.total_upper);
        if matches!(last.verdict, Verdict::Fits) {
            assert!(matches!(b.verdict, Verdict::Fits));
        }
        last = b;
    }
}

#[test]
fn track_table_captions() {
    let m = thor();
    let reg = CodecRegistry::with_builtins();
    let mut plan = Plan::from_media(&m, bd50());
    keep_two_ac3(&mut plan);
    let b = estimate(&m, &plan, &reg, None);
    assert_eq!(pandafit::ui::size_caption(&b, 1), "0.55 ГБ");
    assert_eq!(pandafit::ui::size_caption(&b, 5), "—");
    assert_eq!(pandafit::ui::action_caption(&reg, &TrackAction::Copy), "Копировать");
    assert_eq!(pandafit::ui::action_caption(&reg, &TrackAction::Drop), "Удалить");
    let t = TrackAction::Transcode { codec_id: "ac3".to_string(), opts: Opts::default() };
    assert_eq!(pandafit::ui::action_caption(&reg, &t), "AC3");
    let u = TrackAction::Transcode { codec_id: "mp2".to_string(), opts: Opts::default() };
    assert_eq!(pandafit::ui::action_caption(&reg, &u), "mp2");
}

#[test]
fn command_line_quotes_every_word_the_shell_would_misread() {
    let step = Step {
        id: "build",
        title: "t".to_string(),
        program: "ffmpeg".to_string(),
        args: vec!["-i".to_string(), "/films/Тор (2011).mkv".to_string(), "-metadata".to_string(), "title=It's".to_string()],
        progress: ProgressKind::FfmpegPipe,
        produces: None,
        prepare: None,
    };
    assert_eq!(step.command_line(), "ffmpeg -i '/films/Тор (2011).mkv' -metadata 'title=It'\\''s'");
}
