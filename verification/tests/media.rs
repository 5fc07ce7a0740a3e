use pandafit::compile::{ProgressKind, Step};
use pandafit::disc::parse_mediainfo;
use pandafit::estimated::Confidence;
use pandafit::media::{ColorInfo, MediaInfo, TrackKind};
use pandafit::preflight::{df_available, free_space_check, preflight_report, required_tools, tool_check, PreflightInput};
use pandafit::probe::{
    bps_of, color_of, dolby_vision_compatibility_implies_hdr10_base, guess_bps, is_cover_attachment,
    kind_of, media_from_raw, parse_rational, ProbeError, Raw, RawFormat, RawSideData, RawStream, RawTags,
};
use pandafit::progress::{parse_ffmpeg_progress, parse_growisofs_line, FfmpegProgressState, Tick};
use pandafit::runner::{push_capped, skipped_line, stderr_line, step_exited, ProgressEvent, STDERR_TAIL_LINES};
use pandafit::sampler::{window_bitrate, FfprobeSampler};
use pandafit::thumbs::{thumb_args, thumb_name, thumb_plan, thumb_time};
use pandafit::ui::{confidence_mark, format_bytes, format_time, level_prefix, target_caption, total_caption, verdict_caption};
use pandafit::estimate::{SizeBreakdown, Verdict};
use pandafit::estimated::Estimated;
use pandafit::note::Level;
use pandafit::plan::Target;
use pandafit::units::{FrameRate, Seconds};

fn s(ms: u64) -> Seconds {
    Seconds::from_ms(ms)
}

// --- disc ---

const FIXTURE: &str = "INQUIRY:                [HL-DT-ST][BD-RE  WH16NS40 ][1.05]
GET [CURRENT] CONFIGURATION:
 Mounted Media:         41h, BD-R SRM
 Media ID:              CMCMAG/BA5
 Current Write Speed:   6.0x4495=26976KB/s
 Write Speed #0:        6.0x4495=26976KB/s
 Speed Descriptor#0:    00/12219391 R@6.0x4495=26976KB/s W@6.0x4495=26976KB/s
READ DISC INFORMATION:
 Disc status:           blank
 Number of Sessions:    1
 State of Last Session: empty
 \"Next\" Track:          1
 Number of Tracks:      1
READ TRACK INFORMATION[#1]:
 Track State:           invisible incremental
 Track Start Address:   0*2KB
 Free Blocks:           12219392*2KB
 Track Size:            12219392*2KB
READ CAPACITY:          0*2048=0
READ DISC STRUCTURE[#0h]:
 Media Type:            BD-R
 Disc Size:             12cm
 Layer 0 Capacity:      12219392*2048=25025314816
READ FORMAT CAPACITIES:
 unformatted:           12219392*2048=25025314816
 00h(3000):             11826176*2048=24220008448
 32h(0):                11826176*2048=24220008448
";

#[test]
fn capacity_comes_from_the_sector_count_not_from_a_nominal_table() {
    let s = parse_mediainfo(FIXTURE, "/dev/sr0").unwrap();
    assert_eq!(s.capacity_bytes, 25_025_314_816);
}

#[test]
fn blank_disc_is_recognised() {
    let s = parse_mediainfo(FIXTURE, "/dev/sr0").unwrap();
    assert!(s.blank);
    assert!(s.media_name.contains("BD-R"));
}

#[test]
fn non_blank_disc_is_reported_as_such() {
    let text = "Mounted Media:         41h, BD-R SRM\n\
                Disc status:           complete\n\
                READ FORMAT CAPACITIES:\n unformatted:\t12219392*2048=25025314816\n";
    let s = parse_mediainfo(text, "/dev/sr0").unwrap();
    assert!(!s.blank);
}

#[test]
fn empty_tray_yields_nothing() {
    assert!(parse_mediainfo("no medium present", "/dev/sr0").is_none());
}

#[test]
fn the_largest_capacity_line_wins_and_the_device_is_kept() {
    let text = "Mounted Media: 2Bh, DVD+R Double Layer\r\n formatted: 10*2048=20480\r\n unformatted: 20*2048=40960\r\n";
    let s = parse_mediainfo(text, "/dev/sr1").unwrap();
    assert_eq!(s.capacity_bytes, 40_960);
    assert_eq!(s.device, "/dev/sr1");
    assert_eq!(s.media_name, "2Bh, DVD+R Double Layer");
    assert!(!s.blank);
}

#[test]
fn a_report_without_media_name_yields_nothing() {
    assert!(parse_mediainfo(" unformatted: 20*2048=40960\n", "/dev/sr0").is_none());
}

// --- progress ---

#[test]
fn ffmpeg_progress_block_yields_a_tick_on_the_terminator() {
    let mut st = FfmpegProgressState::default();
    assert!(parse_ffmpeg_progress(&mut st, "out_time_us=125000000").is_none());
    assert!(parse_ffmpeg_progress(&mut st, "total_size=1048576").is_none());
    assert!(parse_ffmpeg_progress(&mut st, "speed=2.5x").is_none());
    let tick = parse_ffmpeg_progress(&mut st, "progress=continue").expect("нет тика");
    assert_eq!(tick.position_s, s(125_000));
    assert_eq!(tick.bytes_written, 1_048_576);
    assert_eq!(tick.speed, Some(2_500));
}

#[test]
fn ffmpeg_end_marker_also_yields_a_tick() {
    let mut st = FfmpegProgressState::default();
    parse_ffmpeg_progress(&mut st, "out_time_us=200000000");
    assert!(parse_ffmpeg_progress(&mut st, "progress=end").is_some());
}

#[test]
fn garbage_lines_are_ignored() {
    let mut st = FfmpegProgressState::default();
    assert!(parse_ffmpeg_progress(&mut st, "").is_none());
    assert!(parse_ffmpeg_progress(&mut st, "какой-то мусор").is_none());
    assert!(parse_ffmpeg_progress(&mut st, "out_time_us=не_число").is_none());
}

#[test]
fn unreadable_values_keep_or_clear_the_state() {
    let mut st = FfmpegProgressState::default();
    parse_ffmpeg_progress(&mut st, "  out_time_us=1500000 \r");
    parse_ffmpeg_progress(&mut st, "speed=1.25x");
    parse_ffmpeg_progress(&mut st, "out_time_us=N/A");
    parse_ffmpeg_progress(&mut st, "speed=N/A");
    let t = parse_ffmpeg_progress(&mut st, "progress=end").unwrap();
    assert_eq!(t, Tick { position_s: s(1_500), bytes_written: 0, speed: None });
}

#[test]
fn growisofs_percentage_is_recognised() {
    assert_eq!(parse_growisofs_line(" 12.3% done, estimate finish Sun Aug 31"), Some(12_300));
    assert_eq!(parse_growisofs_line("Executing 'builtin_dd'"), None);
}

#[test]
fn growisofs_line_with_a_bare_percent_sign_yields_nothing() {
    assert_eq!(parse_growisofs_line("100%"), Some(100_000));
    assert_eq!(parse_growisofs_line("done %"), None);
}

// --- probe ---

fn text(v: &serde_json::Value, key: &str) -> Option<String> {
    v.get(key).and_then(|x| x.as_str()).map(|x| x.to_string())
}

fn number(v: &serde_json::Value, key: &str) -> Option<u64> {
    v.get(key).and_then(|x| x.as_u64())
}

fn raw_from_json(json: &str) -> Raw {
    let v: serde_json::Value = serde_json::from_str(json).unwrap();
    let streams = v["streams"]
        .as_array()
        .unwrap()
        .iter()
        .map(|st| {
            let tags = st.get("tags").cloned().unwrap_or(serde_json::Value::Null);
            RawStream {
                index: number(st, "index").unwrap() as usize,
                codec_name: text(st, "codec_name"),
                codec_type: text(st, "codec_type").unwrap(),
                width: number(st, "width").map(|x| x as u32),
                height: number(st, "height").map(|x| x as u32),
                channels: number(st, "channels").map(|x| x as u32),
                bit_rate: text(st, "bit_rate"),
                r_frame_rate: text(st, "r_frame_rate"),
                color_transfer: text(st, "color_transfer"),
                tags: RawTags { language: text(&tags, "language"), title: text(&tags, "title"), bps: text(&tags, "BPS") },
                side_data_list: st
                    .get("side_data_list")
                    .and_then(|l| l.as_array())
                    .map(|l| {
                        l.iter()
                            .map(|d| RawSideData {
                                dv_profile: number(d, "dv_profile").map(|x| x as u8),
                                dv_bl_signal_compatibility_id: number(d, "dv_bl_signal_compatibility_id").map(|x| x as u8),
                            })
                            .collect()
                    })
                    .unwrap_or_default(),
            }
        })
        .collect();
    let format = v.get("format").cloned().unwrap_or(serde_json::Value::Null);
    Raw { streams, format: RawFormat { duration: text(&format, "duration") } }
}

const UHD_REMUX: &str = r#"{
  "streams": [
    {"index": 0, "codec_name": "hevc", "codec_type": "video", "width": 3840, "height": 2160,
     "r_frame_rate": "24000/1001", "color_transfer": "smpte2084", "bit_rate": "60000000",
     "tags": {"BPS": "54857256"},
     "side_data_list": [{"side_data_type": "Mastering display metadata"},
                        {"side_data_type": "DOVI configuration record", "dv_profile": 8, "dv_bl_signal_compatibility_id": 1}]},
    {"index": 1, "codec_name": "ac3", "codec_type": "audio", "channels": 6, "tags": {"language": "rus", "title": "Dub, Blu-Ray", "BPS": "640000"}},
    {"index": 2, "codec_name": "dts", "codec_type": "audio", "channels": 8, "tags": {"language": "rus", "BPS": "5008134"}},
    {"index": 3, "codec_name": "dts", "codec_type": "audio", "channels": 8, "tags": {"language": "rus", "BPS": "5064566"}},
    {"index": 4, "codec_name": "ac3", "codec_type": "audio", "channels": 6, "tags": {"language": "ukr", "BPS": "448000"}},
    {"index": 5, "codec_name": "truehd", "codec_type": "audio", "channels": 8, "tags": {"language": "eng", "BPS": "4937856"}},
    {"index": 6, "codec_name": "ac3", "codec_type": "audio", "channels": 6, "tags": {"language": "eng", "BPS": "640000"}},
    {"index": 7, "codec_name": "ac3", "codec_type": "audio", "channels": 2, "tags": {"language": "eng", "BPS": "224000"}},
    {"index": 8, "codec_name": "subrip", "codec_type": "subtitle", "tags": {"language": "rus", "BPS": "63"}},
    {"index": 9, "codec_name": "subrip", "codec_type": "subtitle", "tags": {"language": "rus"}},
    {"index": 10, "codec_name": "hdmv_pgs_subtitle", "codec_type": "subtitle", "tags": {"language": "rus"}},
    {"index": 11, "codec_name": "subrip", "codec_type": "subtitle", "tags": {"language": "ukr"}},
    {"index": 12, "codec_name": "subrip", "codec_type": "subtitle", "tags": {"language": "eng"}},
    {"index": 13, "codec_name": "hdmv_pgs_subtitle", "codec_type": "subtitle", "tags": {"language": "eng"}},
    {"index": 14, "codec_name": "subrip", "codec_type": "subtitle", "tags": {"language": "eng", "title": "SDH"}},
    {"index": 15, "codec_name": "ttf", "codec_type": "attachment", "tags": {}},
    {"index": 16, "codec_name": "mjpeg", "codec_type": "video", "width": 600, "height": 882, "r_frame_rate": "90000/1"}
  ],
  "format": {"duration": "6890.176000"}
}"#;

const SYNTHETIC: &str = r#"{
  "streams": [
    {"index": 0, "codec_name": "h264", "codec_type": "video", "width": 320, "height": 240,
     "r_frame_rate": "24/1", "bit_rate": "550000", "tags": {"language": "und"}},
    {"index": 1, "codec_name": "aac", "codec_type": "audio", "channels": 2, "bit_rate": "96000",
     "tags": {"language": "rus", "title": "Дубляж"}},
    {"index": 2, "codec_name": "ac3", "codec_type": "audio", "channels": 6, "bit_rate": "448000",
     "tags": {"language": "eng", "title": "Original"}}
  ],
  "format": {"duration": "5.000000"}
}"#;

fn parsed() -> MediaInfo {
    media_from_raw(&raw_from_json(UHD_REMUX), "/tmp/thor.mkv".to_string(), 61_909_045_268).unwrap()
}

fn parsed_synthetic() -> MediaInfo {
    media_from_raw(&raw_from_json(SYNTHETIC), "/tmp/synthetic.mkv".to_string(), 420_894).unwrap()
}

fn fps(m: &MediaInfo) -> f64 {
    m.fps.num as f64 / m.fps.den as f64
}

#[test]
fn reads_duration_and_frame_rate() {
    let m = parsed();
    assert!((m.duration_s.ms as f64 / 1000.0 - 6890.176).abs() < 0.01);
    assert!((fps(&m) - 23.976).abs() < 0.01);
}

#[test]
fn bps_tag_wins_over_declared_stream_bitrate() {
    let m = parsed();
    let video = m.video().unwrap();
    assert_eq!(video.bps.value, 54_857_256);
    assert_eq!(video.bps.confidence, Confidence::Exact);
}

#[test]
fn falls_back_to_a_guess_when_no_bitrate_is_known() {
    let json = r#"{"streams":[{"index":0,"codec_name":"ac3","codec_type":"audio","channels":6}],
                   "format":{"duration":"100.0"}}"#;
    let m = media_from_raw(&raw_from_json(json), "/x.mkv".to_string(), 1000).unwrap();
    assert_eq!(m.tracks[0].bps.confidence, Confidence::Guessed);
    assert!(m.tracks[0].bps.value > 0);
}

#[test]
fn detects_dolby_vision_profile_and_hdr10_base() {
    let m = parsed();
    match m.color {
        ColorInfo::DolbyVision { profile, has_hdr10_base } => {
            assert_eq!(profile, 8);
            assert!(has_hdr10_base);
        }
        other => panic!("ожидали Dolby Vision, получили {other:?}"),
    }
}

#[test]
fn attachments_are_kept_out_of_the_track_list() {
    let m = parsed();
    assert!(m.tracks.iter().all(|t| t.kind != TrackKind::Attachment));
}

#[test]
fn counts_seven_audio_tracks_and_seven_subtitles() {
    let m = parsed();
    assert_eq!(m.tracks.iter().filter(|t| t.kind == TrackKind::Audio).count(), 7);
    assert_eq!(m.tracks.iter().filter(|t| t.kind == TrackKind::Subtitle).count(), 7);
}

#[test]
fn parses_a_real_ffprobe_output_without_error() {
    parsed_synthetic();
}

#[test]
fn finds_one_video_track_and_two_audio_tracks() {
    let m = parsed_synthetic();
    assert_eq!(m.tracks.iter().filter(|t| t.kind == TrackKind::Video).count(), 1);
    assert_eq!(m.tracks.iter().filter(|t| t.kind == TrackKind::Audio).count(), 2);
}

#[test]
fn reads_language_and_title_of_the_first_audio_track() {
    let m = parsed_synthetic();
    let dub = m.tracks.iter().find(|t| t.kind == TrackKind::Audio).unwrap();
    assert_eq!(dub.language.as_deref(), Some("rus"));
    assert_eq!(dub.title.as_deref(), Some("Дубляж"));
}

#[test]
fn reads_duration_and_frame_rate_of_the_synthetic_clip() {
    let m = parsed_synthetic();
    assert!((m.duration_s.ms as f64 / 1000.0 - 5.0).abs() < 0.01);
    assert!((fps(&m) - 24.0).abs() < 0.01);
}

#[test]
fn color_defaults_to_sdr_without_dolby_vision_side_data() {
    let m = parsed_synthetic();
    assert_eq!(m.color, ColorInfo::Sdr);
}

#[test]
fn a_file_without_streams_is_an_error() {
    let r = media_from_raw(&raw_from_json(r#"{"streams":[]}"#), "/x.mkv".to_string(), 0);
    assert_eq!(r.err(), Some(ProbeError::Empty));
}

#[test]
fn cover_pictures_do_not_count_as_video() {
    let m = parsed();
    assert_eq!(m.tracks.len(), 15);
    assert_eq!(m.tracks.iter().filter(|t| t.kind == TrackKind::Video).count(), 1);
    assert_eq!(m.fps, FrameRate { num: 24000, den: 1001 });
    assert_eq!(m.file_bytes, 61_909_045_268);
    assert_eq!(m.path, "/tmp/thor.mkv");
}

#[test]
fn guessed_bitrates_follow_the_codec() {
    assert_eq!(guess_bps("truehd", Some(8), None), 4_500_000);
    assert_eq!(guess_bps("flac", Some(6), None), 4_200_000);
    assert_eq!(guess_bps("pcm_s24le", None, None), 1_400_000);
    assert_eq!(guess_bps("eac3", Some(6), None), 660_000);
    assert_eq!(guess_bps("ass", None, None), 100);
    assert_eq!(guess_bps("hdmv_pgs_subtitle", None, None), 30_000);
    assert_eq!(guess_bps("hevc", None, Some(2160)), 50_000_000);
    assert_eq!(guess_bps("hevc", None, Some(1080)), 12_000_000);
    assert_eq!(guess_bps("mpeg2video", None, Some(576)), 3_000_000);
    assert_eq!(guess_bps("vc1", None, None), 3_000_000);
}

#[test]
fn stream_kinds_and_cover_pictures() {
    assert_eq!(kind_of("video"), TrackKind::Video);
    assert_eq!(kind_of("audio"), TrackKind::Audio);
    assert_eq!(kind_of("subtitle"), TrackKind::Subtitle);
    assert_eq!(kind_of("data"), TrackKind::Attachment);
    assert!(is_cover_attachment(TrackKind::Video, "png"));
    assert!(!is_cover_attachment(TrackKind::Audio, "png"));
    assert!(!is_cover_attachment(TrackKind::Video, "hevc"));
    assert!(dolby_vision_compatibility_implies_hdr10_base(Some(1)));
    assert!(dolby_vision_compatibility_implies_hdr10_base(Some(2)));
    assert!(!dolby_vision_compatibility_implies_hdr10_base(Some(4)));
    assert!(!dolby_vision_compatibility_implies_hdr10_base(None));
}

#[test]
fn frame_rates_need_a_nonzero_denominator() {
    assert_eq!(parse_rational("30000/1001"), Some(FrameRate { num: 30000, den: 1001 }));
    assert_eq!(parse_rational("0/0"), None);
    assert_eq!(parse_rational("25"), None);
}

#[test]
fn profile_five_without_compatible_base_has_no_hdr10_base() {
    let mut raw = raw_from_json(UHD_REMUX);
    raw.streams[0].side_data_list = vec![RawSideData { dv_profile: Some(5), dv_bl_signal_compatibility_id: Some(0) }];
    raw.streams[0].color_transfer = None;
    assert_eq!(color_of(&raw.streams[0]), Some(ColorInfo::DolbyVision { profile: 5, has_hdr10_base: false }));
    raw.streams[0].side_data_list.clear();
    assert_eq!(color_of(&raw.streams[0]), None);
    raw.streams[0].color_transfer = Some("smpte2084".to_string());
    assert_eq!(color_of(&raw.streams[0]), Some(ColorInfo::Hdr10));
    raw.streams[0].tags.bps = Some("x".to_string());
    let e = bps_of(&raw.streams[0], "hevc");
    assert_eq!((e.value, e.confidence), (60_000_000, Confidence::Exact));
}

// --- sampler ---

fn packet_sizes(json: &str) -> Vec<String> {
    let v: serde_json::Value = serde_json::from_str(json).unwrap();
    v["packets"]
        .as_array()
        .unwrap()
        .iter()
        .map(|p| p["size"].as_str().unwrap().to_string())
        .collect()
}

#[test]
fn window_of_packets_becomes_bits_per_second() {
    let json = r#"{"packets":[{"size":"1000000"},{"size":"1000000"},{"size":"1000000"}]}"#;
    assert_eq!(window_bitrate(&packet_sizes(json), s(2000)), Some(12_000_000));
}

#[test]
fn empty_window_yields_nothing() {
    assert_eq!(window_bitrate(&packet_sizes(r#"{"packets":[]}"#), s(2000)), None);
}

#[test]
fn real_fixture_window_yields_a_plausible_bitrate() {
    let mut json = String::from("{\"packets\":[");
    for i in 0..48 {
        if i > 0 {
            json.push(',');
        }
        json.push_str(&format!("{{\"pts\":{},\"size\":\"{}\"}}", i * 1001, 2400 + (i % 7) * 150));
    }
    json.push_str("]}");
    let bps = window_bitrate(&packet_sizes(&json), s(2000)).unwrap();
    assert!(bps > 100_000 && bps < 2_000_000, "получили {bps}");
}

#[test]
fn unreadable_packet_sizes_count_as_nothing() {
    let sizes = vec!["1000".to_string(), "n/a".to_string(), "500".to_string()];
    // 1500 bytes over 3 s: 4000 bits per second.
    assert_eq!(window_bitrate(&sizes, s(3000)), Some(4000));
    assert_eq!(window_bitrate(&sizes, s(0)), None);
}

#[test]
fn sample_times_cover_the_whole_film_at_the_configured_step() {
    let sampler = FfprobeSampler::default();
    let times = sampler.sample_times(s(6_890_176));
    assert_eq!(times[0], s(0));
    assert!(times.len() >= 114 && times.len() <= 116, "точек {}", times.len());
    assert!(times.last().unwrap().ms < 6_890_176);
}

#[test]
fn a_film_shorter_than_a_window_is_not_sampled() {
    let sampler = FfprobeSampler::default();
    assert!(sampler.sample_times(s(2000)).is_empty());
    assert_eq!(sampler.sample_times(s(2001)), vec![s(0)]);
}

// --- thumbs ---

#[test]
fn previews_sit_in_the_middle_of_equal_slices() {
    assert_eq!(thumb_time(s(100_000), 0, 4), s(12_500));
    assert_eq!(thumb_time(s(100_000), 3, 4), s(87_500));
    assert_eq!(thumb_name(7), "thumb_007.jpg");
    let plan = thumb_plan(s(100_000), 2, "/tmp/th");
    assert_eq!(plan, vec![(s(25_000), "/tmp/th/thumb_000.jpg".to_string()), (s(75_000), "/tmp/th/thumb_001.jpg".to_string())]);
    let args = thumb_args(s(25_000), "/films/a.mkv", "/tmp/th/thumb_000.jpg");
    assert!(args.windows(2).any(|w| w == ["-ss", "25.000"]));
    assert_eq!(args.last().map(|a| a.as_str()), Some("/tmp/th/thumb_000.jpg"));
}

// --- preflight ---

fn input() -> PreflightInput {
    PreflightInput {
        needs_dv_tools: false,
        needs_nvenc: false,
        needs_burner: false,
        required_free_bytes: 1,
        workdir: "/tmp".to_string(),
    }
}

fn report_for(input: &PreflightInput, found: bool, avail: Option<u64>) -> pandafit::preflight::PreflightReport {
    let n = required_tools(input).len();
    preflight_report(input, &vec![found; n], found, avail)
}

#[test]
fn ffmpeg_and_ffprobe_are_always_checked() {
    let r = report_for(&input(), true, Some(10));
    assert!(r.checks.iter().any(|c| c.name.contains("ffmpeg")));
    assert!(r.checks.iter().any(|c| c.name.contains("ffprobe")));
}

#[test]
fn dv_tools_are_only_checked_when_the_chain_needs_them() {
    let r = report_for(&input(), true, Some(10));
    assert!(!r.checks.iter().any(|c| c.name.contains("dovi_tool")));
    let r = report_for(&PreflightInput { needs_dv_tools: true, ..input() }, true, Some(10));
    assert!(r.checks.iter().any(|c| c.name.contains("dovi_tool")));
    assert!(r.checks.iter().any(|c| c.name.contains("mkvmerge")));
}

#[test]
fn missing_tool_carries_an_install_hint() {
    let r = report_for(&PreflightInput { needs_dv_tools: true, ..input() }, false, Some(10));
    let c = r.checks.iter().find(|c| c.name.contains("dovi_tool")).unwrap();
    if !c.ok {
        assert!(c.detail.contains("cargo install") || c.detail.contains("apt"));
    }
}

#[test]
fn impossible_free_space_requirement_fails_the_report() {
    let r = report_for(&PreflightInput { required_free_bytes: u64::MAX, ..input() }, true, Some(10));
    assert!(!r.is_ok());
    assert!(r.checks.iter().any(|c| !c.ok && c.name.contains("место")));
}

#[test]
fn a_report_where_everything_is_there_passes() {
    let i = PreflightInput { needs_nvenc: true, needs_burner: true, ..input() };
    let r = report_for(&i, true, Some(60_000_000_000));
    assert!(r.is_ok());
    assert_eq!(r.checks.len(), 5);
    assert_eq!(r.checks[2].name, "утилита growisofs");
    assert_eq!(r.checks[4].detail, "нужно 0.0 ГБ, доступно 60.0 ГБ");
}

#[test]
fn free_space_detail_is_in_tenths_of_a_gigabyte() {
    let c = free_space_check(48_600_000_000, Some(25_049_999_999));
    assert!(!c.ok);
    assert_eq!(c.detail, "нужно 48.6 ГБ, доступно 25.0 ГБ");
    let c = free_space_check(1, None);
    assert!(!c.ok);
    assert_eq!(c.detail, "не удалось определить");
    let t = tool_check("mkvmerge", "sudo apt install mkvtoolnix", true);
    assert_eq!((t.name.as_str(), t.ok, t.detail.as_str()), ("утилита mkvmerge", true, "найдена"));
}

#[test]
fn df_output_gives_the_number_on_its_second_line() {
    assert_eq!(df_available("   Avail\n123456789\n"), Some(123_456_789));
    assert_eq!(df_available("   Avail\n  42  \r\n"), Some(42));
    assert_eq!(df_available("   Avail\n"), None);
    assert_eq!(df_available("df: /nope: No such file or directory"), None);
}

// --- runner ---

fn step(program: &str) -> Step {
    Step {
        id: "build",
        title: "тест".to_string(),
        program: program.to_string(),
        args: Vec::new(),
        progress: ProgressKind::Silent,
        produces: None,
        prepare: None,
    }
}

#[test]
fn a_failing_exit_reports_status_and_tail() {
    let e = step_exited(&step("sh"), false, "exit status: 3", vec!["беда".to_string()]);
    match e {
        ProgressEvent::Failed { step_id, message, tail } => {
            assert_eq!(step_id, "build");
            assert_eq!(message, "sh завершился с кодом exit status: 3");
            assert_eq!(tail, vec!["беда".to_string()]);
        }
        other => panic!("ожидали Failed, получили {other:?}"),
    }
    assert_eq!(step_exited(&step("true"), true, "", Vec::new()), ProgressEvent::Finished { step_id: "build" });
}

#[test]
fn stderr_tail_keeps_the_last_two_hundred_lines() {
    let mut tail = Vec::new();
    for i in 0..250 {
        let ev = stderr_line(ProgressKind::Silent, "build", format!("line {i}"), &mut tail);
        assert_eq!(ev.len(), 1);
    }
    assert_eq!(tail.len(), STDERR_TAIL_LINES);
    assert_eq!(tail[0], "line 50");
    assert_eq!(tail[199], "line 249");
}

#[test]
fn growisofs_stderr_gives_a_tick_then_the_log_line() {
    let mut tail = Vec::new();
    let ev = stderr_line(ProgressKind::Growisofs, "burn", " 45.6% done".to_string(), &mut tail);
    assert_eq!(ev.len(), 2);
    assert_eq!(ev[0], ProgressEvent::Tick { step_id: "burn", position_s: s(45_600), bytes_written: 0, speed: None });
    assert_eq!(ev[1], ProgressEvent::Log { step_id: "burn", line: " 45.6% done".to_string() });
}

#[test]
fn capped_push_drops_the_oldest_line() {
    let mut v = vec!["a".to_string(), "b".to_string()];
    push_capped(&mut v, "c".to_string(), 2);
    assert_eq!(v, vec!["b".to_string(), "c".to_string()]);
    assert_eq!(skipped_line("/out/x.hevc"), "пропущен: /out/x.hevc уже готов");
}

// --- ui ---

#[test]
fn bytes_are_shown_in_decimal_gigabytes_like_disc_labels() {
    assert_eq!(format_bytes(50_050_629_632), "50.05 ГБ");
    assert_eq!(format_bytes(551_214_080), "0.55 ГБ");
    assert_eq!(format_bytes(1_000_000), "1.0 МБ");
    assert_eq!(format_bytes(512), "512 Б");
}

#[test]
fn kilobytes_and_rounding_at_the_unit_edges() {
    assert_eq!(format_bytes(1_500), "1.5 КБ");
    assert_eq!(format_bytes(99_999_999), "100.0 МБ");
    assert_eq!(format_bytes(100_000_000), "0.10 ГБ");
    assert_eq!(format_bytes(0), "0 Б");
}

#[test]
fn timecode_is_shown_as_hours_minutes_seconds() {
    assert_eq!(format_time(s(6_890_176)), "1:54:50");
    assert_eq!(format_time(s(59_000)), "0:00:59");
}

// --- chain ---

use pandafit::chain::{ChainRun, PrepareFailure, RunnerAction, RunnerEvent, Stage};
use pandafit::compile::PreparedFile;

fn named(id: &'static str, program: &str) -> Step {
    Step { id, ..step(program) }
}

/// Drives a chain the way the process runner does, with the programs'
/// outcomes given: each started program exits with the next of `exits`
/// (success, status, error output).
fn drive(steps: Vec<Step>, exits: Vec<(bool, &str, Vec<String>)>) -> Vec<ProgressEvent> {
    let mut run = ChainRun::new(steps);
    let mut exits = exits.into_iter();
    let mut events = Vec::new();
    let mut act = RunnerAction::CheckCancel;
    loop {
        let ev = match act {
            RunnerAction::Stop => return events,
            RunnerAction::CheckCancel => RunnerEvent::Ready { cancelled: false },
            RunnerAction::CheckProduct { .. } => RunnerEvent::ProductChecked { ready: false },
            RunnerAction::Prepare { .. } => RunnerEvent::PrepareDone { failure: None },
            RunnerAction::Spawn { .. } => RunnerEvent::SpawnDone { error: None },
            RunnerAction::Wait => {
                let (success, status, tail) = exits.next().expect("лишний запуск");
                RunnerEvent::Exited { success, status: status.to_string(), tail }
            }
        };
        let (out, next) = run.on(ev);
        events.extend(out);
        act = next;
    }
}

#[test]
fn successful_step_reports_started_then_finished() {
    let events = drive(vec![step("true")], vec![(true, "exit status: 0", Vec::new())]);
    assert!(matches!(events.first(), Some(ProgressEvent::Started { .. })));
    assert!(matches!(events.last(), Some(ProgressEvent::Finished { .. })));
}

#[test]
fn failing_step_reports_failure_with_stderr_tail() {
    let mut s = step("sh");
    s.args = vec!["-c".to_string(), "echo беда 1>&2; exit 3".to_string()];
    let events = drive(vec![s], vec![(false, "exit status: 3", vec!["беда".to_string()])]);
    match events.last() {
        Some(ProgressEvent::Failed { tail, message, .. }) => {
            assert!(tail.iter().any(|l| l.contains("беда")));
            assert_eq!(message, "sh завершился с кодом exit status: 3");
        }
        other => panic!("ожидали Failed, получили {other:?}"),
    }
}

#[test]
fn a_failing_step_stops_the_chain() {
    let events = drive(
        vec![step("false"), step("true")],
        vec![(false, "exit status: 1", Vec::new()), (true, "exit status: 0", Vec::new())],
    );
    let starts = events.iter().filter(|e| matches!(e, ProgressEvent::Started { .. })).count();
    assert_eq!(starts, 1, "второй шаг не должен был запуститься");
}

#[test]
fn an_exhausted_chain_stops_and_stays_stopped() {
    let mut run = ChainRun::new(vec![named("build", "true")]);
    run.on(RunnerEvent::Ready { cancelled: false });
    run.on(RunnerEvent::SpawnDone { error: None });
    let (out, act) = run.on(RunnerEvent::Exited { success: true, status: "exit status: 0".to_string(), tail: Vec::new() });
    assert_eq!(out, vec![ProgressEvent::Finished { step_id: "build" }]);
    assert!(matches!(act, RunnerAction::CheckCancel));
    let (out, act) = run.on(RunnerEvent::Ready { cancelled: false });
    assert!(out.is_empty());
    assert!(matches!(act, RunnerAction::Stop));
    assert_eq!(run.stage, Stage::Over);
    let (out, act) = run.on(RunnerEvent::ProductChecked { ready: true });
    assert!(out.is_empty() && matches!(act, RunnerAction::Stop));
}

#[test]
fn cancellation_before_a_step_ends_the_chain() {
    let mut run = ChainRun::new(vec![named("build", "sleep")]);
    let (out, act) = run.on(RunnerEvent::Ready { cancelled: true });
    assert_eq!(out, vec![ProgressEvent::Cancelled]);
    assert!(matches!(act, RunnerAction::Stop));
    let mut run = ChainRun::new(vec![named("build", "sleep")]);
    run.on(RunnerEvent::Ready { cancelled: false });
    run.on(RunnerEvent::SpawnDone { error: None });
    let (out, _) = run.on(RunnerEvent::Cancelled);
    assert_eq!(out, vec![ProgressEvent::Cancelled]);
}

#[test]
fn a_ready_product_skips_its_step() {
    let mut s = named("dv_extract", "dovi_tool");
    s.produces = Some("/out/rpu.bin".to_string());
    let mut run = ChainRun::new(vec![s]);
    let (out, act) = run.on(RunnerEvent::Ready { cancelled: false });
    assert!(out.is_empty());
    assert!(matches!(act, RunnerAction::CheckProduct { ref path } if path == "/out/rpu.bin"));
    let (out, act) = run.on(RunnerEvent::ProductChecked { ready: true });
    assert_eq!(
        out,
        vec![
            ProgressEvent::Log { step_id: "dv_extract", line: "пропущен: /out/rpu.bin уже готов".to_string() },
            ProgressEvent::Finished { step_id: "dv_extract" },
        ]
    );
    assert!(matches!(act, RunnerAction::CheckCancel));
}

#[test]
fn the_configuration_file_comes_before_the_program() {
    let mut s = named("dv_trim", "dovi_tool");
    s.prepare = Some(PreparedFile { path: "/out/edit.json".to_string(), contents: "{}".to_string() });
    let mut run = ChainRun::new(vec![s.clone()]);
    let (out, act) = run.on(RunnerEvent::Ready { cancelled: false });
    assert!(out.is_empty());
    assert!(matches!(act, RunnerAction::Prepare { ref path, ref contents } if path == "/out/edit.json" && contents == "{}"));
    let (out, act) = run.on(RunnerEvent::PrepareDone { failure: None });
    assert!(matches!(out.as_slice(), [ProgressEvent::Started { step_id: "dv_trim", .. }]));
    assert!(matches!(act, RunnerAction::Spawn { .. }));

    let mut run = ChainRun::new(vec![s]);
    run.on(RunnerEvent::Ready { cancelled: false });
    let (out, act) = run.on(RunnerEvent::PrepareDone { failure: Some(PrepareFailure::Write { error: "нет места".to_string() }) });
    match out.as_slice() {
        [ProgressEvent::Failed { message, .. }] => {
            assert_eq!(message, "не удалось записать конфигурацию /out/edit.json: нет места")
        }
        other => panic!("ожидали Failed, получили {other:?}"),
    }
    assert!(matches!(act, RunnerAction::Stop));
}

#[test]
fn a_program_that_cannot_start_fails_the_step() {
    let mut run = ChainRun::new(vec![named("build", "nosuchprogram")]);
    run.on(RunnerEvent::Ready { cancelled: false });
    let (out, act) = run.on(RunnerEvent::SpawnDone { error: Some("No such file or directory".to_string()) });
    match out.as_slice() {
        [ProgressEvent::Failed { message, .. }] => {
            assert_eq!(message, "не удалось запустить nosuchprogram: No such file or directory")
        }
        other => panic!("ожидали Failed, получили {other:?}"),
    }
    assert!(matches!(act, RunnerAction::Stop));
}

#[test]
fn budget_captions_name_the_verdict_and_the_target() {
    let mut b = SizeBreakdown {
        tracks: Vec::new(),
        container: Estimated::sampled(2_000_000),
        total: Estimated::sampled(48_593_250_304),
        total_upper: 48_605_435_904,
        capacity_bytes: 50_050_629_632,
        usable_bytes: 49_041_228_432,
        verdict: Verdict::Fits,
    };
    assert_eq!(verdict_caption(&b), "влезает, запас 0.45 ГБ");
    assert_eq!(total_caption(&b), "48.59 ГБ из 50.05 ГБ");
    b.verdict = Verdict::Overflow { excess: 12_000_000_000 };
    assert_eq!(verdict_caption(&b), "не влезает, лишних 12.00 ГБ");
    b.verdict = Verdict::Tight;
    assert_eq!(verdict_caption(&b), "влезает впритык — лучше убрать ещё дорожку");
    assert_eq!(confidence_mark(Confidence::Exact), "•");
    assert_eq!(confidence_mark(Confidence::Guessed), "~");
    assert_eq!(level_prefix(Level::Blocker), "стоп");
    assert_eq!(target_caption(&Target::drive("/dev/sr0".to_string(), 25_025_314_816)), "диск в /dev/sr0 — 25.03 ГБ");
    assert_eq!(target_caption(&Target::preset("BD-R DL 50 ГБ".to_string(), 50_050_629_632)), "BD-R DL 50 ГБ — 50.05 ГБ");
}

#[test]
fn folder_and_wait_failures_end_the_run() {
    let mut s = named("dv_trim", "dovi_tool");
    s.prepare = Some(PreparedFile { path: "/out/.pandafit/edit.json".to_string(), contents: "{}".to_string() });
    let mut run = ChainRun::new(vec![s]);
    run.on(RunnerEvent::Ready { cancelled: false });
    let (out, act) = run.on(RunnerEvent::PrepareDone {
        failure: Some(PrepareFailure::Folder { folder: "/out/.pandafit".to_string(), error: "доступ запрещён".to_string() }),
    });
    match out.as_slice() {
        [ProgressEvent::Failed { message, tail, .. }] => {
            assert_eq!(message, "не удалось создать папку /out/.pandafit: доступ запрещён");
            assert!(tail.is_empty());
        }
        other => panic!("ожидали Failed, получили {other:?}"),
    }
    assert!(matches!(act, RunnerAction::Stop));

    let mut run = ChainRun::new(vec![named("build", "ffmpeg")]);
    run.on(RunnerEvent::Ready { cancelled: false });
    run.on(RunnerEvent::SpawnDone { error: None });
    let (out, act) = run.on(RunnerEvent::WaitFailed { message: "interrupted".to_string() });
    assert!(matches!(out.as_slice(), [ProgressEvent::Failed { step_id: "build", message, .. }] if message == "interrupted"));
    assert!(matches!(act, RunnerAction::Stop));
}

#[test]
fn an_exact_half_rounds_to_the_even_digit() {
    assert_eq!(format_bytes(1_250), "1.2 КБ");
    assert_eq!(format_bytes(1_350), "1.4 КБ");
    assert_eq!(format_bytes(1_125_000_000), "1.12 ГБ");
    assert_eq!(format_bytes(1_750), "1.8 КБ");
    assert_eq!(format_bytes(2_250_000), "2.2 МБ");
    let c = free_space_check(1_250_000_000, Some(1_350_000_000));
    assert_eq!(c.detail, "нужно 1.2 ГБ, доступно 1.4 ГБ");
}
