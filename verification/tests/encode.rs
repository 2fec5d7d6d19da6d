//! The ffmpeg argument vector, preflight's judgement of a probe run, and the
//! parsers of what ffmpeg prints.

use avz::config::value::{Codec, Seconds};
use avz::encode::{
    aborted, check_frame_size, complaint, ending, encoders_from, ffmpeg_args, parse_encoders,
    input_closed, parse_version, part_path, preflight_from, remember_line, require_encoder,
    unfinished, unplaced, unstartable, unwaitable, video_encoder, EncodeSettings, Ending, ProbeRun,
    STDERR_TAIL_LINES,
};
use avz::error::Error;

const RELEASE_BANNER: &str = "ffmpeg version 7.1.5 Copyright (c) 2000-2026 the FFmpeg developers\nbuilt with gcc 15 (GCC)\n";

const GIT_BANNER: &str = "ffmpeg version N-109212-g1a2b3c4de Copyright (c) 2000-2026 the FFmpeg developers\n";

const ENCODERS: &str = "Encoders:
 V..... = Video
 A..... = Audio
 S..... = Subtitle
 .F.... = Frame-level multithreading
 ..S... = Slice-level multithreading
 ...X.. = Codec is experimental
 ....B. = Supports draw_horiz_band
 .....D = Supports direct rendering method 1
 ------
 V....D libx264              libx264 H.264 / AVC / MPEG-4 AVC (codec h264)
 V....D libx265              libx265 H.265 / HEVC (codec hevc)
 V..... libsvtav1            SVT-AV1 encoder (codec av1)
 A....D libmp3lame           libmp3lame MP3 (codec mp3)
 S..... srt                  SubRip subtitle
";

fn settings() -> EncodeSettings {
    EncodeSettings {
        width: 320,
        height: 180,
        fps: 30,
        codec: Codec::X264,
        quality: 18,
        audio_start: Seconds::from_nanos(0),
    }
}

fn args(settings: &EncodeSettings) -> Vec<String> {
    ffmpeg_args(settings, "song.mp3", "out.mp4.part").expect("x264 at a legal size builds an argv")
}

fn contains_run(argv: &[String], needle: &[&str]) -> bool {
    argv.windows(needle.len()).any(|window| window == needle)
}

#[test]
fn every_listed_encoder_is_named_and_the_legend_is_not() {
    let listed = parse_encoders(ENCODERS);

    for encoder in ["libx264", "libx265", "libsvtav1", "libmp3lame", "srt"] {
        assert!(listed.iter().any(|e| e == encoder), "{encoder} is listed: {listed:?}");
    }
    assert_eq!(listed.len(), 5, "the legend is not an encoder: {listed:?}");
}

#[test]
fn an_ffmpeg_without_an_encoder_does_not_claim_it() {
    let without_x265 = ENCODERS.replace(" V....D libx265", " V....D libnope");
    assert!(!parse_encoders(&without_x265).iter().any(|e| e == "libx265"));
}

#[test]
fn output_from_another_program_lists_no_encoders() {
    assert!(parse_encoders("GNU coreutils echo 9.5\n").is_empty());
    assert!(parse_encoders("").is_empty());
}

#[test]
fn an_encoder_listed_twice_is_named_once() {
    let twice = format!("{ENCODERS} V....D libx264              again\n");
    assert_eq!(parse_encoders(&twice).len(), 5);
}

#[test]
fn release_version_banner_is_parsed() {
    assert_eq!(parse_version(RELEASE_BANNER).as_deref(), Some("7.1.5"));
}

#[test]
fn git_build_version_banner_is_parsed() {
    assert_eq!(parse_version(GIT_BANNER).as_deref(), Some("N-109212-g1a2b3c4de"));
}

#[test]
fn a_banner_from_another_program_has_no_version() {
    assert_eq!(parse_version("GNU coreutils echo 9.5\n"), None);
    assert_eq!(parse_version(""), None);
    assert_eq!(parse_version("ffmpeg version\n"), None);
}

fn finished(success: bool, stdout: &str, stderr: &str) -> ProbeRun {
    ProbeRun::Finished {
        success,
        status: if success { "exit status: 0".to_owned() } else { "exit status: 3".to_owned() },
        stdout: stdout.to_owned(),
        stderr: stderr.to_owned(),
    }
}

#[test]
fn missing_ffmpeg_fails_with_the_fedora_install_hint() {
    let absent = "/nonexistent/avz-preflight-no-such-ffmpeg";
    let err = preflight_from(absent, ProbeRun::NotFound("No such file or directory".to_owned()))
        .expect_err("an absent binary cannot preflight");

    assert!(matches!(err, Error::Encode(_)), "got {err:?}");
    let msg = err.to_string();
    assert!(msg.contains(absent), "message must name the binary: {msg}");
    assert!(msg.contains("sudo dnf install ffmpeg"), "message must say how to install ffmpeg: {msg}");
}

#[test]
fn a_working_ffmpeg_reports_its_version() {
    let ffmpeg = preflight_from("/usr/bin/ffmpeg", finished(true, "ffmpeg version 7.1.5 Copyright (c) 2000-2026\n", ""))
        .expect("a real-looking ffmpeg preflights");
    assert_eq!(ffmpeg.program(), "/usr/bin/ffmpeg");
    assert_eq!(ffmpeg.version(), "7.1.5");
}

#[test]
fn a_binary_that_is_not_ffmpeg_is_rejected() {
    let err = preflight_from("echo", finished(true, "GNU coreutils echo 9.5\n", ""))
        .expect_err("a non-ffmpeg binary cannot preflight");
    assert!(err.to_string().contains("did not identify itself as ffmpeg"), "{err:?}");
}

#[test]
fn an_ffmpeg_that_exits_nonzero_is_rejected() {
    let err = preflight_from("ffmpeg", finished(false, "", "\n  broken build  \nmore\n"))
        .expect_err("a failing binary cannot preflight");
    let msg = err.to_string();
    assert_eq!(msg, "encode failed: `ffmpeg -version` failed (exit status: 3): broken build");
}

#[test]
fn the_encoders_ffmpeg_reports_are_the_encoders_avz_sees() {
    let ffmpeg = preflight_from("ffmpeg", finished(true, RELEASE_BANNER, "")).expect("preflight");
    let listed = encoders_from(&ffmpeg, finished(true, ENCODERS, "")).expect("a listing is parsed");

    assert!(listed.iter().any(|e| e == "libx264"), "{listed:?}");
    assert!(listed.iter().any(|e| e == "libsvtav1"), "{listed:?}");
    assert!(!listed.iter().any(|e| e == "libaom-av1"), "{listed:?}");
}

#[test]
fn an_ffmpeg_that_lists_no_encoders_is_rejected() {
    let ffmpeg = preflight_from("ffmpeg", finished(true, RELEASE_BANNER, "")).expect("preflight");
    let err = encoders_from(&ffmpeg, finished(true, "Encoders:\n", "")).expect_err("empty");
    assert!(matches!(err, Error::Encode(_)), "got {err:?}");
    assert!(err.to_string().contains("no encoders"), "{err:?}");
}

#[test]
fn an_encoder_probe_that_exits_nonzero_is_rejected() {
    let ffmpeg = preflight_from("ffmpeg", finished(true, RELEASE_BANNER, "")).expect("preflight");
    let err = encoders_from(&ffmpeg, finished(false, "", "Unrecognized option\n")).expect_err("failing");
    assert!(err.to_string().contains("-encoders"), "{err:?}");
    assert!(err.to_string().contains("Unrecognized option"), "{err:?}");
}

#[test]
fn a_program_that_cannot_be_executed_is_rejected() {
    let err = preflight_from("/tmp/ffmpeg", ProbeRun::Unstartable("Permission denied (os error 13)".to_owned()))
        .expect_err("a non-executable file cannot preflight");
    assert!(matches!(err, Error::Encode(_)), "got {err:?}");
    assert!(err.to_string().contains("/tmp/ffmpeg"), "{err:?}");
}

#[test]
fn video_arrives_as_rawvideo_rgba_on_stdin_at_the_configured_size_and_rate() {
    let argv = args(&settings());
    assert!(
        contains_run(&argv, &["-f", "rawvideo", "-pix_fmt", "rgba", "-s", "320x180", "-r", "30", "-i", "pipe:0"]),
        "{argv:?}"
    );
}

#[test]
fn the_audio_stream_is_copied_and_never_reencoded() {
    let argv = args(&settings());
    assert!(contains_run(&argv, &["-c:a", "copy"]), "{argv:?}");
    assert!(contains_run(&argv, &["-i", "song.mp3"]), "{argv:?}");
    assert!(contains_run(&argv, &["-map", "1:a"]), "{argv:?}");
    for banned in ["libmp3lame", "aac", "libopus", "libfdk_aac", "-b:a"] {
        assert!(!argv.iter().any(|arg| arg == banned), "`{banned}` re-encodes the audio: {argv:?}");
    }
}

#[test]
fn frames_are_written_to_the_part_file_never_straight_to_the_output() {
    let argv = args(&settings());
    assert_eq!(argv.last().map(String::as_str), Some("out.mp4.part"), "{argv:?}");
    assert!(!argv.iter().any(|arg| arg == "out.mp4"), "{argv:?}");
}

#[test]
fn the_output_muxer_is_named_because_the_part_suffix_hides_it() {
    let argv = args(&settings());
    let muxer = argv.iter().rposition(|arg| arg == "-f").expect("the output format is named");
    assert_eq!(argv.get(muxer + 1).map(String::as_str), Some("mp4"), "{argv:?}");
}

#[test]
fn quality_is_the_crf_and_the_pixel_format_is_broadly_playable() {
    let argv = args(&EncodeSettings { quality: 23, ..settings() });
    assert!(contains_run(&argv, &["-c:v", "libx264"]), "{argv:?}");
    assert!(contains_run(&argv, &["-crf", "23"]), "{argv:?}");
    assert!(contains_run(&argv, &["-pix_fmt", "yuv420p"]), "{argv:?}");
    assert!(contains_run(&argv, &["-movflags", "+faststart"]), "{argv:?}");
}

#[test]
fn a_deferred_codec_is_refused_and_names_the_one_that_works() {
    for codec in [Codec::X265, Codec::Av1] {
        let err = ffmpeg_args(&EncodeSettings { codec, ..settings() }, "song.mp3", "out.mp4.part")
            .expect_err("x264 only");
        assert!(matches!(err, Error::Encode(_)), "got {err:?}");
        let msg = err.to_string();
        assert!(msg.contains(codec.as_str()), "{msg}");
        assert!(msg.contains("x264"), "{msg}");
        assert!(video_encoder(codec).is_err());
    }
    assert_eq!(video_encoder(Codec::X264).expect("x264 encodes"), "libx264");
}

#[test]
fn an_odd_frame_dimension_is_refused_before_ffmpeg_starts() {
    for (width, height) in [(321, 180), (320, 181)] {
        let err = ffmpeg_args(&EncodeSettings { width, height, ..settings() }, "song.mp3", "out.mp4.part")
            .expect_err("yuv420p needs even dimensions");
        assert!(matches!(err, Error::Encode(_)), "got {err:?}");
        assert!(err.to_string().contains("even"), "{err:?}");
    }
}

#[test]
fn a_zero_dimension_or_frame_rate_is_refused() {
    for s in [
        EncodeSettings { width: 0, ..settings() },
        EncodeSettings { height: 0, ..settings() },
        EncodeSettings { fps: 0, ..settings() },
    ] {
        let err = ffmpeg_args(&s, "song.mp3", "out.mp4.part").expect_err("not a video");
        assert!(matches!(err, Error::Encode(_)), "got {err:?}");
    }
}

#[test]
fn a_sampled_render_seeks_the_audio_input_and_still_copies_the_stream() {
    let argv = args(&EncodeSettings { audio_start: Seconds::from_nanos(45_000_000_000), ..settings() });
    assert!(contains_run(&argv, &["-ss", "45.000000", "-i", "song.mp3"]), "{argv:?}");
    assert!(contains_run(&argv, &["-c:a", "copy"]), "{argv:?}");
    let video_input = argv.iter().position(|arg| arg == "pipe:0").expect("stdin");
    let seek = argv.iter().position(|arg| arg == "-ss").expect("the seek");
    assert!(seek > video_input, "{argv:?}");
}

#[test]
fn a_fractional_audio_start_keeps_its_precision() {
    let argv = args(&EncodeSettings { audio_start: Seconds::from_nanos(1_033_333_333), ..settings() });
    assert!(contains_run(&argv, &["-ss", "1.033333"]), "{argv:?}");
}

#[test]
fn a_whole_song_render_does_not_seek_the_audio() {
    let argv = args(&settings());
    assert!(!argv.iter().any(|arg| arg == "-ss"), "{argv:?}");
}

#[test]
fn a_frame_is_four_bytes_per_pixel() {
    assert_eq!(settings().frame_bytes(), 320 * 180 * 4);
}

#[test]
fn the_part_file_is_the_output_path_plus_a_suffix() {
    assert_eq!(part_path("/tmp/out.mp4"), "/tmp/out.mp4.part");
    assert_eq!(part_path("noext"), "noext.part");
}

#[test]
fn a_silent_ffmpeg_gets_no_complaint_appended() {
    assert_eq!(complaint(&Vec::new()), "");
    assert_eq!(complaint(&vec!["one".to_owned(), "two".to_owned()]), " — ffmpeg said: one; two");
}

#[test]
fn a_wrong_sized_frame_is_refused() {
    assert!(check_frame_size(230_400, 230_400).is_ok());
    let err = check_frame_size(10, 230_400).expect_err("sheared");
    assert_eq!(err.to_string(), "encode failed: frame is 10 bytes, expected 230400 for one RGBA frame");
}

#[test]
fn a_failed_encode_says_what_ffmpeg_said() {
    let tail = vec!["Unknown encoder".to_owned()];
    assert_eq!(
        unfinished("exit status: 1", &tail).to_string(),
        "encode failed: ffmpeg exited exit status: 1 without finishing the video — ffmpeg said: Unknown encoder"
    );
    assert!(aborted(Some("exit status: 1"), "ffmpeg", "Broken pipe", &tail).to_string().contains("while avz was still sending frames"));
    assert!(aborted(None, "ffmpeg", "Broken pipe", &Vec::new()).to_string().contains("cannot send a frame to `ffmpeg`: Broken pipe"));
}

fn release_ffmpeg() -> avz::encode::Ffmpeg {
    preflight_from(
        "ffmpeg",
        ProbeRun::Finished {
            success: true,
            status: "exit status: 0".to_owned(),
            stdout: RELEASE_BANNER.to_owned(),
            stderr: String::new(),
        },
    )
    .expect("a release banner is ffmpeg")
}

#[test]
fn an_encoder_is_required_only_of_a_codec_avz_encodes() {
    let ffmpeg = release_ffmpeg();
    let listed = parse_encoders(ENCODERS);
    assert_eq!(require_encoder(&ffmpeg, &listed, Codec::X264), Ok(()));

    let Err(Error::Encode(text)) = require_encoder(&ffmpeg, &listed, Codec::Av1) else {
        panic!("av1 is not encoded yet");
    };
    assert!(text.contains("`av1` is not supported yet"), "{text}");

    let without = parse_encoders(&ENCODERS.replace(" V....D libx264", " V....D libnope"));
    let Err(Error::Encode(text)) = require_encoder(&ffmpeg, &without, Codec::X264) else {
        panic!("an ffmpeg without libx264 cannot encode x264");
    };
    assert!(text.starts_with("`ffmpeg` cannot encode with `libx264`"), "{text}");
}

#[test]
fn the_stderr_tail_keeps_the_last_lines_that_say_something() {
    let mut tail = Vec::new();
    for k in 0..12 {
        remember_line(&mut tail, format!("line {k}"));
        remember_line(&mut tail, "   ".to_owned());
    }
    assert_eq!(tail.len(), STDERR_TAIL_LINES);
    assert_eq!(tail.first().map(String::as_str), Some("line 4"));
    assert_eq!(tail.last().map(String::as_str), Some("line 11"));
}

#[test]
fn every_encoder_failure_names_what_failed() {
    assert_eq!(
        unstartable("ffmpeg", "permission denied"),
        Error::Encode("cannot run `ffmpeg`: permission denied".to_owned())
    );
    assert_eq!(
        input_closed(),
        Error::Encode("cannot write a frame: ffmpeg's input is already closed".to_owned())
    );
    assert_eq!(
        unwaitable("ffmpeg", "interrupted"),
        Error::Encode("cannot wait for `ffmpeg`: interrupted".to_owned())
    );
    assert_eq!(
        unplaced("out.mp4.part", "out.mp4", "no space left"),
        Error::Encode("cannot move `out.mp4.part` into place at `out.mp4`: no space left".to_owned())
    );
}

#[test]
fn the_encoders_come_out_in_ascending_order_each_once() {
    let doubled = format!("{ENCODERS} V....D libx264              libx264 again\n");
    assert_eq!(
        parse_encoders(&doubled),
        vec!["libmp3lame", "libsvtav1", "libx264", "libx265", "srt"]
    );
}

#[test]
fn only_a_clean_exit_moves_the_part_file_into_place() {
    let tail = vec!["Unknown encoder".to_owned()];
    assert!(matches!(ending(true, "exit status: 0", &tail), Ending::Place));
    match ending(false, "exit status: 1", &tail) {
        Ending::Discard(err) => assert_eq!(
            err.to_string(),
            "encode failed: ffmpeg exited exit status: 1 without finishing the video — ffmpeg said: Unknown encoder"
        ),
        Ending::Place => panic!("a failed encode was placed"),
    }
}
