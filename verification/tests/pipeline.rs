//! The arithmetic and the words of a render.

use avz::analysis::{no_audio_track, no_codec, nothing_decoded, rate_changed};
use avz::config::value::{FontChoice, SampleRange, Seconds};
use avz::error::Error;
use avz::pipeline::{
    audio_start, frame_at, frame_range, needs_upscaling, no_ink_warning, no_words_warning,
    upscale_warning, AdapterKind, FrameRange, RenderSummary, SOFTWARE_FALLBACK_WARNING,
};

fn sample(start: &str, end: &str) -> SampleRange {
    SampleRange::parse(&format!("{start}..{end}")).expect("a sample range")
}

fn at(s: &str) -> Seconds {
    Seconds::parse(s).expect("a duration")
}

fn is_actionable(warning: &str) -> bool {
    warning.contains('—') && warning.contains('`')
}

#[test]
fn warning_text_for_software_fallback_matches_contract() {
    let warning = SOFTWARE_FALLBACK_WARNING;
    assert!(warning.contains("no GPU adapter found"), "{warning}");
    assert!(warning.contains("software rendering"), "{warning}");
    assert!(warning.contains("fps"), "the cost is named: {warning}");
    assert!(warning.contains("`--adapter software` to silence this"), "{warning}");
    assert!(is_actionable(warning));
}

#[test]
fn every_pipeline_warning_names_a_consequence_and_an_action() {
    let warnings = [
        SOFTWARE_FALLBACK_WARNING.to_owned(),
        no_words_warning("song.mp3"),
        no_ink_warning(&FontChoice::Auto),
        no_ink_warning(&FontChoice::Path("x.ttf".to_owned())),
        upscale_warning("art/forest.png", (800, 600), (1920, 1080)),
    ];
    for warning in warnings {
        assert!(is_actionable(&warning), "not actionable: {warning}");
    }
}

#[test]
fn a_background_smaller_than_the_frame_warns_that_it_will_be_upscaled() {
    let warning = upscale_warning("art/forest.png", (800, 600), (1920, 1080));
    assert!(warning.contains("art/forest.png"), "{warning}");
    assert!(warning.contains("800x600"), "the image size: {warning}");
    assert!(warning.contains("1920x1080"), "the frame size: {warning}");
    assert!(warning.contains("background.blur"), "{warning}");
}

#[test]
fn only_an_image_short_of_the_frame_on_some_axis_is_upscaled() {
    assert!(!needs_upscaling((1920, 1080), (1920, 1080)));
    assert!(!needs_upscaling((3840, 2160), (1920, 1080)));
    assert!(needs_upscaling((1920, 1079), (1920, 1080)));
    assert!(needs_upscaling((1919, 1080), (1920, 1080)));
    assert!(needs_upscaling((4000, 100), (1920, 1080)), "a wide sliver is still stretched vertically");
}

#[test]
fn no_sample_renders_every_frame_of_the_song() {
    let range = frame_range(150, 30, None).expect("a whole song is a valid range");
    assert_eq!(range, FrameRange { start: 0, end: 150 });
    assert_eq!(range.len(), 150);
}

#[test]
fn a_bare_duration_samples_the_start_of_the_song() {
    let range = frame_range(300, 30, Some(SampleRange::parse("2s").expect("a sample range")))
        .expect("the first two seconds exist");
    assert_eq!(range, FrameRange { start: 0, end: 60 });
}

#[test]
fn a_sample_range_selects_the_frames_that_cover_it() {
    let range = frame_range(300, 30, Some(sample("0:01", "0:03"))).expect("a valid range");
    assert_eq!(range, FrameRange { start: 30, end: 90 });
    assert_eq!(range.len(), 60);
}

#[test]
fn a_sample_boundary_lands_on_the_frame_whose_timestamp_it_names() {
    assert_eq!(frame_at(at("0s"), 30), 0);
    assert_eq!(frame_at(at("1s"), 30), 30);
    assert_eq!(frame_at(at("1.1s"), 30), 33);
    assert_eq!(frame_at(at("45s"), 30), 1_350);
    assert_eq!(frame_at(at("2.5s"), 24), 60);
    assert_eq!(frame_at(at("1.001s"), 30), 31);
}

#[test]
fn a_sample_that_overruns_the_song_is_clamped_to_its_last_frame() {
    let range = frame_range(150, 30, Some(SampleRange::parse("60s").expect("a sample range")))
        .expect("an overrunning sample renders what exists");
    assert_eq!(range, FrameRange { start: 0, end: 150 });
}

#[test]
fn a_sample_that_starts_after_the_song_ends_is_a_config_error() {
    let err = frame_range(150, 30, Some(sample("6s", "8s"))).expect_err("nothing at 6 seconds");
    assert!(matches!(err, Error::Config(_)), "got {err:?}");
    let msg = err.to_string();
    assert!(msg.contains("6.00s"), "must quote the sample start: {msg}");
    assert!(msg.contains("5.00s"), "must say how long the song is: {msg}");
}

#[test]
fn a_sample_shorter_than_one_frame_is_a_config_error() {
    let err = frame_range(150, 1, Some(sample("100ms", "200ms"))).expect_err("no frame at 1 fps");
    assert!(matches!(err, Error::Config(_)), "got {err:?}");
    assert!(err.to_string().contains("shorter than one frame"), "{err:?}");
    assert!(err.to_string().contains("0.100s..0.200s"), "{err:?}");
}

#[test]
fn the_audio_starts_at_the_first_rendered_frames_timestamp() {
    let range = frame_range(300, 30, Some(sample("1.001s", "3s"))).expect("a valid range");
    assert_eq!(range.start, 31);
    assert_eq!(audio_start(range, 30).as_nanos(), 1_033_333_333);
}

#[test]
fn a_whole_song_render_starts_the_audio_at_the_beginning() {
    let range = frame_range(150, 30, None).expect("a whole song");
    assert_eq!(audio_start(range, 30).as_nanos(), 0);
}

#[test]
fn a_summary_plays_for_as_long_as_its_frames_last() {
    let summary = RenderSummary {
        frames: 60,
        fps: 30,
        adapter: AdapterKind::Software,
        output: "out.mp4".to_owned(),
    };
    assert_eq!(summary.duration().as_nanos(), 2_000_000_000);
}

#[test]
fn a_sample_range_always_ends_after_it_starts() {
    let range = sample("0:45", "1:45");
    assert_eq!(range.start, at("45s"));
    assert_eq!(range.duration_nanos(), 60_000_000_000);
}

#[test]
fn an_undecodable_song_is_named_in_every_message() {

    assert_eq!(no_audio_track("a.mp3"), Error::Input("a.mp3: no audio track".to_owned()));
    assert_eq!(
        no_codec("a.mp3"),
        Error::Input("a.mp3: the audio track declares no codec; avz reads mp3".to_owned())
    );
    assert_eq!(
        rate_changed("a.mp3", 44100, 48000),
        Error::Input("a.mp3: sample rate changes from 44100 Hz to 48000 Hz mid-stream".to_owned())
    );
    assert_eq!(
        nothing_decoded("a.mp3"),
        Error::Input("a.mp3: no audio could be decoded from this file".to_owned())
    );
}
