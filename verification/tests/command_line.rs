//! What the command line prints: progress lines, the probe report, the
//! render summary, and the preset tables.

use avz::cli::render::overwrite_refused;
use avz::error::Error;
use avz::cli::presets::{describe, list, ParamRow, SchemaTable};
use avz::cli::probe::{format_bytes, format_channels, format_cover, format_duration, report};
use avz::cli::progress::{announce, start_line, template, LineState, Mode, BAR_TEMPLATE, SPINNER_TEMPLATE};
use avz::cli::render::{
    cli_layer, default_output, describe as describe_render, overwrites_input, same_path,
    sample_resolution_is_a_default, sample_resolution_warning, RenderFlags,
};
use avz::config::layer::ConfigLayer;
use avz::config::resolve::Sources;
use avz::config::value::{Codec, Palette, Resolution, Seconds, Seed};
use avz::cli::args::{config_command, ConfigArgs};
use avz::exit::{code_for, Exit};
use avz::meta::{CoverArt, TrackMeta};
use avz::pipeline::{AdapterKind, RenderSummary};
use avz::progress::Phase;
use avz::registry::{presets, PresetInfo};

// ---------------------------------------------------------------------------
// Progress
// ---------------------------------------------------------------------------

#[test]
fn a_bar_is_drawn_only_on_a_terminal_and_never_when_quiet() {
    assert_eq!(Mode::select(false, true), Mode::Bars);
    assert_eq!(Mode::select(false, false), Mode::Lines);
    assert_eq!(Mode::select(true, true), Mode::Silent);
    assert_eq!(Mode::select(true, false), Mode::Silent);
}

#[test]
fn the_rendering_bar_shows_the_phase_frame_count_render_fps_and_eta() {
    for placeholder in ["{msg", "{pos}", "{len}", "{fps}", "{eta}"] {
        assert!(BAR_TEMPLATE.contains(placeholder), "{placeholder}: {BAR_TEMPLATE}");
    }
    assert!(SPINNER_TEMPLATE.contains("{msg"), "{SPINNER_TEMPLATE}");
}

#[test]
fn a_phase_of_unknown_length_gets_a_spinner_rather_than_an_empty_bar() {
    assert_eq!(template(Some(60)), BAR_TEMPLATE);
    assert_eq!(template(None), SPINNER_TEMPLATE);
}

#[test]
fn a_phase_start_line_names_the_phase_and_its_frame_count() {
    assert_eq!(start_line(Phase::Rendering, Some(60)), "rendering 60 frames");
    assert_eq!(start_line(Phase::Analyzing, None), "analyzing");
}

#[test]
fn the_line_fallback_reports_once_per_decile_of_progress() {
    let mut state = LineState::start(Some(60));
    let lines: Vec<String> = (0..60).filter_map(|_| state.advance(Phase::Rendering, 1)).collect();
    assert_eq!(
        lines,
        [
            "rendering 10% (6/60)",
            "rendering 20% (12/60)",
            "rendering 30% (18/60)",
            "rendering 40% (24/60)",
            "rendering 50% (30/60)",
            "rendering 60% (36/60)",
            "rendering 70% (42/60)",
            "rendering 80% (48/60)",
            "rendering 90% (54/60)",
            "rendering 100% (60/60)",
        ],
    );
}

#[test]
fn the_line_fallback_always_ends_at_a_hundred_percent() {
    for total in [1_u64, 3, 7, 60, 9_001] {
        let mut state = LineState::start(Some(total));
        let lines: Vec<String> = (0..total).filter_map(|_| state.advance(Phase::Rendering, 1)).collect();
        assert_eq!(
            lines.last().map(String::as_str),
            Some(format!("rendering 100% ({total}/{total})").as_str()),
            "a phase of {total} frames never reported finishing",
        );
    }
}

#[test]
fn a_phase_of_unknown_length_reports_no_percentage() {
    let mut state = LineState::start(None);
    assert_eq!(state.advance(Phase::Analyzing, 1), None);
    assert_eq!(state.advance(Phase::Analyzing, 1_000), None);
}

#[test]
fn progress_beyond_the_total_still_reads_a_hundred_percent() {
    let mut state = LineState::start(Some(10));
    assert_eq!(state.advance(Phase::Rendering, 999), Some("rendering 100% (10/10)".to_owned()));
    assert_eq!(state.advance(Phase::Rendering, 1), None, "a finished phase says nothing more");
}

#[test]
fn a_hardware_adapter_is_announced_as_a_real_gpu() {
    assert_eq!(
        announce(AdapterKind::Hardware, "AMD Radeon 780M"),
        "rendering on AMD Radeon 780M — hardware GPU"
    );
}

#[test]
fn a_software_adapter_is_announced_as_cpu_emulation() {
    assert_eq!(
        announce(AdapterKind::Software, "llvmpipe (LLVM 19.1.7, 256 bits)"),
        "rendering on llvmpipe (LLVM 19.1.7, 256 bits) — software rasterizer, no GPU"
    );
}

// ---------------------------------------------------------------------------
// Probe
// ---------------------------------------------------------------------------

fn tagged() -> TrackMeta {
    TrackMeta {
        title: Some("Sine Tones".to_owned()),
        artist: Some("avz test fixture".to_owned()),
        album: Some("Public Domain Tones".to_owned()),
        duration: Seconds::from_nanos(5_041_000_000),
        sample_rate: Some(44_100),
        channels: Some(2),
        bitrate_kbps: Some(64),
        cover: Some(CoverArt {
            mime: Some("image/png".to_owned()),
            dimensions: Some((256, 256)),
            data: vec![0; 2_766],
        }),
    }
}

fn untagged() -> TrackMeta {
    TrackMeta { title: None, artist: None, album: None, cover: None, ..tagged() }
}

#[test]
fn a_tagged_file_reports_every_field() {
    assert_eq!(
        report("song.mp3", &tagged()),
        "song.mp3
  title       Sine Tones
  artist      avz test fixture
  album       Public Domain Tones
  duration    0:05.04
  sample rate 44100 Hz
  channels    2 (stereo)
  bitrate     64 kbps
  cover art   image/png, 256x256, 2.7 KiB
"
    );
}

#[test]
fn missing_tags_render_as_missing_and_missing_art_as_none() {
    let report = report("song.mp3", &untagged());
    assert!(report.contains("title       (missing)"), "{report}");
    assert!(report.contains("artist      (missing)"), "{report}");
    assert!(report.contains("album       (missing)"), "{report}");
    assert!(report.contains("cover art   (none)"), "{report}");
    assert!(report.contains("sample rate 44100 Hz"), "{report}");
}

#[test]
fn durations_read_like_a_music_player() {
    assert_eq!(format_duration(Seconds::from_nanos(5_041_000_000)), "0:05.04");
    assert_eq!(format_duration(Seconds::from_nanos(227_500_000_000)), "3:47.50");
    assert_eq!(format_duration(Seconds::from_nanos(3_661_000_000_000)), "1:01:01.00");
    assert_eq!(format_duration(Seconds::from_nanos(0)), "0:00.00");
}

#[test]
fn channel_counts_are_named_where_a_name_exists() {
    assert_eq!(format_channels(1), "1 (mono)");
    assert_eq!(format_channels(2), "2 (stereo)");
    assert_eq!(format_channels(6), "6");
}

#[test]
fn byte_counts_scale_to_readable_units() {
    assert_eq!(format_bytes(0), "0 B");
    assert_eq!(format_bytes(1_023), "1023 B");
    assert_eq!(format_bytes(1_024), "1.0 KiB");
    assert_eq!(format_bytes(2_766), "2.7 KiB");
    assert_eq!(format_bytes(3_145_728), "3.0 MiB");
}

#[test]
fn unparsable_cover_art_reports_type_and_size_anyway() {
    let cover = CoverArt { mime: Some("image/tiff".to_owned()), dimensions: None, data: vec![0; 100] };
    assert_eq!(format_cover(&cover), "image/tiff, unreadable image, 100 B");
}

#[test]
fn cover_art_with_no_declared_mime_says_so() {
    let cover = CoverArt { mime: None, dimensions: Some((64, 64)), data: vec![0; 100] };
    assert_eq!(format_cover(&cover), "unknown type, 64x64, 100 B");
}

// ---------------------------------------------------------------------------
// Render
// ---------------------------------------------------------------------------

#[test]
fn the_default_output_sits_next_to_the_input_with_an_mp4_extension() {
    assert_eq!(default_output("/music/song.mp3"), "/music/song.mp4");
    assert_eq!(default_output("song.mp3"), "song.mp4", "a bare name stays a bare name");
    assert_eq!(default_output("no-extension"), "no-extension.mp4");
    assert_eq!(default_output(".hidden"), ".hidden.mp4");
    assert_eq!(default_output("a.tar.gz"), "a.tar.mp4");
}

fn absolute(path: &str) -> Option<String> {
    std::path::absolute(path).ok().map(|p| p.to_string_lossy().into_owned())
}

#[test]
fn an_output_matching_a_nonexistent_input_is_still_refused() {
    let (a, b) = ("/no/such/song.mp3", "/no/such/song.mp3");
    assert!(overwrites_input(a, b, absolute(a), absolute(b)));
    let (a, b) = ("/no/such/song.mp3", "/no/such/song.mp4");
    assert!(!overwrites_input(a, b, absolute(a), absolute(b)));
    assert!(overwrites_input("song.mp3", "song.mp3", None, None));
}

#[test]
fn paths_are_compared_component_by_component() {
    assert!(overwrites_input("song.mp3/", "song.mp3", None, None));
    assert!(overwrites_input("/music//song.mp3", "/music/./song.mp3", None, None));
    assert!(!overwrites_input("./song.mp3", "song.mp3", None, None));
    assert!(!overwrites_input("/music/../song.mp3", "/song.mp3", None, None));
    assert!(overwrites_input("x", "y", Some("/a/b/".to_owned()), Some("/a//b".to_owned())));
}

#[test]
fn path_comparison_agrees_with_std_paths() {
    let paths = [
        "", ".", "./", "./.", "..", "/", "//", "/.", "a", "a/", "a//", "a/.", "./a", ".//a", "a/./b",
        "a/b", "a//b/", "/a/b", "/a/../b", "../a", "a/..", ".a", "a.", "./.a", "/./a", "..a/b",
    ];
    for a in paths {
        for b in paths {
            assert_eq!(
                same_path(a, b),
                std::path::Path::new(a) == std::path::Path::new(b),
                "{a:?} against {b:?}"
            );
        }
    }
}

#[test]
fn a_finished_render_reports_where_it_went_and_what_it_cost() {
    let line = describe_render(&RenderSummary {
        frames: 60,
        fps: 30,
        adapter: AdapterKind::Software,
        output: "song.mp4".to_owned(),
    });
    assert_eq!(line, "wrote song.mp4 — 60 frames, 2.00s, software rendering");
}

#[test]
fn a_full_render_never_warns_about_the_sample_resolution() {
    assert!(!sample_resolution_is_a_default(false, &Sources::default()));
}

#[test]
fn a_sample_render_that_names_no_resolution_warns_that_it_was_reduced() {
    assert!(sample_resolution_is_a_default(true, &Sources::default()));
}

#[test]
fn a_configured_resolution_silences_the_sample_resolution_warning() {
    let resolution = Resolution::parse("1080p").expect("a legal resolution");
    let mut file = ConfigLayer::empty();
    file.output.resolution = Some(resolution);
    assert!(!sample_resolution_is_a_default(true, &Sources { file, ..Sources::default() }));
    let mut set = ConfigLayer::empty();
    set.output.resolution = Some(resolution);
    assert!(!sample_resolution_is_a_default(true, &Sources { set, ..Sources::default() }));
}

#[test]
fn the_sample_resolution_warning_names_the_size_and_the_way_out() {
    let warning = sample_resolution_warning(Resolution::parse("1280x720").expect("legal"));
    assert!(warning.contains("1280x720"), "{warning}");
    assert!(warning.contains("output.resolution"), "{warning}");
    assert!(warning.contains('—'), "{warning}");
}

fn no_flags() -> RenderFlags {
    RenderFlags {
        codec: None,
        quality: None,
        preset: None,
        palette: None,
        seed: None,
        bg: None,
        no_text: false,
        title: None,
        artist: None,
    }
}

#[test]
fn a_render_without_flags_contributes_an_empty_cli_layer() {
    assert_eq!(cli_layer(no_flags()), ConfigLayer::empty());
}

#[test]
fn the_text_flags_reach_the_cli_config_layer() {
    let layer = cli_layer(RenderFlags {
        title: Some("Cold Design".to_owned()),
        artist: Some("avz".to_owned()),
        ..no_flags()
    });

    assert_eq!(layer.text.title.as_deref(), Some("Cold Design"));
    assert_eq!(layer.text.artist.as_deref(), Some("avz"));
    assert_eq!(
        layer.text.enabled, None,
        "naming a card must not also decide whether cards are drawn"
    );

    assert_eq!(cli_layer(RenderFlags { no_text: true, ..no_flags() }).text.enabled, Some(false));
}

#[test]
fn the_preset_flag_reaches_the_cli_config_layer() {
    let layer = cli_layer(RenderFlags { preset: Some("nebula".to_owned()), ..no_flags() });

    assert_eq!(layer.visual.preset.as_deref(), Some("nebula"));
}

#[test]
fn the_palette_flag_reaches_the_cli_config_layer() {
    let palette = Palette::parse("glacier").expect("a palette name");
    let layer = cli_layer(RenderFlags { palette: Some(palette), ..no_flags() });

    assert_eq!(layer.visual.palette, Some(Palette::Named("glacier".to_owned())));
}

#[test]
fn the_bg_flag_reaches_the_cli_config_layer() {
    let layer = cli_layer(RenderFlags { bg: Some("art/forest.png".to_owned()), ..no_flags() });

    assert_eq!(layer.background.image.as_deref(), Some("art/forest.png"));
    assert_eq!(
        layer.background.video, None,
        "`--bg` names an image; a loop is `--set background.video=PATH`",
    );
}

#[test]
fn the_seed_codec_and_quality_flags_reach_the_cli_config_layer() {
    let layer = cli_layer(RenderFlags {
        seed: Some(Seed::parse("7").expect("a seed")),
        codec: Some(Codec::parse("x264").expect("a codec")),
        quality: Some(30),
        ..no_flags()
    });

    assert_eq!(layer.visual.seed, Some(Seed::Fixed(7)));
    assert_eq!(layer.output.codec, Some(Codec::X264));
    assert_eq!(layer.output.quality, Some(30));
}

#[test]
fn the_quality_flag_becomes_the_resolved_crf() {
    let sources = Sources {
        cli: cli_layer(RenderFlags { quality: Some(30), ..no_flags() }),
        ..Sources::default()
    };

    assert_eq!(sources.resolve().expect("resolves").output.quality, 30);
}

// ---------------------------------------------------------------------------
// Config
// ---------------------------------------------------------------------------

#[test]
fn a_config_command_with_no_flags_is_a_usage_error_naming_the_flag() {
    let err = config_command(ConfigArgs { example: false }).expect_err("nothing was asked for");

    assert!(err.to_string().contains("--example"), "{}", err.to_string());
    assert_eq!(
        code_for(&[Some(&err)]),
        Exit::Usage,
        "a missing flag is the user's argument, not a render failure",
    );
}

// ---------------------------------------------------------------------------
// Presets
// ---------------------------------------------------------------------------

fn preset() -> PresetInfo {
    PresetInfo { name: "test", description: "a preset for testing" }
}

fn row(name: &str, kind: &str, default: &str, range: &str, description: &str) -> ParamRow {
    ParamRow {
        name: name.to_owned(),
        kind: kind.to_owned(),
        default: default.to_owned(),
        range: range.to_owned(),
        description: description.to_owned(),
    }
}

#[test]
fn the_listing_names_every_preset_and_describes_it() {
    let shipped = presets();
    let text = list(&shipped);
    for p in &shipped {
        assert!(text.contains(p.name), "{text}");
        assert!(text.contains(p.description), "{text}");
    }
    assert_eq!(text.lines().filter(|line| line.contains("  ")).count(), shipped.len(), "{text}");
}

#[test]
fn the_schema_print_shows_every_column_for_every_type() {
    let schema = SchemaTable {
        perf_hint: None,
        params: vec![
            row("drive", "float", "1", "0..4", "How hard the kick drives."),
            row("count", "int", "4", "1..32", "How many rings."),
            row("flash", "bool", "true", "true|false", "Whether an onset flashes."),
            row("mode", "enum", "rings", "disc|rings", "What the preset draws."),
            row("tint", "color", "#e94560", "#rrggbb", "The color of the core."),
        ],
    };
    let text = describe(&preset(), &schema);
    assert!(text.contains("test — a preset for testing"), "{text}");
    assert!(text.contains("PARAMETER"), "{text}");
    assert!(text.contains("DESCRIPTION"), "{text}");
    for r in &schema.params {
        let line = text.lines().find(|line| line.starts_with(&r.name)).expect("a row");
        for cell in [&r.kind, &r.default, &r.range, &r.description] {
            assert!(line.contains(cell.as_str()), "`{}` row is missing `{cell}`: {line}", r.name);
        }
    }
}

#[test]
fn the_schema_columns_are_aligned() {
    let schema = SchemaTable {
        perf_hint: None,
        params: vec![
            row("a", "float", "1", "0..4", "short name"),
            row("a_much_longer_name", "int", "4", "1..32", "long name"),
        ],
    };
    let text = describe(&preset(), &schema);
    let rows: Vec<&str> = text
        .lines()
        .filter(|line| line.starts_with("PARAMETER") || line.starts_with('a'))
        .collect();
    assert_eq!(rows.len(), 3, "a header and two rows:\n{text}");
    let type_column = |row: &str| {
        let name = row.split(' ').next().expect("a name").len();
        name + row[name..].find(|c: char| c != ' ').expect("a second column")
    };
    let columns: Vec<usize> = rows.iter().map(|row| type_column(row)).collect();
    assert!(columns.iter().all(|at| *at == columns[0]), "{columns:?}:\n{text}");
}

#[test]
fn a_perf_hint_is_printed_when_the_schema_carries_one() {
    let without = SchemaTable { perf_hint: None, params: vec![row("a", "float", "1", "0..4", "d")] };
    assert!(!describe(&preset(), &without).contains("performance"));
    let with = SchemaTable {
        perf_hint: Some("on software rendering, consider count <= 1000".to_owned()),
        params: vec![row("a", "float", "1", "0..4", "d")],
    };
    assert!(describe(&preset(), &with).contains("performance: on software rendering, consider count <= 1000"));
}

#[test]
fn the_schema_print_says_how_to_set_a_parameter() {
    let schema = SchemaTable { perf_hint: None, params: vec![row("drive", "float", "1", "0..4", "d")] };
    let text = describe(&preset(), &schema);
    assert!(text.contains("--set drive=<value>"), "{text}");
    assert!(text.contains("[visual.params]"), "{text}");
}

#[test]
fn a_render_aimed_at_its_own_song_is_a_usage_error() {

    assert_eq!(
        overwrite_refused("song.mp3"),
        Error::Config(
            "`song.mp3` is the song avz is reading; pass `--out` a different path".to_owned()
        )
    );
}

#[test]
fn verbose_beats_quiet_and_quiet_keeps_errors_only() {
    assert_eq!(avz::cli::args::default_log_level(true, false), "debug");
    assert_eq!(avz::cli::args::default_log_level(true, true), "debug");
    assert_eq!(avz::cli::args::default_log_level(false, true), "error");
    assert_eq!(avz::cli::args::default_log_level(false, false), "info");
}

#[test]
fn a_phase_of_any_length_reaches_a_hundred_percent() {
    let mut state = LineState::start(Some(u64::MAX));
    assert_eq!(state.advance(Phase::Rendering, u64::MAX / 2), Some("rendering 49% (9223372036854775807/18446744073709551615)".to_owned()));
    assert_eq!(
        state.advance(Phase::Rendering, u64::MAX),
        Some("rendering 100% (18446744073709551615/18446744073709551615)".to_owned())
    );
}
