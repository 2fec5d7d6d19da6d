//! The precedence chain, the validation a layer goes through, and `--set`.

use avz::config::file::rejected_toml;
use avz::config::set::{parse_scalar, rejected_assignment, Scalar};
use avz::config::example::example;
use avz::config::file::{in_file, unreadable, ReadFailure};
use avz::config::layer::ConfigLayer;
use avz::config::number::Real;
use avz::config::resolve::{BackgroundSource, Config, Sources, MAX_CRF, SAMPLE_RESOLUTION};
use avz::config::set::split_assignment;
use avz::config::suggest::{best_candidate, closest, suggestion};
use avz::config::value::{Codec, Palette, Position, Resolution, Seconds, Seed};
use avz::error::Error;

fn number(x: f64) -> Real {
    Real::new(x.to_bits(), x.to_string())
}

fn bits(x: f64) -> u64 {
    x.to_bits()
}

fn message(err: &Error) -> String {
    err.to_string()
}

#[test]
fn set_override_beats_config_file_value() {
    let mut file = ConfigLayer::empty();
    file.visual.intensity = Some(number(1.0));
    let mut set = ConfigLayer::empty();
    set.visual.intensity = Some(number(1.4));
    let sources = Sources { file, set, ..Sources::default() };

    let config = sources.resolve().expect("resolves");
    assert_eq!(config.visual.intensity.bits, bits(1.4));
}

#[test]
fn cli_flag_beats_set_override() {
    let mut file = ConfigLayer::empty();
    file.visual.preset = Some("ink".to_owned());
    let mut set = ConfigLayer::empty();
    set.visual.preset = Some("nebula".to_owned());
    let mut cli = ConfigLayer::empty();
    cli.visual.preset = Some("pulse".to_owned());
    let sources = Sources { file, set, cli, ..Sources::default() };

    assert_eq!(sources.resolve().expect("resolves").visual.preset, "pulse");
}

#[test]
fn config_file_beats_preset_defaults() {
    let mut preset_defaults = ConfigLayer::empty();
    preset_defaults.output.fps = Some(60);
    let mut file = ConfigLayer::empty();
    file.output.fps = Some(24);
    let sources = Sources { preset_defaults, file, ..Sources::default() };

    assert_eq!(sources.resolve().expect("resolves").output.fps, 24);
}

#[test]
fn preset_defaults_beat_builtin_defaults() {
    let mut preset_defaults = ConfigLayer::empty();
    preset_defaults.visual.smoothing = Some(number(0.8));
    let sources = Sources { preset_defaults, ..Sources::default() };

    assert_eq!(sources.resolve().expect("resolves").visual.smoothing.bits, bits(0.8));
}

#[test]
fn a_sample_render_defaults_to_a_reduced_resolution() {
    let sources = Sources { sample_defaults: ConfigLayer::for_sample(), ..Sources::default() };

    let config = sources.resolve().expect("resolves");
    assert_eq!(config.output.resolution.to_string(), "1280x720");
    assert_eq!(config.output.fps, 30, "only the resolution is reduced");
    assert_eq!(
        Resolution::parse(SAMPLE_RESOLUTION).expect("the sample resolution parses"),
        config.output.resolution
    );
}

#[test]
fn an_explicit_resolution_beats_the_sample_default() {
    let mut file = ConfigLayer::empty();
    file.output.resolution = Some(Resolution::parse("1080p").expect("parses"));
    let sources = Sources { sample_defaults: ConfigLayer::for_sample(), file, ..Sources::default() };

    assert_eq!(sources.resolve().expect("resolves").output.resolution.to_string(), "1920x1080");
}

#[test]
fn a_whole_song_render_keeps_the_builtin_resolution() {
    let config = Sources::default().resolve().expect("resolves");
    assert_eq!(config.output.resolution.to_string(), "1920x1080");
}

#[test]
fn a_silent_layer_does_not_erase_a_lower_one() {
    let mut file = ConfigLayer::empty();
    file.output.fps = Some(24);
    file.output.quality = Some(20);
    let mut set = ConfigLayer::empty();
    set.output.quality = Some(30);
    let sources = Sources { file, set, ..Sources::default() };

    let config = sources.resolve().expect("resolves");
    assert_eq!(config.output.fps, 24, "the file's fps must survive --set");
    assert_eq!(config.output.quality, 30);
}

#[test]
fn builtin_defaults_are_a_complete_1080p30_render() {
    let config = Sources::default().resolve().expect("resolves");

    assert_eq!(config.output.resolution.to_string(), "1920x1080");
    assert_eq!(config.output.fps, 30);
    assert_eq!(config.output.codec, Codec::X264);
    assert_eq!(config.output.quality, 18);
    assert_eq!(config.visual.seed, Seed::Auto);
    assert_eq!(config.background.source, None);
    assert!(config.text.enabled);
    assert_eq!(config.text.title, None, "the card's words come from ID3");
    assert_eq!(config.text.artist, None);
    assert!(config.effects.is_identity(), "a bare render asks for no effects");
    assert_eq!(config, Config::default());
}

#[test]
fn overlay_laws_hold_on_concrete_layers() {
    // A silent layer changes nothing.
    let mut a = ConfigLayer::empty();
    a.output.fps = Some(24);
    a.visual.preset = Some("ink".to_owned());
    a.overlay(ConfigLayer::empty());
    assert_eq!(a.output.fps, Some(24));
    assert_eq!(a.visual.preset.as_deref(), Some("ink"));

    // A layer that sets a value wins; one that does not keeps the lower value.
    let mut b = ConfigLayer::empty();
    b.output.fps = Some(60);
    a.overlay(b);
    assert_eq!(a.output.fps, Some(60));
    assert_eq!(a.visual.preset.as_deref(), Some("ink"));
}

#[test]
fn preset_params_accept_arbitrary_keys() {
    let mut file = ConfigLayer::empty();
    file.visual.params = Some(table(&[
        ("particle_count", toml::Value::Integer(4000)),
        ("bass_drive", toml::Value::Float(1.2)),
    ]));
    let config = file.resolve().expect("resolves");

    assert_eq!(config.visual.params["particle_count"].as_integer(), Some(4000));
    assert_eq!(config.visual.params.len(), 2);
}

#[test]
fn set_merges_preset_params_key_wise_instead_of_replacing_them() {
    let mut file = ConfigLayer::empty();
    file.visual.params = Some(table(&[
        ("particle_count", toml::Value::Integer(4000)),
        ("bass_drive", toml::Value::Float(1.2)),
    ]));
    let mut set = ConfigLayer::empty();
    set.visual.params = Some(table(&[("bass_drive", toml::Value::Float(2.0))]));
    let sources = Sources { file, set, ..Sources::default() };

    let params = sources.resolve().expect("resolves").visual.params;
    assert_eq!(params["particle_count"].as_integer(), Some(4000));
    assert_eq!(params["bass_drive"].as_float(), Some(2.0));
    assert_eq!(params.len(), 2);
}

#[test]
fn background_image_and_video_together_rejected() {
    let mut layer = ConfigLayer::empty();
    layer.background.image = Some("a.png".to_owned());
    layer.background.video = Some("b.mp4".to_owned());

    let err = layer.resolve().expect_err("rejected");
    assert!(message(&err).contains("mutually exclusive"), "{}", message(&err));
    assert!(matches!(err, Error::Config(_)));
}

#[test]
fn a_higher_layer_background_source_replaces_the_lower_one() {
    let mut file = ConfigLayer::empty();
    file.background.image = Some("art/forest.png".to_owned());
    let mut set = ConfigLayer::empty();
    set.background.video = Some("loops/smoke.mp4".to_owned());
    let sources = Sources { file, set, ..Sources::default() };

    let config = sources.resolve().expect("resolves");
    assert_eq!(
        config.background.source,
        Some(BackgroundSource::Video("loops/smoke.mp4".to_owned()))
    );
}

fn rejected(layer: ConfigLayer) -> String {
    message(&layer.resolve().expect_err("rejected"))
}

#[test]
fn out_of_range_values_are_rejected_by_name() {
    let mut l = ConfigLayer::empty();
    l.output.fps = Some(0);
    assert_eq!(rejected(l), "invalid configuration: `output.fps` must be between 1 and 240, got 0");

    let mut l = ConfigLayer::empty();
    l.output.quality = Some(99);
    assert!(rejected(l).contains("quality"));

    let mut l = ConfigLayer::empty();
    l.output.quality = Some(-3);
    assert!(rejected(l).contains("got -3"));

    let mut l = ConfigLayer::empty();
    l.visual.intensity = Some(number(0.0));
    assert_eq!(rejected(l), "invalid configuration: `visual.intensity` must be greater than 0, got 0");

    let mut l = ConfigLayer::empty();
    l.visual.smoothing = Some(number(1.5));
    assert!(rejected(l).contains("smoothing"));

    let mut l = ConfigLayer::empty();
    l.background.darken = Some(number(-0.1));
    assert!(rejected(l).contains("darken"));

    let mut l = ConfigLayer::empty();
    l.background.blur = Some(number(-1.0));
    assert!(rejected(l).contains("blur"));

    let mut l = ConfigLayer::empty();
    l.visual.preset = Some(String::new());
    assert!(rejected(l).contains("preset"));

    let mut l = ConfigLayer::empty();
    l.visual.intensity = Some(number(f64::NAN));
    assert!(rejected(l).contains("intensity"));

    let mut l = ConfigLayer::empty();
    l.background.blur = Some(number(f64::INFINITY));
    assert!(rejected(l).contains("blur"));
}

#[test]
fn blank_string_values_are_rejected_by_name() {
    let mut l = ConfigLayer::empty();
    l.visual.preset = Some("   ".to_owned());
    assert!(rejected(l).contains("preset"));

    let mut l = ConfigLayer::empty();
    l.background.image = Some(String::new());
    assert!(rejected(l).contains("background.image"));

    let mut l = ConfigLayer::empty();
    l.background.video = Some("   ".to_owned());
    assert!(rejected(l).contains("background.video"));
}

#[test]
fn out_of_range_text_geometry_is_rejected_by_name() {
    for (size, margin) in [(Some(0.0), None), (Some(1.5), None), (None, Some(-0.1)), (None, Some(0.5))] {
        let mut l = ConfigLayer::empty();
        l.text.size = size.map(number);
        l.text.margin = margin.map(number);
        let m = rejected(l);
        let key = if size.is_some() { "text.size" } else { "text.margin" };
        assert!(m.contains(key), "{m}");
    }
    let mut l = ConfigLayer::empty();
    l.text.size = Some(number(1.5));
    assert_eq!(
        rejected(l),
        "invalid configuration: `text.size` must be greater than 0 and at most 1, got 1.5"
    );
}

#[test]
fn effects_take_their_documented_range_inclusive_of_the_maximum() {
    let mut l = ConfigLayer::empty();
    l.effects.zoom = Some(number(3.0));
    l.effects.sway = Some(number(-0.25));
    l.effects.contrast = Some(number(0.2));
    let config = l.resolve().expect("the documented bounds are legal");
    assert!(!config.effects.is_identity());

    let mut l = ConfigLayer::empty();
    l.effects.zoom = Some(number(3.5));
    assert_eq!(
        rejected(l),
        "invalid configuration: `effects.zoom` must be at least 0.5 and below 3.0000000000000004, got 3.5"
    );

    let mut l = ConfigLayer::empty();
    l.effects.spin = Some(number(-2.5));
    assert!(rejected(l).contains("effects.spin"));
}

#[test]
fn text_overrides_and_fade_survive_the_precedence_chain() {
    let mut file = ConfigLayer::empty();
    file.text.title = Some("From the file".to_owned());
    file.text.fade = Some(Seconds::parse("0.25s").expect("parses"));
    let mut cli = ConfigLayer::empty();
    cli.text.title = Some("  From the flag ".to_owned());
    let sources = Sources { file, cli, ..Sources::default() };

    let config = sources.resolve().expect("resolves");
    assert_eq!(config.text.title.as_deref(), Some("From the flag"));
    assert_eq!(config.text.fade.as_nanos(), 250_000_000);
    assert_eq!(config.text.artist, None, "an override nobody wrote must not invent an artist");
    assert_eq!(config.text.position, Position::BottomLeft);
}

#[test]
fn a_palette_flag_beats_a_set_override_and_the_config_file() {
    let mut file = ConfigLayer::empty();
    file.visual.palette = Some(Palette::Named("glacier".to_owned()));
    let mut set = ConfigLayer::empty();
    set.visual.palette = Some(Palette::Named("verdant".to_owned()));
    let mut cli = ConfigLayer::empty();
    cli.visual.palette = Some(Palette::Named("mono".to_owned()));
    let sources = Sources { file, set, cli, ..Sources::default() };

    assert_eq!(sources.resolve().expect("resolves").visual.palette, Palette::Named("mono".to_owned()));
}

#[test]
fn the_crf_ceiling_is_x264s() {
    assert_eq!(MAX_CRF, 51);
}

// ---------------------------------------------------------------------------
// --set
// ---------------------------------------------------------------------------

fn path_of(assignment: &str) -> Vec<String> {
    split_assignment(assignment).expect("parses").path
}

#[test]
fn a_section_path_is_kept_and_the_value_trimmed() {
    let a = split_assignment(" visual . intensity = 1.4 ").expect("parses");
    assert_eq!(a.path, ["visual", "intensity"]);
    assert_eq!(a.value, "1.4");
}

#[test]
fn a_bare_set_key_is_a_parameter_of_the_active_preset() {
    assert_eq!(path_of("bass_drive=2.0"), ["visual", "params", "bass_drive"]);
}

#[test]
fn a_preset_prefixed_set_key_is_a_parameter_of_that_preset() {
    assert_eq!(path_of("pulse.bass_drive=2.0"), ["visual", "params", "bass_drive"]);
}

#[test]
fn the_shorthand_and_the_long_form_set_the_same_parameter() {
    assert_eq!(path_of("visual.params.bass_drive=2.0"), path_of("bass_drive=2.0"));
}

#[test]
fn every_spelling_of_a_padded_parameter_name_sets_it_trimmed() {
    for spelling in [" bass_drive = 2.0", "visual.params. bass_drive = 2.0", "nebula. bass_drive = 2.0"] {
        let a = split_assignment(spelling).expect("parses");
        assert_eq!(a.path, ["visual", "params", "bass_drive"], "{spelling}");
        assert_eq!(a.value, "2.0", "{spelling}");
    }
}

#[test]
fn a_set_key_under_an_unknown_section_names_the_sections_and_the_presets() {
    let err = split_assignment("outputt.fps=30").expect_err("rejected");
    let m = message(&err);
    assert!(m.contains("outputt.fps=30"), "{m}");
    assert!(m.contains("did you mean `output`"), "{m}");
    assert!(m.contains("output, visual, background, text, effects"), "{m}");

    let err = split_assignment("nebulaa.turbulence=2").expect_err("rejected");
    assert!(message(&err).contains("nebula"), "{}", message(&err));
}

#[test]
fn set_without_an_equals_sign_is_rejected() {
    let err = split_assignment("visual.intensity").expect_err("rejected");
    assert!(message(&err).contains("key.path=value"), "{}", message(&err));
}

#[test]
fn set_with_an_empty_path_segment_is_rejected() {
    let err = split_assignment("visual..intensity=1.0").expect_err("rejected");
    assert!(message(&err).contains("empty"), "{}", message(&err));
}

// ---------------------------------------------------------------------------
// Did you mean
// ---------------------------------------------------------------------------

fn names(list: &[&str]) -> Vec<String> {
    list.iter().map(|s| s.to_string()).collect()
}

#[test]
fn a_near_miss_finds_the_real_name_and_an_unrelated_one_finds_none() {
    let keys = names(&["resolution", "fps", "codec", "quality"]);
    assert_eq!(closest("fpss", &keys).as_deref(), Some("fps"));
    assert_eq!(closest("zzzzzzzz", &keys), None);
    assert_eq!(closest("", &names(&[""])).as_deref(), Some(""));
}

#[test]
fn a_suggestion_is_read_from_an_unknown_field_message() {
    let m = "unknown field `intencity`, expected one of `preset`, `palette`, `intensity`, `smoothing`, `seed`, `params`";
    assert_eq!(suggestion(m).as_deref(), Some("intensity"));
    let m = "unknown variant `covr`, expected one of `cover`, `contain`, `stretch`";
    assert_eq!(suggestion(m).as_deref(), Some("cover"));
    assert_eq!(suggestion("invalid type: found string"), None);
    let m = "unknown field `zzzzzzzz`, expected one of `preset`, `palette`";
    assert_eq!(suggestion(m), None);
}

// ---------------------------------------------------------------------------
// Reading a config file
// ---------------------------------------------------------------------------

#[test]
fn an_unreadable_config_file_is_named_and_a_usage_error() {
    let err = unreadable("/nonexistent/avz.toml", &ReadFailure::NotFound);
    assert_eq!(message(&err), "invalid configuration: /nonexistent/avz.toml: no such file");
    let err = unreadable("x.toml", &ReadFailure::Other("disk on fire".to_owned()));
    assert_eq!(message(&err), "invalid configuration: x.toml: cannot be read: disk on fire");
    let err = in_file("album.toml", Error::Config("line 3".to_owned()));
    assert_eq!(message(&err), "invalid configuration: album.toml:\nline 3");
}

// ---------------------------------------------------------------------------
// The example config
// ---------------------------------------------------------------------------

#[test]
fn the_example_documents_the_units_the_parsers_accept() {
    let example = example();

    for expected in [
        "`720p`", "`1080p`", "`4k`", "`x264`", "`cover`", "`contain`", "`stretch`", "`top-left`",
        "`bottom-right`", "`center`", "`auto`",
    ] {
        assert!(example.contains(expected), "the example never names {expected}: {example}");
    }
}

#[test]
fn the_example_wraps_its_comments_to_a_readable_width() {
    for line in example().lines() {
        assert!(line.chars().count() <= 78 + 2, "an over-long line will wrap in a terminal: {line}");
    }
}

#[test]
fn the_example_writes_every_live_key_from_the_defaults() {
    let example = example();
    for line in [
        "resolution = \"1920x1080\"",
        "fps = 30",
        "codec = \"x264\"",
        "quality = 18",
        "preset = \"pulse\"",
        "palette = \"ember\"",
        "intensity = 1.0",
        "smoothing = 0.35",
        "seed = \"auto\"",
        "fit = \"cover\"",
        "blur = 0.0",
        "darken = 0.0",
        "enabled = true",
        "position = \"bottom-left\"",
        "in_at = \"1s\"",
        "hold = \"6s\"",
        "fade = \"0.6s\"",
        "font = \"auto\"",
        "size = 0.05",
        "margin = 0.06",
        "# image = \"art/forest.png\"",
        "# [visual.params]",
        "zoom = 1.0",
        "pulse = 0.0",
        "spin = 0.0",
        "sway = 0.0",
        "hue = 0.0",
        "hue_drift = 0.0",
        "saturation = 1.0",
        "contrast = 1.0",
        "brightness = 1.0",
        "flash = 0.0",
        "fade_in = \"0s\"",
        "fade_out = \"0s\"",
    ] {
        assert!(example.lines().any(|l| l == line), "missing `{line}`:\n{example}");
    }
    assert!(example.starts_with("# avz configuration"));
}

#[test]
fn the_suggestion_is_the_closest_close_enough_candidate() {
    let keys = names(&["resolution", "fps", "codec", "quality"]);
    // `qualty` is one deletion from `quality` and far from the rest.
    assert_eq!(closest("qualty", &keys).as_deref(), Some("quality"));
    // A tie goes to the later candidate.
    let tied = names(&["abcdx", "xbcde"]);
    assert_eq!(closest("abcde", &tied).as_deref(), Some("xbcde"));
    // Nothing close enough: no suggestion at all.
    assert_eq!(closest("background", &keys), None);
}

#[test]
fn a_refused_toml_source_keeps_the_report_and_adds_the_hint() {

    let rendered = "TOML parse error at line 2, column 1\n  |\n2 | fpss = 30\n  | ^^^^\nunknown field `fpss`, expected one of `resolution`, `fps`, `codec`, `quality`\n\n";
    let message = "unknown field `fpss`, expected one of `resolution`, `fps`, `codec`, `quality`";
    let Error::Config(text) = rejected_toml(rendered, message) else {
        panic!("a config error");
    };
    assert_eq!(text, format!("{}\nhint: did you mean `fps`?", rendered.trim_end()));

    let Error::Config(text) = rejected_toml("invalid type: integer `5`\n", "invalid type: integer `5`") else {
        panic!("a config error");
    };
    assert_eq!(text, "invalid type: integer `5`");
}

#[test]
fn a_refused_assignment_names_itself_and_adds_the_hint() {

    let Error::Config(text) = rejected_assignment(
        "output.fpss=30",
        "unknown field `fpss`, expected one of `resolution`, `fps`, `codec`, `quality`",
    ) else {
        panic!("a config error");
    };
    assert_eq!(
        text,
        "invalid `--set output.fpss=30`: unknown field `fpss`, expected one of `resolution`, `fps`, `codec`, `quality`\nhint: did you mean `fps`?"
    );
}

/// The keys each section of a config file declares, and the sections.
fn declared_keys(section: &str) -> Vec<&'static str> {
    match section {
        "" => vec!["output", "visual", "background", "text", "effects"],
        "output" => vec!["resolution", "fps", "codec", "quality"],
        "visual" => vec!["preset", "palette", "intensity", "smoothing", "seed", "params"],
        "background" => vec!["image", "video", "fit", "blur", "darken"],
        "text" => vec![
            "enabled", "position", "in_at", "hold", "fade", "font", "size", "margin", "title",
            "artist",
        ],
        "effects" => vec![
            "zoom", "pulse", "spin", "sway", "hue", "hue_drift", "saturation", "contrast",
            "brightness", "flash", "fade_in", "fade_out",
        ],
        other => panic!("no section `{other}`"),
    }
}

/// The lines of `example` under `[section]`, up to the next section header.
fn section_body(example: &str, section: &str) -> Vec<String> {
    let header = format!("[{section}]");

    example
        .lines()
        .skip_while(|line| line.trim() != header)
        .skip(1)
        .take_while(|line| !is_header(line))
        .map(str::to_owned)
        .collect()
}

/// Whether a line opens a new top-level section.
fn is_header(line: &str) -> bool {
    line.starts_with('[') && line.ends_with(']')
}

/// Whether `body` documents `key`, live or commented out, as an assignment or
/// as a subsection header.
fn mentions(body: &[String], section: &str, key: &str) -> bool {
    let assignment = format!("{key} =");
    let subsection = format!("[{section}.{key}]");

    body.iter().any(|line| {
        let line = line.trim_start_matches('#').trim();
        line.starts_with(&assignment) || line == subsection
    })
}

#[test]
fn every_declared_key_is_documented() {
    let example = example();

    for section in declared_keys("") {
        let body = section_body(&example, section);
        assert!(!body.is_empty(), "the example documents no `[{section}]` section");

        for key in declared_keys(section) {
            assert!(
                mentions(&body, section, key),
                "`{section}.{key}` is a config key the example never mentions"
            );
        }
    }
}

#[test]
fn a_set_value_is_toml_when_toml_reads_it_and_bare_text_otherwise() {
    assert!(matches!(parse_scalar("1.4"), Scalar::Toml(toml::Value::Float(x)) if x == 1.4));
    assert!(matches!(parse_scalar("true"), Scalar::Toml(toml::Value::Boolean(true))));
    assert!(matches!(parse_scalar("30"), Scalar::Toml(toml::Value::Integer(30))));
    assert!(matches!(parse_scalar("\"true\""), Scalar::Toml(toml::Value::String(s)) if s == "true"));
    assert!(matches!(parse_scalar("[\"#fff\"]"), Scalar::Toml(toml::Value::Array(a)) if a.len() == 1));
    for bare in ["nebula", "720p", "art/forest.png", "contain", "top-right"] {
        assert!(matches!(parse_scalar(bare), Scalar::Bare(s) if s == bare), "{bare}");
    }
}

fn table(entries: &[(&str, toml::Value)]) -> toml::Table {
    entries.iter().map(|(name, value)| (name.to_string(), value.clone())).collect()
}

#[test]
fn a_layer_without_parameters_resolves_to_an_empty_table() {
    let config = ConfigLayer::empty().resolve().expect("resolves");
    assert!(config.visual.params.is_empty());
}

#[test]
fn parameters_set_over_a_file_without_any_are_kept() {
    let mut set = ConfigLayer::empty();
    set.visual.params = Some(table(&[("bass_drive", toml::Value::Float(2.0))]));
    let sources = Sources { set, ..Sources::default() };

    let params = sources.resolve().expect("resolves").visual.params;
    assert_eq!(params["bass_drive"].as_float(), Some(2.0));
    assert_eq!(params.len(), 1);
}

#[test]
fn the_best_candidate_is_the_closest_one_scoring_at_least_six_tenths() {
    let names = vec!["intensity".to_owned(), "preset".to_owned(), "seed".to_owned()];
    // 1 - 1/9 beats 1 - 2/6; "seed" at 1 - 3/4 is too far to suggest.
    assert_eq!(best_candidate(&names, &vec![(1, 9), (2, 6), (3, 4)]).as_deref(), Some("intensity"));
    // Equal scores: the later candidate wins.
    assert_eq!(best_candidate(&names, &vec![(1, 5), (2, 10), (4, 4)]).as_deref(), Some("preset"));
    // Exactly 0.6 is close enough; just under it is not.
    assert_eq!(best_candidate(&names, &vec![(2, 5), (9, 9), (9, 9)]).as_deref(), Some("intensity"));
    assert_eq!(best_candidate(&names, &vec![(3, 7), (9, 9), (9, 9)]), None);
    assert_eq!(best_candidate(&Vec::new(), &Vec::new()), None);
}

#[test]
fn each_source_outranks_every_source_below_it() {
    // fps 10 from the preset, 20 from --sample, 30 from the file, 40 from
    // --set, 50 from the flags; the top `n` sources are silent.
    for silent_on_top in 0..5 {
        let layer = |fps: i64, rank: usize| {
            let mut l = ConfigLayer::empty();
            if rank < 5 - silent_on_top {
                l.output.fps = Some(fps);
            }
            l
        };
        let sources = Sources {
            preset_defaults: layer(10, 0),
            sample_defaults: layer(20, 1),
            file: layer(30, 2),
            set: layer(40, 3),
            cli: layer(50, 4),
        };
        let fps = sources.resolve().expect("resolves").output.fps;
        assert_eq!(fps, 50 - 10 * silent_on_top as u32, "{silent_on_top} silent on top");
    }
}
