//! The value parsers: every form the documentation promises, and the garbage
//! each one rejects.

use avz::config::value::{
    Codec, Color, Fit, FontChoice, Palette, Position, Resolution, SampleRange, Seconds, Seed,
    MAX_PALETTE_COLORS, MIN_PALETTE_COLORS,
};

fn secs(input: &str) -> u64 {
    Seconds::parse(input)
        .unwrap_or_else(|e| panic!("{input}: {}", e.to_string()))
        .as_nanos()
}

#[test]
fn parses_named_and_wxh_resolutions() {
    let cases = [
        ("1920x1080", 1920, 1080),
        ("720p", 1280, 720),
        ("1080p", 1920, 1080),
        ("4k", 3840, 2160),
        ("4K", 3840, 2160),
        (" 1280X720 ", 1280, 720),
    ];

    for (input, width, height) in cases {
        let resolution = Resolution::parse(input).unwrap_or_else(|e| panic!("{input}: {}", e.to_string()));
        assert_eq!((resolution.width, resolution.height), (width, height), "{input}");
    }
}

#[test]
fn rejects_garbage_resolution() {
    for input in ["1080", "abc", "1920x", "x1080", "0x0", "1920x1080x30", "-8x8"] {
        let err = Resolution::parse(input).expect_err(input);
        assert!(err.to_string().contains("1920x1080"), "{input}: {}", err.to_string());
    }
}

#[test]
fn rejects_odd_resolution_dimensions() {
    let err = Resolution::parse("1921x1080").expect_err("rejected");
    assert!(err.to_string().contains("even"), "{}", err.to_string());
}

#[test]
fn a_resolution_prints_the_way_it_parses() {
    for input in ["1920x1080", "720p", "4k", "2x2"] {
        let resolution = Resolution::parse(input).expect("parses");
        let again = Resolution::parse(&resolution.to_string()).expect("its own text parses");
        assert_eq!(again, resolution, "{input}");
    }
    assert_eq!(Resolution::parse("720p").expect("parses").to_string(), "1280x720");
}

#[test]
fn parses_sample_range_and_bare_duration() {
    let bare = SampleRange::parse("60s").expect("parses");
    assert_eq!(bare.start.as_nanos(), 0);
    assert_eq!(bare.end.as_nanos(), 60_000_000_000);

    let range = SampleRange::parse("0:45..1:45").expect("parses");
    assert_eq!(range.start.as_nanos(), 45_000_000_000);
    assert_eq!(range.end.as_nanos(), 105_000_000_000);
    assert_eq!(range.duration_nanos(), 60_000_000_000);
}

#[test]
fn rejects_a_sample_range_that_ends_before_it_starts() {
    let err = SampleRange::parse("1:45..0:45").expect_err("rejected");
    assert!(err.to_string().contains("after"), "{}", err.to_string());
    let err = SampleRange::parse("5s..5s").expect_err("an empty range is rejected too");
    assert!(err.to_string().contains("after"), "{}", err.to_string());
}

#[test]
fn parses_durations_with_units_and_clock_notation() {
    let cases = [
        ("1.0s", 1_000_000_000),
        ("0s", 0),
        ("250ms", 250_000_000),
        ("0:45", 45_000_000_000),
        ("1:45.5", 105_500_000_000),
        ("1:02:03", 3_723_000_000_000),
    ];

    for (input, expected) in cases {
        assert_eq!(secs(input), expected, "{input}");
    }
}

#[test]
fn rejects_a_duration_without_a_unit() {
    let err = Seconds::parse("1.0").expect_err("rejected");
    assert!(err.to_string().contains("1.0s"), "{}", err.to_string());

    for input in ["-1s", "abc", "1:75", "s"] {
        Seconds::parse(input).expect_err(input);
    }
}

#[test]
fn a_negative_duration_is_named_as_negative() {
    let err = Seconds::parse("-1.5s").expect_err("rejected");
    assert_eq!(
        err.to_string(),
        "invalid duration `-1.5`: expected a finite, non-negative number of seconds"
    );
}

#[test]
fn a_duration_prints_in_the_config_files_spelling() {
    assert_eq!(Seconds::from_nanos(1_000_000_000).to_string(), "1s");
    assert_eq!(Seconds::from_nanos(600_000_000).to_string(), "0.6s");
    assert_eq!(Seconds::from_nanos(250_000_000).to_string(), "0.25s");
    assert_eq!(secs(&Seconds::from_nanos(1_234_567_891).to_string()), 1_234_567_891);
}

#[test]
fn parses_hex_colors_in_every_documented_form() {
    assert_eq!(
        Color::parse("#1a1a2e").expect("parses"),
        Color { r: 0x1a, g: 0x1a, b: 0x2e, a: 0xff }
    );
    assert_eq!(
        Color::parse("#fff").expect("parses"),
        Color { r: 0xff, g: 0xff, b: 0xff, a: 0xff }
    );
    assert_eq!(
        Color::parse("#1a1a2e80").expect("parses"),
        Color { r: 0x1a, g: 0x1a, b: 0x2e, a: 0x80 }
    );
}

#[test]
fn rejects_malformed_hex_colors() {
    for input in ["1a1a2e", "#12345", "#gggggg", "#"] {
        let err = Color::parse(input).expect_err(input);
        assert!(err.to_string().contains('#'), "{input}: {}", err.to_string());
    }
}

#[test]
fn parses_named_and_inline_palettes() {
    assert_eq!(Palette::parse("ember").expect("named"), Palette::Named("ember".to_owned()));

    let Palette::Inline(colors) = Palette::parse("#1a1a2e,#e94560").expect("inline") else {
        panic!("expected an inline palette");
    };
    assert_eq!(colors.len(), 2);
}

#[test]
fn an_inline_palette_takes_between_two_and_eight_colors() {
    let black = Color::parse("#000000").expect("parses");

    for count in MIN_PALETTE_COLORS..=MAX_PALETTE_COLORS {
        Palette::inline(vec![black; count])
            .unwrap_or_else(|err| panic!("{count} colors: {}", err.to_string()));
    }

    for count in [0, MIN_PALETTE_COLORS - 1, MAX_PALETTE_COLORS + 1] {
        let err = Palette::inline(vec![black; count]).expect_err("out of range");
        let message = err.to_string();
        assert!(
            message.contains(&MIN_PALETTE_COLORS.to_string())
                && message.contains(&MAX_PALETTE_COLORS.to_string()),
            "{count} colors must be refused with the range that is allowed: {message}",
        );
    }
}

#[test]
fn rejects_an_inline_palette_of_one_color() {
    let err = Palette::parse("#e94560").expect_err("one color");
    assert!(err.to_string().contains("got 1"), "{}", err.to_string());
}

#[test]
fn bad_hex_rejected_with_position() {
    let entries = vec!["#1a1a2e".to_owned(), "#gg0000".to_owned()];
    let err = Palette::from_entries(&entries).expect_err("`#gg0000` is not a color");
    assert!(err.to_string().contains("palette entry 2"), "{}", err.to_string());

    let err = Palette::parse("#1a1a2e,#e94560,e94560").expect_err("the third color is missing its `#`");
    assert!(err.to_string().contains("palette entry 3"), "{}", err.to_string());

    let err = Palette::inline(Vec::new()).expect_err("an empty list is not a palette");
    assert!(err.to_string().contains("got 0"), "{}", err.to_string());
}

#[test]
fn parses_seed_auto_and_fixed() {
    assert_eq!(Seed::parse("auto").expect("parses"), Seed::Auto);
    assert_eq!(Seed::parse("42").expect("parses"), Seed::Fixed(42));
    let err = Seed::parse("-1").expect_err("rejected");
    assert!(err.to_string().contains("negative"), "{}", err.to_string());
}

#[test]
fn parses_the_nine_grid_positions() {
    let all = Position::all();
    assert_eq!(all.len(), 9);
    for position in all {
        assert_eq!(Position::parse(position.as_str()).expect("parses"), position);
    }

    let err = Position::parse("middle").expect_err("rejected");
    assert!(err.to_string().contains("bottom-left"), "{}", err.to_string());
}

#[test]
fn parses_the_font_choice() {
    assert_eq!(FontChoice::parse("auto").expect("parses"), FontChoice::Auto);
    assert_eq!(
        FontChoice::parse("/usr/share/fonts/x.ttf").expect("parses"),
        FontChoice::Path("/usr/share/fonts/x.ttf".to_owned())
    );
}

#[test]
fn a_blank_font_path_is_rejected() {
    for input in ["", "   "] {
        let err = FontChoice::parse(input).expect_err("rejected");
        assert!(err.to_string().contains("font"), "{input:?} -> {}", err.to_string());
    }
}

#[test]
fn parses_every_codec_name() {
    for codec in [Codec::X264, Codec::X265, Codec::Av1] {
        assert_eq!(Codec::parse(codec.as_str()).expect("parses"), codec);
    }
    let err = Codec::parse("h264").expect_err("rejected");
    assert!(err.to_string().contains("x264"), "{}", err.to_string());
}

#[test]
fn every_name_as_str_gives_parses_back() {
    for fit in [Fit::Cover, Fit::Contain, Fit::Stretch] {
        assert_eq!(Fit::parse(fit.as_str()).expect("parses"), fit);
    }
    for position in Position::all() {
        assert_eq!(Position::parse(position.as_str()).expect("parses"), position);
    }
    for codec in [Codec::X264, Codec::X265, Codec::Av1] {
        assert_eq!(Codec::parse(codec.as_str()).expect("parses"), codec);
    }
}

#[test]
fn a_written_resolution_parses_back() {
    for (width, height) in [(1920, 1080), (2, 2), (3840, 2160), (4294967294, 1000)] {
        let resolution = Resolution::new(width, height);
        let text = resolution.to_string();
        assert_eq!(text, format!("{width}x{height}"));
        assert_eq!(Resolution::parse(&text).expect("parses"), resolution, "{text}");
    }
}

#[test]
fn a_written_duration_parses_back() {
    let cases = [
        (0, "0s"),
        (1_500_000_000, "1.5s"),
        (1, "0.000000001s"),
        (60_250_000_000, "60.25s"),
        (u64::MAX, "18446744073.709551615s"),
    ];
    for (nanos, text) in cases {
        let written = Seconds::from_nanos(nanos).to_string();
        assert_eq!(written, text);
        assert_eq!(secs(&written), nanos, "{written}");
    }
}

#[test]
fn a_duration_takes_every_number_f64_reads() {
    assert_eq!(secs("1e3s"), 1_000_000_000_000);
    assert_eq!(secs("1.5E-3s"), 1_500_000);
    assert_eq!(secs("2.5e2ms"), 250_000_000);
    assert_eq!(secs("1e+1s"), 10_000_000_000);
    assert_eq!(secs(".5e1s"), 5_000_000_000);
    assert_eq!(secs("1e-12s"), 0);
    assert_eq!(secs("0e999999999999999999999999999999999s"), 0);
    assert_eq!(secs("0:4.5e1"), 45_000_000_000);
    for malformed in ["1es", "e5s", "1e5.0s", "1e--5s"] {
        let err = Seconds::parse(malformed).expect_err("rejected");
        assert!(err.to_string().contains("expected a unit"), "{malformed}: {}", err.to_string());
    }
}

#[test]
fn a_duration_that_is_not_finite_is_refused_by_name() {
    for (input, shown) in [("infs", "inf"), ("-Infinitys", "-inf"), ("NaNms", "NaN"), ("+infms", "inf")] {
        let err = Seconds::parse(input).expect_err("not finite");
        assert_eq!(
            err.to_string(),
            format!("invalid duration `{shown}`: expected a finite, non-negative number of seconds"),
            "{input}"
        );
    }
    let err = Seconds::parse("-1e3s").expect_err("negative");
    assert_eq!(
        err.to_string(),
        "invalid duration `-1000`: expected a finite, non-negative number of seconds"
    );
}

#[test]
fn an_array_of_colors_is_an_inline_palette_of_two_to_eight() {
    let entries = vec!["#1a1a2e".to_owned(), " #e94560 ".to_owned()];
    let palette = Palette::from_entries(&entries).expect("two colors");
    assert_eq!(palette, Palette::parse("#1a1a2e,#e94560").expect("parses"));
    let err = Palette::from_entries(&vec!["#1a1a2e".to_owned()]).expect_err("one color");
    assert!(err.to_string().contains("got 1"), "{}", err.to_string());
}
