//! Typed configuration values and the parsers that produce them.
//!
//! Every value the user can write in TOML or pass to `--set` lands in one of
//! these types. Parsing happens once, at the edge, so the rest of the pipeline
//! never sees a `"1920x1080"` that might actually say `"1920X1O80"`. A TOML
//! file, a `--set` override, and a CLI flag all go through the same parser and
//! reject the same garbage with the same message.

use vstd::prelude::*;
use crate::error::Error;
use crate::text::{
    all_digits, all_digits_exec, cut, cut_exec, digits_value, digits_value_exec, find_pair,
    find_pair_exec, has_nonzero_digit, has_nonzero_digit_exec, lemma_digits_value_bound, padded,
    pow10, push_padded, strip_zeros, strip_zeros_exec, all_hex, contains_char, is_digit, is_hex_digit, is_lower, hex_value, split, split_exec, string_of,
    chars_eq_str, chars_of, decimal, find, find_exec, join, lemma_find, lower, lower_chars,
    parse_unsigned, parse_unsigned_exec, push_all, push_decimal, push_str, slice, string_from,
    trim, trim_chars, lemma_trim_unpadded, lemma_decimal_value, lower_char, lemma_padded,
    lemma_strip_zeros_split, lemma_zeros_value, lemma_decimal_len_bound, zeros,
};
use crate::text::{is_white_space, lemma_digits_value_step, lemma_pow10_values};

verus! {

/// A configuration value could not be parsed.
///
/// Carries a message that names the offending input and what was expected.
#[derive(Debug, Clone, PartialEq, Eq)]
pub struct ParseError(String);

impl View for ParseError {
    type V = Seq<char>;

    closed spec fn view(&self) -> Seq<char> {
        self.0@
    }
}

impl ParseError {
    pub fn new(message: String) -> (e: ParseError)
        ensures
            e@ == message@,
    {
        ParseError(message)
    }

    /// The message, as the user reads it.
    pub fn to_string(&self) -> (s: String)
        ensures
            s@ == self@,
    {
        self.0.clone()
    }

    /// The configuration error this parse failure is.
    pub fn into_error(self) -> (e: Error)
        ensures
            e matches Error::Config(m) && m@ == self@,
    {
        Error::Config(self.0)
    }
}

/// `"`" + s + "`"`.
pub open spec fn ticked(s: Seq<char>) -> Seq<char> {
    "`"@ + s + "`"@
}

/// The shared shape of "you wrote X, it has to be one of these" errors.
///
/// Phrased like serde's own `unknown variant` message, so the "did you mean"
/// pass reads the backticked list straight out of it.
pub open spec fn one_of_message(what: Seq<char>, got: Seq<char>, expected: Seq<Seq<char>>) -> Seq<
    char,
> {
    what + ": unknown variant `"@ + got + "`, expected one of "@ + join(
        expected.map_values(|e: Seq<char>| ticked(e)),
        ", "@,
    )
}

pub proof fn lemma_join_step(pieces: Seq<Seq<char>>, sep: Seq<char>, i: int)
    requires
        0 < i < pieces.len(),
    ensures
        join(pieces.subrange(0, i + 1), sep) == join(pieces.subrange(0, i), sep) + sep
            + pieces[i],
{
    assert(pieces.subrange(0, i + 1).drop_last() =~= pieces.subrange(0, i));
}

fn one_of(what: &str, got: &Vec<char>, expected: &[&str]) -> (e: ParseError)
    requires
        expected@.len() > 0,
    ensures
        e@ == one_of_message(what@, got@, expected@.map_values(|x: &str| x@)),
{
    let ghost names = expected@.map_values(|x: &str| x@);
    let ghost ticks = names.map_values(|e: Seq<char>| ticked(e));
    let mut list = string_from("`");
    push_str(&mut list, expected[0]);
    push_str(&mut list, "`");
    assert(ticks.subrange(0, 1) =~= seq![ticks[0]]);
    let mut i: usize = 1;
    while i < expected.len()
        invariant
            1 <= i <= expected@.len(),
            names == expected@.map_values(|x: &str| x@),
            ticks == names.map_values(|e: Seq<char>| ticked(e)),
            list@ == join(ticks.subrange(0, i as int), ", "@),
        decreases expected.len() - i,
    {
        proof {
            lemma_join_step(ticks, ", "@, i as int);
        }
        push_str(&mut list, ", ");
        push_str(&mut list, "`");
        push_str(&mut list, expected[i]);
        push_str(&mut list, "`");
        assert(list@ =~= join(ticks.subrange(0, i as int), ", "@) + ", "@ + ticks[i as int]);
        i = i + 1;
    }
    assert(ticks.subrange(0, expected@.len() as int) =~= ticks);
    let mut m = string_from(what);
    push_str(&mut m, ": unknown variant `");
    push_all(&mut m, got);
    push_str(&mut m, "`, expected one of ");
    push_str(&mut m, list.as_str());
    ParseError(m)
}

// ---------------------------------------------------------------------------
// Resolution
// ---------------------------------------------------------------------------

/// Output frame size in pixels.
#[derive(Debug, Clone, Copy, PartialEq, Eq, Structural)]
pub struct Resolution {
    /// Frame width in pixels. Always even.
    pub width: u32,
    /// Frame height in pixels. Always even.
    pub height: u32,
}

pub open spec fn resolution_malformed(input: Seq<char>) -> Seq<char> {
    "invalid resolution `"@ + input
        + "`: expected `WIDTHxHEIGHT` (e.g. `1920x1080`) or a named size (`720p`, `1080p`, `4k`)"@
}

pub open spec fn resolution_odd(input: Seq<char>) -> Seq<char> {
    "invalid resolution `"@ + input
        + "`: width and height must be even (the yuv420p pixel format ffmpeg encodes to cannot subsample odd dimensions)"@
}

/// What a resolution string means: a named size, or `WIDTHxHEIGHT` with both
/// sides positive and even. Case and surrounding white space do not matter.
pub open spec fn parse_resolution(s: Seq<char>) -> Result<Resolution, Seq<char>> {
    let input = trim(s);
    let lowered = lower(input);
    if lowered == "720p"@ {
        Ok(Resolution { width: 1280, height: 720 })
    } else if lowered == "1080p"@ {
        Ok(Resolution { width: 1920, height: 1080 })
    } else if lowered == "4k"@ {
        Ok(Resolution { width: 3840, height: 2160 })
    } else {
        let at = find(lowered, 'x');
        if at < 0 {
            Err(resolution_malformed(input))
        } else {
            let w = parse_unsigned(lowered.subrange(0, at), 0xffff_ffff);
            let h = parse_unsigned(lowered.subrange(at + 1, lowered.len() as int), 0xffff_ffff);
            if w.is_none() || h.is_none() || w.unwrap() == 0 || h.unwrap() == 0 {
                Err(resolution_malformed(input))
            } else if w.unwrap() % 2 != 0 || h.unwrap() % 2 != 0 {
                Err(resolution_odd(input))
            } else {
                Ok(Resolution { width: w.unwrap() as u32, height: h.unwrap() as u32 })
            }
        }
    }
}

/// `WIDTHxHEIGHT`, the way ffmpeg's `-s` reads it.
pub open spec fn resolution_text(r: Resolution) -> Seq<char> {
    decimal(r.width as nat) + "x"@ + decimal(r.height as nat)
}

impl Resolution {
    pub fn new(width: u32, height: u32) -> (r: Resolution)
        ensures
            r.width == width && r.height == height,
    {
        Resolution { width, height }
    }

    /// Parse a frame size: `720p`, `1080p`, `4k`, or `WIDTHxHEIGHT`.
    pub fn parse(s: &str) -> (r: Result<Resolution, ParseError>)
        ensures
            match r {
                Ok(res) => parse_resolution(s@) == Ok::<Resolution, Seq<char>>(res),
                Err(e) => parse_resolution(s@) == Err::<Resolution, Seq<char>>(e@),
            },
    {
        let chars = chars_of(s);
        let input = trim_chars(&chars);
        let lowered = lower_chars(&input);
        if chars_eq_str(&lowered, "720p") {
            return Ok(Resolution::new(1280, 720));
        }
        if chars_eq_str(&lowered, "1080p") {
            return Ok(Resolution::new(1920, 1080));
        }
        if chars_eq_str(&lowered, "4k") {
            return Ok(Resolution::new(3840, 2160));
        }
        let at = match find_exec(&lowered, 'x') {
            Some(at) => at,
            None => return Err(Self::malformed(&input)),
        };
        proof {
            lemma_find(lowered@, 'x');
        }
        let left = slice(&lowered, 0, at);
        let right = slice(&lowered, at + 1, lowered.len());
        let w = parse_unsigned_exec(&left, 0xffff_ffff);
        let h = parse_unsigned_exec(&right, 0xffff_ffff);
        match (w, h) {
            (Some(w), Some(h)) => {
                if w == 0 || h == 0 {
                    return Err(Self::malformed(&input));
                }
                if w % 2 != 0 || h % 2 != 0 {
                    let mut m = string_from("invalid resolution `");
                    push_all(&mut m, &input);
                    push_str(
                        &mut m,
                        "`: width and height must be even (the yuv420p pixel format ffmpeg encodes to cannot subsample odd dimensions)",
                    );
                    return Err(ParseError(m));
                }
                Ok(Resolution::new(w as u32, h as u32))
            },
            _ => Err(Self::malformed(&input)),
        }
    }

    fn malformed(input: &Vec<char>) -> (e: ParseError)
        ensures
            e@ == resolution_malformed(input@),
    {
        let mut m = string_from("invalid resolution `");
        push_all(&mut m, input);
        push_str(
            &mut m,
            "`: expected `WIDTHxHEIGHT` (e.g. `1920x1080`) or a named size (`720p`, `1080p`, `4k`)",
        );
        ParseError(m)
    }

    /// `WIDTHxHEIGHT`.
    pub fn to_string(&self) -> (s: String)
        ensures
            s@ == resolution_text(*self),
    {
        let mut s = String::new();
        push_decimal(&mut s, self.width as u64);
        push_str(&mut s, "x");
        push_decimal(&mut s, self.height as u64);
        assert(s@ =~= resolution_text(*self));
        s
    }
}

impl std::str::FromStr for Resolution {
    type Err = ParseError;

    fn from_str(s: &str) -> (r: Result<Resolution, ParseError>)
        ensures
            match r {
                Ok(res) => parse_resolution(s@) == Ok::<Resolution, Seq<char>>(res),
                Err(e) => parse_resolution(s@) == Err::<Resolution, Seq<char>>(e@),
            },
    {
        Resolution::parse(s)
    }
}

// ---------------------------------------------------------------------------
// Codec, Fit, Position
// ---------------------------------------------------------------------------

/// Video codec passed to ffmpeg.
///
/// Only [`Codec::X264`] is wired into the encoder for now; the other variants
/// parse so that a config written for a later release fails at render time
/// with a clear message instead of at parse time with a typo hint.
#[derive(Debug, Clone, Copy, PartialEq, Eq, Structural)]
pub enum Codec {
    /// `libx264`, the default.
    X264,
    /// `libx265`.
    X265,
    /// AV1.
    Av1,
}

pub open spec fn codec_name(c: Codec) -> Seq<char> {
    match c {
        Codec::X264 => "x264"@,
        Codec::X265 => "x265"@,
        Codec::Av1 => "av1"@,
    }
}

pub open spec fn parse_codec(s: Seq<char>) -> Result<Codec, Seq<char>> {
    let t = trim(s);
    if t == "x264"@ {
        Ok(Codec::X264)
    } else if t == "x265"@ {
        Ok(Codec::X265)
    } else if t == "av1"@ {
        Ok(Codec::Av1)
    } else {
        Err(one_of_message("codec"@, t, seq!["x264"@, "x265"@, "av1"@]))
    }
}

impl Codec {
    /// The spelling used in config files and on the command line.
    pub fn as_str(self) -> (s: &'static str)
        ensures
            s@ == codec_name(self),
    {
        match self {
            Codec::X264 => "x264",
            Codec::X265 => "x265",
            Codec::Av1 => "av1",
        }
    }

    /// Parse a codec name.
    pub fn parse(s: &str) -> (r: Result<Codec, ParseError>)
        ensures
            match r {
                Ok(c) => parse_codec(s@) == Ok::<Codec, Seq<char>>(c),
                Err(e) => parse_codec(s@) == Err::<Codec, Seq<char>>(e@),
            },
    {
        let t = trim_chars(&chars_of(s));
        if chars_eq_str(&t, "x264") {
            Ok(Codec::X264)
        } else if chars_eq_str(&t, "x265") {
            Ok(Codec::X265)
        } else if chars_eq_str(&t, "av1") {
            Ok(Codec::Av1)
        } else {
            let names: [&str; 3] = ["x264", "x265", "av1"];
            let e = one_of("codec", &t, &names);
            assert(names@.map_values(|x: &str| x@) =~= seq!["x264"@, "x265"@, "av1"@]);
            Err(e)
        }
    }
}

impl std::str::FromStr for Codec {
    type Err = ParseError;

    fn from_str(s: &str) -> (r: Result<Codec, ParseError>)
        ensures
            match r {
                Ok(x) => parse_codec(s@) == Ok::<Codec, Seq<char>>(x),
                Err(e) => parse_codec(s@) == Err::<Codec, Seq<char>>(e@),
            },
    {
        Codec::parse(s)
    }
}

/// How a background image is fitted to the output frame.
#[derive(Debug, Clone, Copy, PartialEq, Eq, Structural)]
pub enum Fit {
    /// Fill the frame, cropping overflow. Preserves aspect ratio.
    Cover,
    /// Fit inside the frame, letterboxing. Preserves aspect ratio.
    Contain,
    /// Fill the frame, distorting aspect ratio.
    Stretch,
}

pub open spec fn fit_name(f: Fit) -> Seq<char> {
    match f {
        Fit::Cover => "cover"@,
        Fit::Contain => "contain"@,
        Fit::Stretch => "stretch"@,
    }
}

pub open spec fn parse_fit(s: Seq<char>) -> Result<Fit, Seq<char>> {
    let t = trim(s);
    if t == "cover"@ {
        Ok(Fit::Cover)
    } else if t == "contain"@ {
        Ok(Fit::Contain)
    } else if t == "stretch"@ {
        Ok(Fit::Stretch)
    } else {
        Err(one_of_message("fit"@, t, seq!["cover"@, "contain"@, "stretch"@]))
    }
}

impl Fit {
    /// The spelling used in config files.
    pub fn as_str(self) -> (s: &'static str)
        ensures
            s@ == fit_name(self),
    {
        match self {
            Fit::Cover => "cover",
            Fit::Contain => "contain",
            Fit::Stretch => "stretch",
        }
    }

    /// Parse a fit mode.
    pub fn parse(s: &str) -> (r: Result<Fit, ParseError>)
        ensures
            match r {
                Ok(f) => parse_fit(s@) == Ok::<Fit, Seq<char>>(f),
                Err(e) => parse_fit(s@) == Err::<Fit, Seq<char>>(e@),
            },
    {
        let t = trim_chars(&chars_of(s));
        if chars_eq_str(&t, "cover") {
            Ok(Fit::Cover)
        } else if chars_eq_str(&t, "contain") {
            Ok(Fit::Contain)
        } else if chars_eq_str(&t, "stretch") {
            Ok(Fit::Stretch)
        } else {
            let names: [&str; 3] = ["cover", "contain", "stretch"];
            let e = one_of("fit", &t, &names);
            assert(names@.map_values(|x: &str| x@) =~= seq!["cover"@, "contain"@, "stretch"@]);
            Err(e)
        }
    }
}

impl std::str::FromStr for Fit {
    type Err = ParseError;

    fn from_str(s: &str) -> (r: Result<Fit, ParseError>)
        ensures
            match r {
                Ok(x) => parse_fit(s@) == Ok::<Fit, Seq<char>>(x),
                Err(e) => parse_fit(s@) == Err::<Fit, Seq<char>>(e@),
            },
    {
        Fit::parse(s)
    }
}

/// Where the text card sits: a nine-grid.
#[derive(Debug, Clone, Copy, PartialEq, Eq, Structural)]
pub enum Position {
    /// Top-left corner.
    TopLeft,
    /// Top edge, horizontally centered.
    TopCenter,
    /// Top-right corner.
    TopRight,
    /// Left edge, vertically centered.
    CenterLeft,
    /// Frame center.
    Center,
    /// Right edge, vertically centered.
    CenterRight,
    /// Bottom-left corner.
    BottomLeft,
    /// Bottom edge, horizontally centered.
    BottomCenter,
    /// Bottom-right corner.
    BottomRight,
}

pub open spec fn position_name(p: Position) -> Seq<char> {
    match p {
        Position::TopLeft => "top-left"@,
        Position::TopCenter => "top-center"@,
        Position::TopRight => "top-right"@,
        Position::CenterLeft => "center-left"@,
        Position::Center => "center"@,
        Position::CenterRight => "center-right"@,
        Position::BottomLeft => "bottom-left"@,
        Position::BottomCenter => "bottom-center"@,
        Position::BottomRight => "bottom-right"@,
    }
}

/// Every position, in the order error messages list them.
pub open spec fn all_positions() -> Seq<Position> {
    seq![
        Position::TopLeft,
        Position::TopCenter,
        Position::TopRight,
        Position::CenterLeft,
        Position::Center,
        Position::CenterRight,
        Position::BottomLeft,
        Position::BottomCenter,
        Position::BottomRight,
    ]
}

pub open spec fn parse_position(s: Seq<char>) -> Result<Position, Seq<char>> {
    let t = trim(s);
    if exists|i: int| 0 <= i < 9 && position_name(#[trigger] all_positions()[i]) == t {
        Ok(choose|p: Position| position_name(p) == t)
    } else {
        Err(one_of_message("position"@, t, all_positions().map_values(|p: Position| position_name(p))))
    }
}

/// No two positions share a name.
pub proof fn lemma_position_names_distinct(p: Position, q: Position)
    ensures
        position_name(p) == position_name(q) ==> p == q,
{
    reveal_strlit("top-left");
    reveal_strlit("top-center");
    reveal_strlit("top-right");
    reveal_strlit("center-left");
    reveal_strlit("center");
    reveal_strlit("center-right");
    reveal_strlit("bottom-left");
    reveal_strlit("bottom-center");
    reveal_strlit("bottom-right");
    if position_name(p) == position_name(q) && p != q {
        assert(position_name(p).len() == position_name(q).len());
        assert(position_name(p)[0] == position_name(q)[0]);
        assert(position_name(p)[4] == position_name(q)[4]);
        assert(position_name(p)[position_name(p).len() - 1] == position_name(q)[position_name(q).len() - 1]);
        assert(position_name(p)[position_name(p).len() - 2] == position_name(q)[position_name(q).len() - 2]);
    }
}

impl Position {
    /// Every position, in the order error messages list them.
    pub fn all() -> (v: Vec<Position>)
        ensures
            v@ == all_positions(),
    {
        let v = vec![
            Position::TopLeft,
            Position::TopCenter,
            Position::TopRight,
            Position::CenterLeft,
            Position::Center,
            Position::CenterRight,
            Position::BottomLeft,
            Position::BottomCenter,
            Position::BottomRight,
        ];
        assert(v@ =~= all_positions());
        v
    }

    /// The spelling used in config files.
    pub fn as_str(self) -> (s: &'static str)
        ensures
            s@ == position_name(self),
    {
        match self {
            Position::TopLeft => "top-left",
            Position::TopCenter => "top-center",
            Position::TopRight => "top-right",
            Position::CenterLeft => "center-left",
            Position::Center => "center",
            Position::CenterRight => "center-right",
            Position::BottomLeft => "bottom-left",
            Position::BottomCenter => "bottom-center",
            Position::BottomRight => "bottom-right",
        }
    }

    /// Parse a position name.
    pub fn parse(s: &str) -> (r: Result<Position, ParseError>)
        ensures
            match r {
                Ok(p) => parse_position(s@) == Ok::<Position, Seq<char>>(p),
                Err(e) => parse_position(s@) == Err::<Position, Seq<char>>(e@),
            },
    {
        let t = trim_chars(&chars_of(s));
        let all = Position::all();
        let mut i: usize = 0;
        while i < all.len()
            invariant
                all@ == all_positions(),
                t@ == trim(s@),
                i <= 9,
                forall|j: int| 0 <= j < i ==> position_name(#[trigger] all_positions()[j]) != t@,
            decreases all.len() - i,
        {
            let p = all[i];
            if chars_eq_str(&t, p.as_str()) {
                proof {
                    assert(all_positions()[i as int] == p);
                    assert(position_name(all_positions()[i as int]) == t@);
                    let c = choose|q: Position| position_name(q) == t@;
                    lemma_position_names_distinct(p, c);
                }
                return Ok(p);
            }
            i = i + 1;
        }
        let names: [&str; 9] = [
            "top-left",
            "top-center",
            "top-right",
            "center-left",
            "center",
            "center-right",
            "bottom-left",
            "bottom-center",
            "bottom-right",
        ];
        let e = one_of("position", &t, &names);
        assert(names@.map_values(|x: &str| x@) =~= all_positions().map_values(
            |p: Position| position_name(p),
        ));
        Err(e)
    }
}

impl std::str::FromStr for Position {
    type Err = ParseError;

    fn from_str(s: &str) -> (r: Result<Position, ParseError>)
        ensures
            match r {
                Ok(x) => parse_position(s@) == Ok::<Position, Seq<char>>(x),
                Err(e) => parse_position(s@) == Err::<Position, Seq<char>>(e@),
            },
    {
        Position::parse(s)
    }
}

// ---------------------------------------------------------------------------
// Color
// ---------------------------------------------------------------------------

/// An sRGB color with alpha, written as `#rgb`, `#rrggbb`, or `#rrggbbaa`.
#[derive(Debug, Clone, Copy, PartialEq, Eq, Structural)]
pub struct Color {
    /// Red channel.
    pub r: u8,
    /// Green channel.
    pub g: u8,
    /// Blue channel.
    pub b: u8,
    /// Alpha channel. `255` unless an eight-digit hex form was used.
    pub a: u8,
}

pub open spec fn color_malformed(input: Seq<char>) -> Seq<char> {
    "invalid color `"@ + input + "`: expected `#rgb`, `#rrggbb`, or `#rrggbbaa` (e.g. `#1a1a2e`)"@
}

/// Two hex digits at `at` as one byte.
pub open spec fn hex_byte(h: Seq<char>, at: int) -> u8 {
    (hex_value(h[at]) * 16 + hex_value(h[at + 1])) as u8
}

/// One hex digit at `at`, doubled: `f` reads as `ff`.
pub open spec fn hex_nibble(h: Seq<char>, at: int) -> u8 {
    (hex_value(h[at]) * 17) as u8
}

pub open spec fn parse_color(s: Seq<char>) -> Result<Color, Seq<char>> {
    let input = trim(s);
    if input.len() == 0 || input[0] != '#' {
        Err(color_malformed(input))
    } else {
        let h = input.drop_first();
        if !all_hex(h) {
            Err(color_malformed(input))
        } else if h.len() == 3 {
            Ok(Color { r: hex_nibble(h, 0), g: hex_nibble(h, 1), b: hex_nibble(h, 2), a: 255 })
        } else if h.len() == 6 {
            Ok(Color { r: hex_byte(h, 0), g: hex_byte(h, 2), b: hex_byte(h, 4), a: 255 })
        } else if h.len() == 8 {
            Ok(Color { r: hex_byte(h, 0), g: hex_byte(h, 2), b: hex_byte(h, 4), a: hex_byte(h, 6) })
        } else {
            Err(color_malformed(input))
        }
    }
}

fn hex_digit_value(c: char) -> (r: u8)
    requires
        is_hex_digit(c),
    ensures
        r as nat == hex_value(c),
        r < 16,
{
    if '0' <= c && c <= '9' {
        (c as u32 - '0' as u32) as u8
    } else if 'a' <= c && c <= 'f' {
        (c as u32 - 'a' as u32 + 10) as u8
    } else {
        (c as u32 - 'A' as u32 + 10) as u8
    }
}

impl Color {
    /// Parse `#rgb`, `#rrggbb`, or `#rrggbbaa`.
    pub fn parse(s: &str) -> (r: Result<Color, ParseError>)
        ensures
            match r {
                Ok(c) => parse_color(s@) == Ok::<Color, Seq<char>>(c),
                Err(e) => parse_color(s@) == Err::<Color, Seq<char>>(e@),
            },
    {
        let input = trim_chars(&chars_of(s));
        proof {
            crate::text::lemma_trim_idempotent(s@);
        }
        Self::parse_chars(&input)
    }

    /// [`Color::parse`] over characters that are already trimmed.
    pub fn parse_chars(input: &Vec<char>) -> (r: Result<Color, ParseError>)
        requires
            trim(input@) == input@,
        ensures
            match r {
                Ok(c) => parse_color(input@) == Ok::<Color, Seq<char>>(c),
                Err(e) => parse_color(input@) == Err::<Color, Seq<char>>(e@),
            },
    {
        if input.len() == 0 || input[0] != '#' {
            return Err(Self::malformed(input));
        }
        let h = slice(input, 1, input.len());
        assert(h@ =~= input@.drop_first());
        let mut i: usize = 0;
        while i < h.len()
            invariant
                i <= h@.len(),
                h@ == input@.drop_first(),
                input@.len() > 0 && input@[0] == '#',
                trim(input@) == input@,
                forall|j: int| 0 <= j < i ==> is_hex_digit(#[trigger] h@[j]),
            decreases h.len() - i,
        {
            let c = h[i];
            if !(('0' <= c && c <= '9') || ('a' <= c && c <= 'f') || ('A' <= c && c <= 'F')) {
                assert(!is_hex_digit(h@[i as int]));
                return Err(Self::malformed(input));
            }
            i = i + 1;
        }
        assert(all_hex(h@));
        if h.len() == 3 {
            let r = hex_digit_value(h[0]) * 17;
            let g = hex_digit_value(h[1]) * 17;
            let b = hex_digit_value(h[2]) * 17;
            Ok(Color { r, g, b, a: 255 })
        } else if h.len() == 6 || h.len() == 8 {
            let r = hex_digit_value(h[0]) * 16 + hex_digit_value(h[1]);
            let g = hex_digit_value(h[2]) * 16 + hex_digit_value(h[3]);
            let b = hex_digit_value(h[4]) * 16 + hex_digit_value(h[5]);
            let a = if h.len() == 8 {
                hex_digit_value(h[6]) * 16 + hex_digit_value(h[7])
            } else {
                255
            };
            Ok(Color { r, g, b, a })
        } else {
            Err(Self::malformed(input))
        }
    }

    fn malformed(input: &Vec<char>) -> (e: ParseError)
        ensures
            e@ == color_malformed(input@),
    {
        let mut m = string_from("invalid color `");
        push_all(&mut m, input);
        push_str(&mut m, "`: expected `#rgb`, `#rrggbb`, or `#rrggbbaa` (e.g. `#1a1a2e`)");
        ParseError(m)
    }
}

impl std::str::FromStr for Color {
    type Err = ParseError;

    fn from_str(s: &str) -> (r: Result<Color, ParseError>)
        ensures
            match r {
                Ok(x) => parse_color(s@) == Ok::<Color, Seq<char>>(x),
                Err(e) => parse_color(s@) == Err::<Color, Seq<char>>(e@),
            },
    {
        Color::parse(s)
    }
}

// ---------------------------------------------------------------------------
// Palette
// ---------------------------------------------------------------------------

/// The fewest colors an inline palette can define: with one, every slot of the
/// uniform would hold it and there would be nothing to interpolate between.
pub const MIN_PALETTE_COLORS: usize = 2;

/// The most colors an inline palette can define. It is resampled onto the
/// shader's five slots, so it may hold more than five, but not so many that
/// the result stops resembling what the user wrote.
pub const MAX_PALETTE_COLORS: usize = 8;

/// The color scheme driving a preset: a built-in name or inline hex colors.
#[derive(Debug, Clone, PartialEq, Eq)]
pub enum Palette {
    /// A built-in palette, e.g. `ember`.
    Named(String),
    /// Two to eight colors given inline.
    Inline(Vec<Color>),
}

/// What a palette is, with its contents as plain sequences.
pub ghost enum PaletteModel {
    Named(Seq<char>),
    Inline(Seq<Color>),
}

impl View for Palette {
    type V = PaletteModel;

    open spec fn view(&self) -> PaletteModel {
        match self {
            Palette::Named(n) => PaletteModel::Named(n@),
            Palette::Inline(c) => PaletteModel::Inline(c@),
        }
    }
}

pub open spec fn palette_count_message(n: nat) -> Seq<char> {
    "an inline palette takes 2 to 8 colors, got "@ + decimal(n)
}

pub open spec fn palette_name_message(input: Seq<char>) -> Seq<char> {
    "invalid palette `"@ + input
        + "`: expected a built-in name such as `ember`, or hex colors such as `#1a1a2e,#e94560`"@
}

/// The message for a bad color at 1-based position `k`.
pub open spec fn palette_entry_message(k: nat, e: Seq<char>) -> Seq<char> {
    "palette entry "@ + decimal(k) + ": "@ + e
}

/// An inline palette of `colors`, if there are between two and eight of them.
pub open spec fn inline_palette(colors: Seq<Color>) -> Result<PaletteModel, Seq<char>> {
    if colors.len() < 2 || colors.len() > 8 {
        Err(palette_count_message(colors.len()))
    } else {
        Ok(PaletteModel::Inline(colors))
    }
}

/// Every entry parsed as a color, or the message for the first one that is not.
pub open spec fn parse_colors(pieces: Seq<Seq<char>>) -> Result<Seq<Color>, Seq<char>>
    decreases pieces.len(),
{
    if pieces.len() == 0 {
        Ok(Seq::empty())
    } else {
        match parse_colors(pieces.drop_last()) {
            Err(e) => Err(e),
            Ok(cs) => match parse_color(pieces.last()) {
                Ok(c) => Ok(cs.push(c)),
                Err(e) => Err(palette_entry_message(pieces.len(), e)),
            },
        }
    }
}

/// Whether `s` spells a built-in palette name: lowercase ASCII first, then
/// lowercase ASCII, digits, and dashes.
pub open spec fn is_palette_name(s: Seq<char>) -> bool {
    s.len() > 0 && is_lower(s[0]) && forall|i: int|
        0 <= i < s.len() ==> is_lower(#[trigger] s[i]) || is_digit(s[i]) || s[i] == '-'
}

/// The palette a TOML array of colors spells, or the message for its first
/// bad entry or for a count outside 2 to 8.
pub open spec fn palette_of_entries(entries: Seq<Seq<char>>) -> Result<PaletteModel, Seq<char>> {
    match parse_colors(entries) {
        Err(e) => Err(e),
        Ok(cs) => inline_palette(cs),
    }
}

pub open spec fn parse_palette(s: Seq<char>) -> Result<PaletteModel, Seq<char>> {
    let input = trim(s);
    if input.contains('#') {
        match parse_colors(split(input, ',')) {
            Err(e) => Err(e),
            Ok(cs) => inline_palette(cs),
        }
    } else if is_palette_name(input) {
        Ok(PaletteModel::Named(input))
    } else {
        Err(palette_name_message(input))
    }
}

pub proof fn lemma_parse_colors_step(pieces: Seq<Seq<char>>, i: int)
    requires
        0 <= i < pieces.len(),
    ensures
        parse_colors(pieces.subrange(0, i + 1)) == match parse_colors(pieces.subrange(0, i)) {
            Err(e) => Err(e),
            Ok(cs) => match parse_color(pieces[i]) {
                Ok(c) => Ok(cs.push(c)),
                Err(e) => Err(palette_entry_message((i + 1) as nat, e)),
            },
        },
{
    assert(pieces.subrange(0, i + 1).drop_last() =~= pieces.subrange(0, i));
}

impl Palette {
    /// Build an inline palette, checking the color count.
    pub fn inline(colors: Vec<Color>) -> (r: Result<Palette, ParseError>)
        ensures
            match r {
                Ok(p) => inline_palette(colors@) == Ok::<PaletteModel, Seq<char>>(p@),
                Err(e) => inline_palette(colors@) == Err::<PaletteModel, Seq<char>>(e@),
            },
    {
        if colors.len() < MIN_PALETTE_COLORS || colors.len() > MAX_PALETTE_COLORS {
            let mut m = string_from("an inline palette takes 2 to 8 colors, got ");
            push_decimal(&mut m, colors.len() as u64);
            return Err(ParseError(m));
        }
        Ok(Palette::Inline(colors))
    }

    /// An inline palette from the entries of a TOML array, each one a color
    /// as written; a bad color is reported by its 1-based position, as the
    /// comma-separated spelling reports it.
    pub fn from_entries(entries: &Vec<String>) -> (r: Result<Palette, ParseError>)
        ensures
            match r {
                Ok(p) => palette_of_entries(entries@.map_values(|e: String| e@)) == Ok::<
                    PaletteModel,
                    Seq<char>,
                >(p@),
                Err(e) => palette_of_entries(entries@.map_values(|e: String| e@)) == Err::<
                    PaletteModel,
                    Seq<char>,
                >(e@),
            },
    {
        let ghost views = entries@.map_values(|e: String| e@);
        let mut colors: Vec<Color> = Vec::new();
        let mut i: usize = 0;
        assert(views.subrange(0, 0) =~= Seq::<Seq<char>>::empty());
        while i < entries.len()
            invariant
                i <= entries@.len(),
                views == entries@.map_values(|e: String| e@),
                parse_colors(views.subrange(0, i as int)) == Ok::<Seq<Color>, Seq<char>>(colors@),
            decreases entries.len() - i,
        {
            proof {
                lemma_parse_colors_step(views, i as int);
            }
            match Color::parse(entries[i].as_str()) {
                Ok(c) => {
                    colors.push(c);
                },
                Err(e) => {
                    let mut m = string_from("palette entry ");
                    push_decimal(&mut m, (i + 1) as u64);
                    push_str(&mut m, ": ");
                    push_str(&mut m, e.to_string().as_str());
                    proof {
                        lemma_parse_colors_err_sticks(views, (i + 1) as int);
                    }
                    assert(views.subrange(0, views.len() as int) =~= views);
                    return Err(ParseError(m));
                },
            }
            i = i + 1;
        }
        assert(views.subrange(0, views.len() as int) =~= views);
        Palette::inline(colors)
    }

    /// Parse a palette: a built-in name, or comma-separated hex colors.
    pub fn parse(s: &str) -> (r: Result<Palette, ParseError>)
        ensures
            match r {
                Ok(p) => parse_palette(s@) == Ok::<PaletteModel, Seq<char>>(p@),
                Err(e) => parse_palette(s@) == Err::<PaletteModel, Seq<char>>(e@),
            },
    {
        let input = trim_chars(&chars_of(s));
        if contains_char(&input, '#') {
            let pieces = split_exec(&input, ',');
            let ghost views = pieces@.map_values(|p: Vec<char>| p@);
            let mut colors: Vec<Color> = Vec::new();
            let mut i: usize = 0;
            while i < pieces.len()
                invariant
                    i <= pieces@.len(),
                    input@ == trim(s@),
                    input@.contains('#'),
                    views == pieces@.map_values(|p: Vec<char>| p@),
                    views == split(input@, ','),
                    parse_colors(views.subrange(0, i as int)) == Ok::<Seq<Color>, Seq<char>>(
                        colors@,
                    ),
                decreases pieces.len() - i,
            {
                proof {
                    lemma_parse_colors_step(views, i as int);
                }
                let piece = trim_chars(&pieces[i]);
                proof {
                    crate::text::lemma_trim_idempotent(pieces@[i as int]@);
                    lemma_parse_color_trims(pieces@[i as int]@);
                }
                match Color::parse_chars(&piece) {
                    Ok(c) => {
                        colors.push(c);
                    },
                    Err(e) => {
                        let mut m = string_from("palette entry ");
                        push_decimal(&mut m, (i + 1) as u64);
                        push_str(&mut m, ": ");
                        push_str(&mut m, e.to_string().as_str());
                        proof {
                            lemma_parse_colors_err_sticks(views, (i + 1) as int);
                        }
                        assert(views.subrange(0, views.len() as int) =~= views);
                        return Err(ParseError(m));
                    },
                }
                i = i + 1;
            }
            assert(views.subrange(0, views.len() as int) =~= views);
            return Palette::inline(colors);
        }
        if input.len() > 0 && 'a' <= input[0] && input[0] <= 'z' {
            let mut i: usize = 0;
            while i < input.len()
                invariant
                    i <= input@.len(),
                    input@ == trim(s@),
                    !input@.contains('#'),
                    input@.len() > 0 && is_lower(input@[0]),
                    forall|j: int|
                        0 <= j < i ==> is_lower(#[trigger] input@[j]) || is_digit(input@[j])
                            || input@[j] == '-',
                decreases input.len() - i,
            {
                let c = input[i];
                if !(('a' <= c && c <= 'z') || ('0' <= c && c <= '9') || c == '-') {
                    assert(!(is_lower(input@[i as int]) || is_digit(input@[i as int]) || input@[i as int] == '-'));
                    return Err(Self::bad_name(&input));
                }
                i = i + 1;
            }
            Ok(Palette::Named(string_of(&input)))
        } else {
            Err(Self::bad_name(&input))
        }
    }

    fn bad_name(input: &Vec<char>) -> (e: ParseError)
        ensures
            e@ == palette_name_message(input@),
    {
        let mut m = string_from("invalid palette `");
        push_all(&mut m, input);
        push_str(
            &mut m,
            "`: expected a built-in name such as `ember`, or hex colors such as `#1a1a2e,#e94560`",
        );
        ParseError(m)
    }
}

/// A failure at some entry stays the answer however many entries follow.
pub proof fn lemma_parse_colors_err_sticks(pieces: Seq<Seq<char>>, i: int)
    requires
        0 <= i <= pieces.len(),
        parse_colors(pieces.subrange(0, i)) is Err,
    ensures
        parse_colors(pieces) == parse_colors(pieces.subrange(0, i)),
    decreases pieces.len() - i,
{
    if i < pieces.len() {
        lemma_parse_colors_step(pieces, i);
        lemma_parse_colors_err_sticks(pieces, i + 1);
    } else {
        assert(pieces.subrange(0, i) =~= pieces);
    }
}

/// A color parses the same before and after trimming.
pub proof fn lemma_parse_color_trims(s: Seq<char>)
    ensures
        parse_color(trim(s)) == parse_color(s),
{
    crate::text::lemma_trim_idempotent(s);
}

impl std::str::FromStr for Palette {
    type Err = ParseError;

    fn from_str(s: &str) -> (r: Result<Palette, ParseError>)
        ensures
            match r {
                Ok(x) => parse_palette(s@) == Ok::<PaletteModel, Seq<char>>(x@),
                Err(e) => parse_palette(s@) == Err::<PaletteModel, Seq<char>>(e@),
            },
    {
        Palette::parse(s)
    }
}

// ---------------------------------------------------------------------------
// Seed and font
// ---------------------------------------------------------------------------

/// The RNG seed. `auto` derives it from the input file name so re-renders match.
#[derive(Debug, Clone, Copy, PartialEq, Eq, Structural)]
pub enum Seed {
    /// Derive the seed from the input file name.
    Auto,
    /// Use exactly this seed.
    Fixed(u64),
}

pub open spec fn seed_message(input: Seq<char>) -> Seq<char> {
    "invalid seed `"@ + input + "`: expected `auto` or a non-negative integer"@
}

pub open spec fn parse_seed(s: Seq<char>) -> Result<Seed, Seq<char>> {
    let input = trim(s);
    if input == "auto"@ {
        Ok(Seed::Auto)
    } else {
        match parse_unsigned(input, 0xffff_ffff_ffff_ffff) {
            Some(n) => Ok(Seed::Fixed(n as u64)),
            None => Err(seed_message(input)),
        }
    }
}

impl Seed {
    /// Parse `auto` or a non-negative integer.
    pub fn parse(s: &str) -> (r: Result<Seed, ParseError>)
        ensures
            match r {
                Ok(x) => parse_seed(s@) == Ok::<Seed, Seq<char>>(x),
                Err(e) => parse_seed(s@) == Err::<Seed, Seq<char>>(e@),
            },
    {
        let input = trim_chars(&chars_of(s));
        if chars_eq_str(&input, "auto") {
            return Ok(Seed::Auto);
        }
        match parse_unsigned_exec(&input, 0xffff_ffff_ffff_ffff) {
            Some(n) => Ok(Seed::Fixed(n)),
            None => {
                let mut m = string_from("invalid seed `");
                push_all(&mut m, &input);
                push_str(&mut m, "`: expected `auto` or a non-negative integer");
                Err(ParseError(m))
            },
        }
    }
}

impl std::str::FromStr for Seed {
    type Err = ParseError;

    fn from_str(s: &str) -> (r: Result<Seed, ParseError>)
        ensures
            match r {
                Ok(x) => parse_seed(s@) == Ok::<Seed, Seq<char>>(x),
                Err(e) => parse_seed(s@) == Err::<Seed, Seq<char>>(e@),
            },
    {
        Seed::parse(s)
    }
}

/// Which font renders the text card.
#[derive(Debug, Clone, PartialEq, Eq)]
pub enum FontChoice {
    /// Use the bundled font.
    Auto,
    /// Load a font from this path.
    Path(String),
}

pub ghost enum FontModel {
    Auto,
    Path(Seq<char>),
}

impl View for FontChoice {
    type V = FontModel;

    open spec fn view(&self) -> FontModel {
        match self {
            FontChoice::Auto => FontModel::Auto,
            FontChoice::Path(p) => FontModel::Path(p@),
        }
    }
}

pub open spec fn parse_font(s: Seq<char>) -> Result<FontModel, Seq<char>> {
    let input = trim(s);
    if input == "auto"@ {
        Ok(FontModel::Auto)
    } else if input.len() == 0 {
        Err("invalid font ``: expected `auto` or a path to a font file"@)
    } else {
        Ok(FontModel::Path(input))
    }
}

impl FontChoice {
    /// Parse `auto` or a path.
    pub fn parse(s: &str) -> (r: Result<FontChoice, ParseError>)
        ensures
            match r {
                Ok(f) => parse_font(s@) == Ok::<FontModel, Seq<char>>(f@),
                Err(e) => parse_font(s@) == Err::<FontModel, Seq<char>>(e@),
            },
    {
        let input = trim_chars(&chars_of(s));
        if chars_eq_str(&input, "auto") {
            Ok(FontChoice::Auto)
        } else if input.len() == 0 {
            Err(ParseError(string_from("invalid font ``: expected `auto` or a path to a font file")))
        } else {
            Ok(FontChoice::Path(string_of(&input)))
        }
    }
}

impl std::str::FromStr for FontChoice {
    type Err = ParseError;

    fn from_str(s: &str) -> (r: Result<FontChoice, ParseError>)
        ensures
            match r {
                Ok(x) => parse_font(s@) == Ok::<FontModel, Seq<char>>(x@),
                Err(e) => parse_font(s@) == Err::<FontModel, Seq<char>>(e@),
            },
    {
        FontChoice::parse(s)
    }
}

// ---------------------------------------------------------------------------
// Durations
// ---------------------------------------------------------------------------

/// One leading `+` or `-`, if there is one.
pub open spec fn sign_len(s: Seq<char>) -> int {
    if s.len() > 0 && (s[0] == '+' || s[0] == '-') {
        1
    } else {
        0
    }
}

pub open spec fn unsigned_part(s: Seq<char>) -> Seq<char> {
    s.subrange(sign_len(s), s.len() as int)
}

/// `s` with every `E` written `e`, so one search finds an exponent marker of
/// either case.
pub open spec fn fold_e(s: Seq<char>) -> Seq<char> {
    s.map_values(|c: char| if c == 'E' { 'e' } else { c })
}

/// Where the exponent marker (`e` or `E`) sits in a number's unsigned part,
/// or -1.
pub open spec fn exponent_at(s: Seq<char>) -> int {
    find(fold_e(unsigned_part(s)), 'e')
}

/// The number's unsigned part up to its exponent marker.
pub open spec fn mantissa(s: Seq<char>) -> Seq<char> {
    let b = unsigned_part(s);
    let at = exponent_at(s);
    if at < 0 {
        b
    } else {
        b.subrange(0, at)
    }
}

/// What follows the exponent marker, or nothing.
pub open spec fn exponent_text(s: Seq<char>) -> Seq<char> {
    let b = unsigned_part(s);
    let at = exponent_at(s);
    if at < 0 {
        Seq::empty()
    } else {
        b.subrange(at + 1, b.len() as int)
    }
}

/// An exponent: an optional sign, then at least one digit.
pub open spec fn is_exponent(e: Seq<char>) -> bool {
    unsigned_part(e).len() > 0 && all_digits(unsigned_part(e))
}

/// The value of an exponent.
pub open spec fn exponent_value(e: Seq<char>) -> int {
    if e.len() > 0 && e[0] == '-' {
        -(digits_value(unsigned_part(e)) as int)
    } else {
        digits_value(unsigned_part(e)) as int
    }
}

/// The digits before the decimal point.
pub open spec fn int_part(s: Seq<char>) -> Seq<char> {
    let b = mantissa(s);
    let d = find(b, '.');
    if d < 0 {
        b
    } else {
        b.subrange(0, d)
    }
}

/// The digits after the decimal point, up to any exponent.
pub open spec fn frac_part(s: Seq<char>) -> Seq<char> {
    let b = mantissa(s);
    let d = find(b, '.');
    if d < 0 {
        Seq::empty()
    } else {
        b.subrange(d + 1, b.len() as int)
    }
}

/// A plain decimal mantissa: an optional sign, digits with at most one
/// decimal point, and at least one digit (`1`, `+1.5`, `1.`, `.5`).
pub open spec fn is_plain_decimal(s: Seq<char>) -> bool {
    all_digits(int_part(s)) && all_digits(frac_part(s)) && int_part(s).len() + frac_part(
        s,
    ).len() > 0
}

/// The magnitude of a plain decimal number in units of `10^-places`, with
/// digits past the last place dropped.
pub open spec fn fixed_units(s: Seq<char>, places: nat) -> nat {
    digits_value(int_part(s)) * pow10(places) + digits_value(cut(frac_part(s), places))
}

/// The whole number the digits `d` spell once the decimal point is moved to
/// just after the first `p` of them: digits past the point are dropped, and
/// zeros fill in past the end.
pub open spec fn shifted(d: Seq<char>, p: int) -> nat {
    if p <= 0 {
        0
    } else if p < d.len() {
        digits_value(d.subrange(0, p))
    } else {
        digits_value(d) * pow10((p - d.len()) as nat)
    }
}

/// The magnitude of a number as `f64`'s parser reads one (`1`, `+1.5`, `.5`,
/// `2.5e-3`, `1E3`), in units of `10^-places`, digits past the last place
/// dropped; `None` for text that is not such a number.
pub open spec fn number_units(s: Seq<char>, places: nat) -> Option<nat> {
    if !is_plain_decimal(s) {
        None
    } else if exponent_at(s) < 0 {
        Some(fixed_units(s, places))
    } else if !is_exponent(exponent_text(s)) {
        None
    } else {
        Some(
            shifted(
                int_part(s) + frac_part(s),
                int_part(s).len() + places + exponent_value(exponent_text(s)),
            ),
        )
    }
}

/// `inf`, `infinity`, or `nan`, in any case and with an optional sign: the
/// values `f64`'s parser reads that are not finite, printed the way `f64`
/// prints them.
pub open spec fn non_finite_text(s: Seq<char>) -> Option<Seq<char>> {
    let b = lower(unsigned_part(s));
    if b == "inf"@ || b == "infinity"@ {
        Some(
            if sign_len(s) == 1 && s[0] == '-' {
                "-inf"@
            } else {
                "inf"@
            },
        )
    } else if b == "nan"@ {
        Some("NaN"@)
    } else {
        None
    }
}

/// A number below zero: a minus sign in front of some digit that is not zero.
pub open spec fn is_negative_number(s: Seq<char>) -> bool {
    s.len() > 0 && s[0] == '-' && (has_nonzero_digit(int_part(s)) || has_nonzero_digit(
        frac_part(s),
    ))
}

pub const U64_MAX: u64 = 0xffff_ffff_ffff_ffff;

pub const NANOS_PER_SEC: u64 = 1_000_000_000;

/// A number of seconds as the user reads it: whole seconds, then the fraction
/// with no trailing zeros (`1`, `0.6`, `0.25`).
pub open spec fn seconds_text(ns: nat) -> Seq<char> {
    let whole = decimal(ns / 1_000_000_000);
    let frac = ns % 1_000_000_000;
    if frac == 0 {
        whole
    } else {
        whole + "."@ + strip_zeros(padded(frac, 9))
    }
}

pub open spec fn duration_malformed(input: Seq<char>) -> Seq<char> {
    "invalid duration `"@ + input
        + "`: expected a unit (`1.0s`, `250ms`) or clock notation (`0:45`, `1:02:03`)"@
}

pub open spec fn duration_not_finite(text: Seq<char>) -> Seq<char> {
    "invalid duration `"@ + text + "`: expected a finite, non-negative number of seconds"@
}

pub open spec fn duration_negative(units: nat) -> Seq<char> {
    "invalid duration `"@ + "-"@ + seconds_text(units)
        + "`: expected a finite, non-negative number of seconds"@
}

/// `m:ss`, `m:ss.fff`, or `h:mm:ss`, in nanoseconds, or `None` for anything
/// else. The seconds must be below a minute; the leading fields are unsigned.
pub open spec fn parse_clock(input: Seq<char>) -> Option<u64> {
    let parts = split(input, ':');
    if parts.len() < 2 || parts.len() > 3 {
        None
    } else {
        let last = parts.last();
        let minutes = parse_unsigned(parts[parts.len() - 2], 0xffff_ffff);
        let hours = if parts.len() == 3 {
            parse_unsigned(parts[0], 0xffff_ffff)
        } else {
            Some(0nat)
        };
        let secs = number_units(last, 9);
        if secs is None || is_negative_number(last) || secs.unwrap() >= 60_000_000_000
            || minutes.is_none() || hours.is_none() {
            None
        } else {
            let total = secs.unwrap() + minutes.unwrap() * 60_000_000_000 + hours.unwrap()
                * 3_600_000_000_000;
            if total > 0xffff_ffff_ffff_ffff {
                None
            } else {
                Some(total as u64)
            }
        }
    }
}

/// A duration, in nanoseconds: `1.0s`, `250ms`, `0:45`, or `1:02:03.5`, the
/// number before the unit written any way `f64` reads one (`1e3s`). A bare
/// number is refused, because its unit would be a guess; so is one that is not
/// finite, or below zero, or past what a `u64` of nanoseconds holds.
pub open spec fn parse_seconds(s: Seq<char>) -> Result<u64, Seq<char>> {
    let input = trim(s);
    let n = input.len();
    if input.contains(':') {
        match parse_clock(input) {
            Some(ns) => Ok(ns),
            None => Err(duration_malformed(input)),
        }
    } else {
        let unit: int = if n >= 2 && input[n - 2] == 'm' && input[n - 1] == 's' {
            2
        } else if n >= 1 && input[n - 1] == 's' {
            1
        } else {
            0
        };
        if unit == 0 {
            Err(duration_malformed(input))
        } else {
            let num = trim(input.subrange(0, n - unit));
            let places: nat = if unit == 2 {
                6
            } else {
                9
            };
            match non_finite_text(num) {
                Some(t) => Err(duration_not_finite(t)),
                None => match number_units(num, places) {
                    None => Err(duration_malformed(input)),
                    Some(units) => if units > 0xffff_ffff_ffff_ffff {
                        Err(duration_malformed(input))
                    } else if is_negative_number(num) {
                        Err(duration_negative(units))
                    } else {
                        Ok(units as u64)
                    },
                },
            }
        }
    }
}

proof fn lemma_fixed_split(iv: nat, fv: nat, scale: nat, max: nat)
    requires
        scale > 0,
        fv <= max,
    ensures
        iv <= (max - fv) / (scale as int) <==> iv * scale + fv <= max,
{
    let q = (max - fv) / (scale as int);
    assert(q * scale <= max - fv) by (nonlinear_arith)
        requires
            q == (max - fv) / (scale as int),
            scale > 0,
            max - fv >= 0,
    ;
    assert((q + 1) * scale > max - fv) by (nonlinear_arith)
        requires
            q == (max - fv) / (scale as int),
            scale > 0,
            max - fv >= 0,
    ;
    if iv <= q {
        assert(iv * scale <= q * scale) by (nonlinear_arith)
            requires
                iv <= q,
                scale > 0,
        ;
    } else {
        assert(iv * scale >= (q + 1) * scale) by (nonlinear_arith)
            requires
                iv >= q + 1,
                scale > 0,
        ;
    }
}

/// The largest exponent magnitude worked out exactly; past it, a number is
/// either zero or far beyond any span a `u64` of nanoseconds holds.
pub const EXPONENT_CAP: u128 = 1_000_000_000_000_000_000_000_000_000_000;

/// [`fold_e`] of `v`.
fn fold_e_exec(v: &Vec<char>) -> (r: Vec<char>)
    ensures
        r@ == fold_e(v@),
{
    let mut r: Vec<char> = Vec::new();
    let mut i: usize = 0;
    while i < v.len()
        invariant
            i <= v@.len(),
            r@ == fold_e(v@.subrange(0, i as int)),
        decreases v.len() - i,
    {
        let c = v[i];
        r.push(
            if c == 'E' {
                'e'
            } else {
                c
            },
        );
        i = i + 1;
        assert(r@ =~= fold_e(v@.subrange(0, i as int)));
    }
    assert(v@.subrange(0, v@.len() as int) =~= v@);
    r
}

/// The pieces of a number: its sign's length, its integer digits, its
/// fraction digits, and what follows its exponent marker, if it has one.
fn number_parts(v: &Vec<char>) -> (r: (usize, Vec<char>, Vec<char>, Option<Vec<char>>))
    ensures
        r.0 == sign_len(v@),
        r.1@ == int_part(v@),
        r.2@ == frac_part(v@),
        match r.3 {
            Some(e) => exponent_at(v@) >= 0 && e@ == exponent_text(v@),
            None => exponent_at(v@) < 0,
        },
{
    let start: usize = if v.len() > 0 && (v[0] == '+' || v[0] == '-') {
        1
    } else {
        0
    };
    let body = slice(v, start, v.len());
    assert(body@ == unsigned_part(v@));
    let folded = fold_e_exec(&body);
    let found = find_exec(&folded, 'e');
    proof {
        lemma_find(folded@, 'e');
    }
    let (mant, exp) = match found {
        Some(at) => (slice(&body, 0, at), Some(slice(&body, at + 1, body.len()))),
        None => (slice(&body, 0, body.len()), None),
    };
    assert(body@.subrange(0, body@.len() as int) =~= body@);
    assert(mant@ == mantissa(v@));
    match find_exec(&mant, '.') {
        Some(d) => {
            proof {
                lemma_find(mant@, '.');
            }
            let ip = slice(&mant, 0, d);
            let fp = slice(&mant, d + 1, mant.len());
            (start, ip, fp, exp)
        },
        None => (start, mant, Vec::new(), exp),
    }
}

/// The sign and magnitude of an exponent, the magnitude `None` past
/// [`EXPONENT_CAP`]; `None` altogether for text that is not an exponent.
fn exponent_exec(e: &Vec<char>) -> (r: Option<(bool, Option<u128>)>)
    ensures
        match r {
            None => !is_exponent(e@),
            Some((negative, magnitude)) => is_exponent(e@) && negative == (e@.len() > 0 && e@[0]
                == '-') && match magnitude {
                Some(m) => m == digits_value(unsigned_part(e@)) && m <= EXPONENT_CAP,
                None => digits_value(unsigned_part(e@)) > EXPONENT_CAP,
            },
        },
{
    let start: usize = if e.len() > 0 && (e[0] == '+' || e[0] == '-') {
        1
    } else {
        0
    };
    let digits = slice(e, start, e.len());
    assert(digits@ == unsigned_part(e@));
    if digits.len() == 0 {
        return None;
    }
    let mut acc: u128 = 0;
    let mut over = false;
    let mut i: usize = 0;
    while i < digits.len()
        invariant
            i <= digits@.len(),
            digits@ == unsigned_part(e@),
            all_digits(digits@.subrange(0, i as int)),
            !over ==> acc == digits_value(digits@.subrange(0, i as int)) && acc <= EXPONENT_CAP,
            over ==> digits_value(digits@.subrange(0, i as int)) > EXPONENT_CAP,
        decreases digits.len() - i,
    {
        let c = digits[i];
        if !('0' <= c && c <= '9') {
            assert(!is_digit(digits@[i as int]));
            return None;
        }
        proof {
            lemma_digits_value_step(digits@, i as int);
        }
        if !over {
            let next = acc * 10 + ((c as u32 - '0' as u32) as u128);
            if next > EXPONENT_CAP {
                over = true;
            } else {
                acc = next;
            }
        }
        i = i + 1;
        assert(all_digits(digits@.subrange(0, i as int)));
    }
    assert(digits@.subrange(0, digits@.len() as int) =~= digits@);
    let negative = start == 1 && e[0] == '-';
    if over {
        Some((negative, None))
    } else {
        Some((negative, Some(acc)))
    }
}

/// Ten to the `k`, for `k` up to nineteen.
fn pow10_exec(k: u32) -> (r: u128)
    requires
        k <= 19,
    ensures
        r == pow10(k as nat),
        r <= 10_000_000_000_000_000_000,
{
    let mut r: u128 = 1;
    let mut j: u32 = 0;
    while j < k
        invariant
            j <= k <= 19,
            r == pow10(j as nat),
            r <= pow10(j as nat),
            pow10(j as nat) <= 10_000_000_000_000_000_000,
        decreases k - j,
    {
        proof {
            lemma_pow10_step_bound(j as nat);
        }
        r = r * 10;
        j = j + 1;
    }
    r
}

/// `10^(k + 1)` stays within `10^19` while `k < 19`.
proof fn lemma_pow10_step_bound(k: nat)
    requires
        k < 19,
    ensures
        pow10(k + 1) == 10 * pow10(k),
        pow10(k + 1) <= 10_000_000_000_000_000_000,
    decreases k,
{
    reveal_with_fuel(pow10, 20);
    lemma_pow10_monotone(k + 1, 19);
}

/// A larger power of ten is no smaller.
proof fn lemma_pow10_monotone(a: nat, b: nat)
    requires
        a <= b,
    ensures
        1 <= pow10(a) <= pow10(b),
    decreases b,
{
    if b > 0 {
        if a < b {
            lemma_pow10_monotone(a, (b - 1) as nat);
        }
        lemma_pow10_monotone(0, (b - 1) as nat);
    }
    if a == 19 && b == 19 {
        reveal_with_fuel(pow10, 20);
    }
}

/// `10^20` is past the largest `u64`.
proof fn lemma_pow10_twenty()
    ensures
        pow10(20) > U64_MAX,
{
    reveal_with_fuel(pow10, 21);
}

/// [`shifted`] of `d` with the point moved to `int_len + places + e`, if it
/// fits in `u64`; `e` is `magnitude` with its sign, or past the cap.
fn shifted_exec(
    d: &Vec<char>,
    int_len: usize,
    places: usize,
    negative: bool,
    magnitude: Option<u128>,
    Ghost(e): Ghost<int>,
) -> (r: Option<u64>)
    requires
        all_digits(d@),
        places <= 9,
        match magnitude {
            Some(m) => m <= EXPONENT_CAP && e == (if negative {
                -(m as int)
            } else {
                m as int
            }),
            None => if negative {
                e < -(EXPONENT_CAP as int)
            } else {
                e > EXPONENT_CAP
            },
        },
    ensures
        match r {
            Some(n) => shifted(d@, int_len + places + e) == n,
            None => shifted(d@, int_len + places + e) > U64_MAX,
        },
{
    let ghost p = int_len + places + e;
    let len = d.len();
    let m = match magnitude {
        Some(m) => m,
        None => {
            if negative {
                return Some(0);
            }
            // The point sits far past the last digit: zero stays zero, and
            // anything else is past every `u64`.
            let ghost k = (p - len) as nat;
            proof {
                lemma_pow10_monotone(20, k);
                lemma_pow10_twenty();
            }
            return match digits_value_exec(d, 0) {
                Some(_) => {
                    assert(digits_value(d@) * pow10(k) == 0) by (nonlinear_arith)
                        requires
                            digits_value(d@) == 0,
                    ;
                    Some(0)
                },
                None => {
                    assert(digits_value(d@) * pow10(k) >= pow10(k)) by (nonlinear_arith)
                        requires
                            digits_value(d@) >= 1,
                    ;
                    None
                },
            };
        },
    };
    let pos: i128 = int_len as i128 + places as i128 + if negative {
        -(m as i128)
    } else {
        m as i128
    };
    assert(pos == p);
    if pos <= 0 {
        return Some(0);
    }
    if pos < len as i128 {
        let head = slice(d, 0, pos as usize);
        return digits_value_exec(&head, U64_MAX);
    }
    let k = pos - len as i128;
    let ghost kn = k as nat;
    let x = match digits_value_exec(d, U64_MAX) {
        Some(x) => x,
        None => {
            proof {
                lemma_pow10_monotone(0, kn);
            }
            assert(digits_value(d@) * pow10(kn) >= digits_value(d@)) by (nonlinear_arith)
                requires
                    pow10(kn) >= 1,
            ;
            return None;
        },
    };
    if x == 0 {
        assert(digits_value(d@) * pow10(kn) == 0) by (nonlinear_arith)
            requires
                digits_value(d@) == 0,
        ;
        return Some(0);
    }
    if k > 19 {
        proof {
            lemma_pow10_monotone(20, kn);
            lemma_pow10_twenty();
        }
        assert(x * pow10(kn) >= pow10(kn)) by (nonlinear_arith)
            requires
                x >= 1,
        ;
        return None;
    }
    let scale = pow10_exec(k as u32);
    assert(x as u128 * scale <= 0xffff_ffff_ffff_ffff * 10_000_000_000_000_000_000) by (nonlinear_arith)
        requires
            x <= 0xffff_ffff_ffff_ffff,
            scale <= 10_000_000_000_000_000_000,
    ;
    let total: u128 = x as u128 * scale;
    if total > U64_MAX as u128 {
        None
    } else {
        Some(total as u64)
    }
}

/// [`number_units`] of `v`, if `v` is a number and its units fit in `u64`.
fn number_units_exec(v: &Vec<char>, places: usize, scale: u64) -> (r: Option<u64>)
    requires
        places <= 9,
        scale == pow10(places as nat),
    ensures
        match r {
            Some(n) => number_units(v@, places as nat) == Some(n as nat),
            None => number_units(v@, places as nat) is None || number_units(
                v@,
                places as nat,
            ).unwrap() > U64_MAX,
        },
{
    let (_, ip, fp, exp) = number_parts(v);
    let e = match exp {
        None => return parse_fixed(v, places, scale),
        Some(e) => e,
    };
    if ip.len() == 0 && fp.len() == 0 {
        return None;
    }
    if !all_digits_exec(&ip) || !all_digits_exec(&fp) {
        return None;
    }
    let (negative, magnitude) = match exponent_exec(&e) {
        Some(x) => x,
        None => return None,
    };
    let mut d = slice(&ip, 0, ip.len());
    let mut j: usize = 0;
    assert(ip@.subrange(0, ip@.len() as int) =~= ip@);
    assert(d@ =~= ip@ + fp@.subrange(0, 0));
    while j < fp.len()
        invariant
            j <= fp@.len(),
            d@ == ip@ + fp@.subrange(0, j as int),
        decreases fp.len() - j,
    {
        d.push(fp[j]);
        j = j + 1;
        assert(d@ =~= ip@ + fp@.subrange(0, j as int));
    }
    assert(fp@.subrange(0, fp@.len() as int) =~= fp@);
    assert(all_digits(d@)) by {
        assert forall|i: int| 0 <= i < d@.len() implies is_digit(#[trigger] d@[i]) by {
            if i < ip@.len() {
                assert(d@[i] == ip@[i]);
            } else {
                assert(d@[i] == fp@[i - ip@.len()]);
            }
        }
    }
    shifted_exec(&d, ip.len(), places, negative, magnitude, Ghost(exponent_value(e@)))
}

/// [`non_finite_text`] of `v`.
fn non_finite_exec(v: &Vec<char>) -> (r: Option<&'static str>)
    ensures
        match r {
            Some(t) => non_finite_text(v@) == Some(t@),
            None => non_finite_text(v@) is None,
        },
{
    let start: usize = if v.len() > 0 && (v[0] == '+' || v[0] == '-') {
        1
    } else {
        0
    };
    let b = lower_chars(&slice(v, start, v.len()));
    assert(b@ == lower(unsigned_part(v@)));
    if chars_eq_str(&b, "inf") || chars_eq_str(&b, "infinity") {
        if start == 1 && v[0] == '-' {
            Some("-inf")
        } else {
            Some("inf")
        }
    } else if chars_eq_str(&b, "nan") {
        Some("NaN")
    } else {
        None
    }
}

/// [`fixed_units`] of a plain decimal number, if it is one and fits in `u64`.
fn parse_fixed(v: &Vec<char>, places: usize, scale: u64) -> (r: Option<u64>)
    requires
        places <= 9,
        scale == pow10(places as nat),
    ensures
        match r {
            Some(n) => is_plain_decimal(v@) && fixed_units(v@, places as nat) == n,
            None => !is_plain_decimal(v@) || fixed_units(v@, places as nat) > U64_MAX,
        },
{
    let (_, ip, fp, _) = number_parts(v);
    if ip.len() == 0 && fp.len() == 0 {
        return None;
    }
    if !all_digits_exec(&fp) {
        return None;
    }
    let fc = cut_exec(&fp, places);
    proof {
        crate::text::lemma_cut_digits(fp@, places as nat);
        lemma_digits_value_bound(fc@);
        crate::text::lemma_pow10_nine(places as nat);
    }
    let fv = match digits_value_exec(&fc, U64_MAX) {
        Some(x) => x,
        None => return None,
    };
    let bound = (U64_MAX - fv) / scale;
    proof {
        lemma_fixed_split(digits_value(ip@), fv as nat, scale as nat, U64_MAX as nat);
    }
    match digits_value_exec(&ip, bound) {
        Some(iv) => {
            assert(iv * scale + fv <= U64_MAX) by (nonlinear_arith)
                requires
                    iv <= bound,
                    bound == (U64_MAX - fv) / (scale as int),
                    iv as nat * scale as nat + fv as nat <= U64_MAX as nat <==> iv <= (U64_MAX - fv) / (scale as int),
            ;
            Some(iv * scale + fv)
        },
        None => None,
    }
}

/// A point in time, or a span of it, held to the nanosecond.
#[derive(Debug, Clone, Copy, PartialEq, Eq, Structural)]
pub struct Seconds {
    nanos: u64,
}

impl View for Seconds {
    type V = u64;

    closed spec fn view(&self) -> u64 {
        self.nanos
    }
}

impl Seconds {
    /// Exactly `nanos` nanoseconds.
    pub fn from_nanos(nanos: u64) -> (s: Seconds)
        ensures
            s@ == nanos,
    {
        Seconds { nanos }
    }

    /// The span in nanoseconds.
    pub fn as_nanos(self) -> (n: u64)
        ensures
            n == self@,
    {
        self.nanos
    }

    /// Parse `1.0s`, `250ms`, `0:45`, or `1:02:03.5`.
    pub fn parse(s: &str) -> (r: Result<Seconds, ParseError>)
        ensures
            match r {
                Ok(x) => parse_seconds(s@) == Ok::<u64, Seq<char>>(x@),
                Err(e) => parse_seconds(s@) == Err::<u64, Seq<char>>(e@),
            },
    {
        let input = trim_chars(&chars_of(s));
        Self::parse_chars(&input, Ghost(s@))
    }

    fn parse_chars(input: &Vec<char>, Ghost(s): Ghost<Seq<char>>) -> (r: Result<Seconds, ParseError>)
        requires
            input@ == trim(s),
        ensures
            match r {
                Ok(x) => parse_seconds(s) == Ok::<u64, Seq<char>>(x@),
                Err(e) => parse_seconds(s) == Err::<u64, Seq<char>>(e@),
            },
    {
        let n = input.len();
        if contains_char(input, ':') {
            return match Self::clock(input) {
                Some(ns) => Ok(Seconds { nanos: ns }),
                None => Err(Self::malformed(input)),
            };
        }
        let unit: usize = if n >= 2 && input[n - 2] == 'm' && input[n - 1] == 's' {
            2
        } else if n >= 1 && input[n - 1] == 's' {
            1
        } else {
            0
        };
        if unit == 0 {
            return Err(Self::malformed(input));
        }
        let num = trim_chars(&slice(input, 0, n - unit));
        let (places, scale): (usize, u64) = if unit == 2 {
            (6, 1_000_000)
        } else {
            (9, NANOS_PER_SEC)
        };
        proof {
            crate::text::lemma_pow10_values();
        }
        match non_finite_exec(&num) {
            Some(t) => {
                let mut m = string_from("invalid duration `");
                push_str(&mut m, t);
                push_str(&mut m, "`: expected a finite, non-negative number of seconds");
                return Err(ParseError(m));
            },
            None => {},
        }
        let units = match number_units_exec(&num, places, scale) {
            Some(u) => u,
            None => return Err(Self::malformed(input)),
        };
        let (sign, ip, fp, _) = number_parts(&num);
        if sign == 1 && num[0] == '-' && (has_nonzero_digit_exec(&ip) || has_nonzero_digit_exec(&fp)) {
            let mut m = string_from("invalid duration `");
            push_str(&mut m, "-");
            push_seconds_text(&mut m, units);
            push_str(&mut m, "`: expected a finite, non-negative number of seconds");
            return Err(ParseError(m));
        }
        Ok(Seconds { nanos: units })
    }

    fn malformed(input: &Vec<char>) -> (e: ParseError)
        ensures
            e@ == duration_malformed(input@),
    {
        let mut m = string_from("invalid duration `");
        push_all(&mut m, input);
        push_str(
            &mut m,
            "`: expected a unit (`1.0s`, `250ms`) or clock notation (`0:45`, `1:02:03`)",
        );
        ParseError(m)
    }

    fn clock(input: &Vec<char>) -> (r: Option<u64>)
        ensures
            r == parse_clock(input@),
    {
        let parts = split_exec(input, ':');
        let ghost views = parts@.map_values(|p: Vec<char>| p@);
        let k = parts.len();
        if k < 2 || k > 3 {
            return None;
        }
        assert(views[k - 1] == parts@[k - 1]@);
        assert(views[k - 2] == parts@[k - 2]@);
        assert(views[0] == parts@[0]@);
        let last = &parts[k - 1];
        proof {
            crate::text::lemma_pow10_values();
        }
        let secs = match number_units_exec(last, 9, NANOS_PER_SEC) {
            Some(x) => x,
            None => return None,
        };
        let (sign, ip, fp, _) = number_parts(last);
        if sign == 1 && last[0] == '-' && (has_nonzero_digit_exec(&ip) || has_nonzero_digit_exec(&fp)) {
            return None;
        }
        if secs >= 60_000_000_000 {
            return None;
        }
        let minutes = match parse_unsigned_exec(&parts[k - 2], 0xffff_ffff) {
            Some(m) => m,
            None => return None,
        };
        let hours = if k == 3 {
            match parse_unsigned_exec(&parts[0], 0xffff_ffff) {
                Some(h) => h,
                None => return None,
            }
        } else {
            0
        };
        let total: u128 = secs as u128 + minutes as u128 * 60_000_000_000 + hours as u128
            * 3_600_000_000_000;
        if total > U64_MAX as u128 {
            return None;
        }
        Some(total as u64)
    }

    /// The span the way the config file spells it: `1s`, `0.6s`.
    pub fn to_string(&self) -> (s: String)
        ensures
            s@ == seconds_text(self@ as nat) + "s"@,
    {
        let mut s = String::new();
        push_seconds_text(&mut s, self.nanos);
        push_str(&mut s, "s");
        assert(s@ =~= seconds_text(self@ as nat) + "s"@);
        s
    }
}

/// Append [`seconds_text`] of `ns`.
pub fn push_seconds_text(s: &mut String, ns: u64)
    ensures
        final(s)@ == old(s)@ + seconds_text(ns as nat),
{
    let ghost start = s@;
    push_decimal(s, ns / NANOS_PER_SEC);
    let frac = ns % NANOS_PER_SEC;
    if frac != 0 {
        push_str(s, ".");
        let mut digits = String::new();
        push_padded(&mut digits, frac, 9);
        let kept = strip_zeros_exec(&chars_of(digits.as_str()));
        push_all(s, &kept);
    }
    assert(s@ =~= start + seconds_text(ns as nat));
}

impl std::str::FromStr for Seconds {
    type Err = ParseError;

    fn from_str(s: &str) -> (r: Result<Seconds, ParseError>)
        ensures
            match r {
                Ok(x) => parse_seconds(s@) == Ok::<u64, Seq<char>>(x@),
                Err(e) => parse_seconds(s@) == Err::<u64, Seq<char>>(e@),
            },
    {
        Seconds::parse(s)
    }
}

/// The slice of a song to render, from `--sample`.
///
/// `60s` means the first 60 seconds; `0:45..1:45` is an explicit range.
#[derive(Debug, Clone, Copy, PartialEq, Eq, Structural)]
pub struct SampleRange {
    /// Inclusive start offset into the song.
    pub start: Seconds,
    /// Exclusive end offset into the song. Always greater than `start`.
    pub end: Seconds,
}

pub open spec fn sample_range_message(input: Seq<char>) -> Seq<char> {
    "invalid sample range `"@ + input + "`: the end must come after the start"@
}

/// A range `START..END`, or a bare `END` that starts at zero; in nanoseconds.
pub open spec fn parse_sample_range(s: Seq<char>) -> Result<(u64, u64), Seq<char>> {
    let input = trim(s);
    let at = find_pair(input, '.', '.');
    let bounds: Result<(u64, u64), Seq<char>> = if at >= 0 {
        match parse_seconds(input.subrange(0, at)) {
            Err(e) => Err(e),
            Ok(a) => match parse_seconds(input.subrange(at + 2, input.len() as int)) {
                Err(e) => Err(e),
                Ok(b) => Ok((a, b)),
            },
        }
    } else {
        match parse_seconds(input) {
            Err(e) => Err(e),
            Ok(b) => Ok((0u64, b)),
        }
    };
    match bounds {
        Err(e) => Err(e),
        Ok((a, b)) => if b <= a {
            Err(sample_range_message(input))
        } else {
            Ok((a, b))
        },
    }
}

impl SampleRange {
    /// How long the sample runs, in nanoseconds.
    pub fn duration_nanos(self) -> (n: u64)
        requires
            self.start@ <= self.end@,
        ensures
            n == self.end@ - self.start@,
    {
        self.end.nanos - self.start.nanos
    }

    /// Parse `60s` or `0:45..1:45`.
    pub fn parse(s: &str) -> (r: Result<SampleRange, ParseError>)
        ensures
            match r {
                Ok(x) => parse_sample_range(s@) == Ok::<(u64, u64), Seq<char>>((x.start@, x.end@))
                    && x.start@ < x.end@,
                Err(e) => parse_sample_range(s@) == Err::<(u64, u64), Seq<char>>(e@),
            },
    {
        let input = trim_chars(&chars_of(s));
        let (start, end) = match find_pair_exec(&input, '.', '.') {
            Some(at) => {
                proof {
                    crate::text::lemma_find_pair(input@, '.', '.');
                }
                assert(at + 2 <= input.len());
                let a = slice(&input, 0, at);
                let b = slice(&input, at + 2, input.len());
                let start = match Seconds::parse(string_of(&a).as_str()) {
                    Ok(x) => x,
                    Err(e) => return Err(e),
                };
                let end = match Seconds::parse(string_of(&b).as_str()) {
                    Ok(x) => x,
                    Err(e) => return Err(e),
                };
                (start, end)
            },
            None => {
                let end = match Seconds::parse(string_of(&input).as_str()) {
                    Ok(x) => x,
                    Err(e) => {
                        proof {
                            crate::text::lemma_trim_idempotent(s@);
                        }
                        return Err(e);
                    },
                };
                proof {
                    crate::text::lemma_trim_idempotent(s@);
                }
                (Seconds { nanos: 0 }, end)
            },
        };
        if end.nanos <= start.nanos {
            let mut m = string_from("invalid sample range `");
            push_all(&mut m, &input);
            push_str(&mut m, "`: the end must come after the start");
            return Err(ParseError(m));
        }
        Ok(SampleRange { start, end })
    }
}

impl std::str::FromStr for SampleRange {
    type Err = ParseError;

    fn from_str(s: &str) -> (r: Result<SampleRange, ParseError>)
        ensures
            match r {
                Ok(x) => parse_sample_range(s@) == Ok::<(u64, u64), Seq<char>>((x.start@, x.end@))
                    && x.start@ < x.end@,
                Err(e) => parse_sample_range(s@) == Err::<(u64, u64), Seq<char>>(e@),
            },
    {
        SampleRange::parse(s)
    }
}


/// Every codec, fit and position name that `as_str` gives parses back to the
/// same value.
pub proof fn law_names_parse_back(c: Codec, f: Fit, p: Position)
    ensures
        parse_codec(codec_name(c)) == Ok::<Codec, Seq<char>>(c),
        parse_fit(fit_name(f)) == Ok::<Fit, Seq<char>>(f),
        parse_position(position_name(p)) == Ok::<Position, Seq<char>>(p),
{
    reveal_strlit("x264");
    reveal_strlit("x265");
    reveal_strlit("av1");
    reveal_strlit("cover");
    reveal_strlit("contain");
    reveal_strlit("stretch");
    reveal_strlit("top-left");
    reveal_strlit("top-center");
    reveal_strlit("top-right");
    reveal_strlit("center-left");
    reveal_strlit("center");
    reveal_strlit("center-right");
    reveal_strlit("bottom-left");
    reveal_strlit("bottom-center");
    reveal_strlit("bottom-right");
    lemma_trim_unpadded(codec_name(c));
    lemma_trim_unpadded(fit_name(f));
    let n = position_name(p);
    lemma_trim_unpadded(n);
    let i: int = match p {
        Position::TopLeft => 0,
        Position::TopCenter => 1,
        Position::TopRight => 2,
        Position::CenterLeft => 3,
        Position::Center => 4,
        Position::CenterRight => 5,
        Position::BottomLeft => 6,
        Position::BottomCenter => 7,
        Position::BottomRight => 8,
    };
    assert(all_positions()[i] == p);
    assert(position_name(all_positions()[i]) == n);
    let q = choose|q: Position| position_name(q) == n;
    lemma_position_names_distinct(p, q);
}

/// A valid resolution written as `WIDTHxHEIGHT` parses back to itself.
pub proof fn law_resolution_text_parses_back(r: Resolution)
    requires
        r.width > 0,
        r.height > 0,
        r.width % 2 == 0,
        r.height % 2 == 0,
    ensures
        parse_resolution(resolution_text(r)) == Ok::<Resolution, Seq<char>>(r),
{
    reveal_strlit("x");
    reveal_strlit("720p");
    reveal_strlit("1080p");
    reveal_strlit("4k");
    let dw = decimal(r.width as nat);
    let dh = decimal(r.height as nat);
    lemma_decimal_value(r.width as nat);
    lemma_decimal_value(r.height as nat);
    let s = resolution_text(r);
    assert(s == dw + "x"@ + dh);
    assert(s.len() == dw.len() + 1 + dh.len());
    assert(s[0] == dw[0]);
    assert(s.last() == dh.last());
    assert(is_digit(dw[0]));
    assert(is_digit(dh[dh.len() - 1]));
    lemma_trim_unpadded(s);
    assert forall|k: int| 0 <= k < s.len() implies lower_char(#[trigger] s[k]) == s[k] by {
        if k < dw.len() {
            assert(s[k] == dw[k]);
            assert(is_digit(dw[k]));
        } else if k == dw.len() {
            assert(s[k] == 'x');
        } else {
            assert(s[k] == dh[k - dw.len() - 1]);
            assert(is_digit(dh[k - dw.len() - 1]));
        }
    }
    assert(lower(s) =~= s);
    assert(s.last() != 'p' && s.last() != 'k');
    assert(s != "720p"@);
    assert(s != "1080p"@);
    assert(s != "4k"@);
    lemma_find(s, 'x');
    assert(s[dw.len() as int] == 'x');
    assert forall|k: int| 0 <= k < dw.len() implies s[k] != 'x' by {
        assert(s[k] == dw[k]);
        assert(is_digit(dw[k]));
    }
    assert(find(s, 'x') == dw.len());
    assert(s.subrange(0, dw.len() as int) =~= dw);
    assert(s.subrange(dw.len() as int + 1, s.len() as int) =~= dh);
    assert(dw[0] != '+');
    assert(dh[0] != '+');
}


/// A span written the way `Seconds::to_string` writes it parses back to the
/// same number of nanoseconds.
pub proof fn law_seconds_text_parses_back(ns: u64)
    ensures
        parse_seconds(seconds_text(ns as nat) + "s"@) == Ok::<u64, Seq<char>>(ns),
{
    reveal_strlit("s");
    reveal_strlit(".");
    lemma_pow10_values();
    let w = ns as nat / 1_000_000_000;
    let f = ns as nat % 1_000_000_000;
    let dw = decimal(w);
    lemma_decimal_value(w);
    let text = seconds_text(ns as nat);
    let frac: Seq<char> = if f == 0 {
        Seq::empty()
    } else {
        strip_zeros(padded(f, 9))
    };
    // The fraction's digits, padded back to nine places, are `f`.
    lemma_zeros_value(9);
    if f > 0 {
        lemma_decimal_len_bound(f, 9);
        lemma_padded(f, 9);
        lemma_strip_zeros_split(padded(f, 9));
        assert(cut(frac, 9) == padded(f, 9));
        assert forall|i: int| 0 <= i < frac.len() implies is_digit(#[trigger] frac[i]) by {
            assert(frac[i] == padded(f, 9)[i]);
        }
        assert(text == dw + "."@ + frac);
    } else {
        assert(cut(frac, 9) =~= zeros(9));
        assert(text == dw);
    }
    assert(digits_value(cut(frac, 9)) == f);
    // Every character of the text is a digit or the decimal point.
    assert forall|i: int| 0 <= i < text.len() implies (is_digit(#[trigger] text[i]) || text[i] == '.') by {
        if i < dw.len() {
            assert(text[i] == dw[i]);
        } else if i > dw.len() {
            assert(text[i] == frac[i - dw.len() - 1]);
        }
    }
    let input = text + "s"@;
    let n = input.len();
    assert(input[0] == dw[0]);
    assert(input[n - 1] == 's');
    assert(input[n - 2] == text[text.len() - 1]);
    lemma_trim_unpadded(input);
    assert(!input.contains(':')) by {
        if input.contains(':') {
            let i = choose|i: int| 0 <= i < input.len() && input[i] == ':';
            if i < text.len() {
                assert(input[i] == text[i]);
            }
        }
    }
    assert(input.subrange(0, n - 1) =~= text);
    lemma_trim_unpadded(text);
    assert(sign_len(text) == 0);
    assert(unsigned_part(text) =~= text);
    // No exponent, and nothing `f64` would read as infinite or not a number.
    assert(fold_e(text) =~= text) by {
        assert forall|i: int| 0 <= i < text.len() implies fold_e(text)[i] == text[i] by {
            assert(text[i] != 'E');
        }
    }
    lemma_find(text, 'e');
    assert forall|i: int| 0 <= i < text.len() implies text[i] != 'e' by {}
    assert(exponent_at(text) < 0);
    assert(mantissa(text) == text);
    reveal_strlit("inf");
    reveal_strlit("infinity");
    reveal_strlit("nan");
    assert(lower(text)[0] == text[0]);
    assert(lower(text) != "inf"@ && lower(text) != "infinity"@ && lower(text) != "nan"@);
    assert(non_finite_text(text) is None);
    lemma_find(text, '.');
    if f > 0 {
        assert(text[dw.len() as int] == '.');
        assert forall|i: int| 0 <= i < dw.len() implies text[i] != '.' by {
            assert(text[i] == dw[i]);
        }
        assert(find(text, '.') == dw.len());
        assert(text.subrange(0, dw.len() as int) =~= dw);
        assert(text.subrange(dw.len() as int + 1, text.len() as int) =~= frac);
    } else {
        assert forall|i: int| 0 <= i < text.len() implies text[i] != '.' by {
            assert(is_digit(dw[i]));
        }
        assert(find(text, '.') < 0);
    }
    assert(int_part(text) == dw);
    assert(frac_part(text) == frac);
    assert(is_plain_decimal(text));
    assert(fixed_units(text, 9) == w * 1_000_000_000 + f);
    assert(!is_negative_number(text));
}

/// The lowercase hex digit worth `n`, for `n` below 16.
pub open spec fn hex_char(n: nat) -> char {
    if n < 10 {
        (48 + n) as char
    } else {
        (87 + n) as char
    }
}

/// A byte as two hex digits, the high one first.
pub open spec fn byte_text(b: u8) -> Seq<char> {
    seq![hex_char(b as nat / 16), hex_char(b as nat % 16)]
}

/// A color written `#rrggbbaa`.
pub open spec fn color_text(c: Color) -> Seq<char> {
    seq!['#'] + byte_text(c.r) + byte_text(c.g) + byte_text(c.b) + byte_text(c.a)
}

/// A color's channels written `#rrggbb`, without its alpha.
pub open spec fn rgb_text(c: Color) -> Seq<char> {
    seq!['#'] + byte_text(c.r) + byte_text(c.g) + byte_text(c.b)
}

proof fn lemma_hex_char(n: nat)
    requires
        n < 16,
    ensures
        is_hex_digit(hex_char(n)),
        hex_value(hex_char(n)) == n,
        !is_white_space(hex_char(n)),
{
    let c = hex_char(n);
    if n < 10 {
        assert(c as u32 == 48 + n);
    } else {
        assert(c as u32 == 87 + n);
    }
}

proof fn lemma_byte_text(b: u8)
    ensures
        is_hex_digit(byte_text(b)[0]),
        is_hex_digit(byte_text(b)[1]),
        !is_white_space(byte_text(b)[1]),
        hex_byte(byte_text(b), 0) == b,
{
    lemma_hex_char(b as nat / 16);
    lemma_hex_char(b as nat % 16);
}

/// Hex colors read channel by channel, in the order they are written: a
/// color written `#rrggbbaa` reads back as itself, `#rrggbb` reads back with
/// full alpha, and in `#rgb` each digit, doubled, is its channel.
pub proof fn law_hex_colors_read_channel_by_channel(c: Color, x: nat, y: nat, z: nat)
    requires
        x < 16,
        y < 16,
        z < 16,
    ensures
        parse_color(color_text(c)) == Ok::<Color, Seq<char>>(c),
        parse_color(rgb_text(c)) == Ok::<Color, Seq<char>>(Color { r: c.r, g: c.g, b: c.b, a: 255 }),
        parse_color(seq!['#', hex_char(x), hex_char(y), hex_char(z)]) == Ok::<Color, Seq<char>>(
            Color { r: (x * 17) as u8, g: (y * 17) as u8, b: (z * 17) as u8, a: 255 },
        ),
{
    lemma_byte_text(c.r);
    lemma_byte_text(c.g);
    lemma_byte_text(c.b);
    lemma_byte_text(c.a);
    lemma_hex_char(x);
    lemma_hex_char(y);
    lemma_hex_char(z);
    let full = color_text(c);
    let h = full.drop_first();
    assert(h =~= byte_text(c.r) + byte_text(c.g) + byte_text(c.b) + byte_text(c.a));
    assert(!is_white_space('#'));
    assert(full.last() == byte_text(c.a)[1]);
    lemma_trim_unpadded(full);
    assert(all_hex(h));
    assert(h.subrange(0, 2) =~= byte_text(c.r));
    assert(hex_byte(h, 0) == hex_byte(byte_text(c.r), 0));
    assert(hex_byte(h, 2) == hex_byte(byte_text(c.g), 0));
    assert(hex_byte(h, 4) == hex_byte(byte_text(c.b), 0));
    assert(hex_byte(h, 6) == hex_byte(byte_text(c.a), 0));
    let six = rgb_text(c);
    let h6 = six.drop_first();
    assert(h6 =~= byte_text(c.r) + byte_text(c.g) + byte_text(c.b));
    assert(six.last() == byte_text(c.b)[1]);
    lemma_trim_unpadded(six);
    assert(all_hex(h6));
    assert(hex_byte(h6, 0) == hex_byte(byte_text(c.r), 0));
    assert(hex_byte(h6, 2) == hex_byte(byte_text(c.g), 0));
    assert(hex_byte(h6, 4) == hex_byte(byte_text(c.b), 0));
    let three = seq!['#', hex_char(x), hex_char(y), hex_char(z)];
    let h3 = three.drop_first();
    assert(h3 =~= seq![hex_char(x), hex_char(y), hex_char(z)]);
    lemma_trim_unpadded(three);
    assert(all_hex(h3));
}

/// The nine card positions are named for where they put the card: the row
/// (`top`, `center`, `bottom`), then the column (`left`, `center`, `right`),
/// the middle of the frame being just `center`.
pub proof fn law_positions_are_named_for_their_place()
    ensures
        parse_position("top-left"@) == Ok::<Position, Seq<char>>(Position::TopLeft),
        parse_position("top-center"@) == Ok::<Position, Seq<char>>(Position::TopCenter),
        parse_position("top-right"@) == Ok::<Position, Seq<char>>(Position::TopRight),
        parse_position("center-left"@) == Ok::<Position, Seq<char>>(Position::CenterLeft),
        parse_position("center"@) == Ok::<Position, Seq<char>>(Position::Center),
        parse_position("center-right"@) == Ok::<Position, Seq<char>>(Position::CenterRight),
        parse_position("bottom-left"@) == Ok::<Position, Seq<char>>(Position::BottomLeft),
        parse_position("bottom-center"@) == Ok::<Position, Seq<char>>(Position::BottomCenter),
        parse_position("bottom-right"@) == Ok::<Position, Seq<char>>(Position::BottomRight),
        position_name(Position::TopLeft) == "top-left"@,
        position_name(Position::TopCenter) == "top-center"@,
        position_name(Position::TopRight) == "top-right"@,
        position_name(Position::CenterLeft) == "center-left"@,
        position_name(Position::Center) == "center"@,
        position_name(Position::CenterRight) == "center-right"@,
        position_name(Position::BottomLeft) == "bottom-left"@,
        position_name(Position::BottomCenter) == "bottom-center"@,
        position_name(Position::BottomRight) == "bottom-right"@,
{
    law_names_parse_back(Codec::X264, Fit::Cover, Position::TopLeft);
    law_names_parse_back(Codec::X264, Fit::Cover, Position::TopCenter);
    law_names_parse_back(Codec::X264, Fit::Cover, Position::TopRight);
    law_names_parse_back(Codec::X264, Fit::Cover, Position::CenterLeft);
    law_names_parse_back(Codec::X264, Fit::Cover, Position::Center);
    law_names_parse_back(Codec::X264, Fit::Cover, Position::CenterRight);
    law_names_parse_back(Codec::X264, Fit::Cover, Position::BottomLeft);
    law_names_parse_back(Codec::X264, Fit::Cover, Position::BottomCenter);
    law_names_parse_back(Codec::X264, Fit::Cover, Position::BottomRight);
}

/// The codecs, fit modes and resolution shorthands read as what they name:
/// `x264`, `x265` and `av1` are those encoders; `cover`, `contain` and
/// `stretch` are those ways of filling the frame; `720p`, `1080p` and `4k`
/// are 1280x720, 1920x1080 and 3840x2160.
pub proof fn law_names_read_as_what_they_name()
    ensures
        parse_codec("x264"@) == Ok::<Codec, Seq<char>>(Codec::X264),
        parse_codec("x265"@) == Ok::<Codec, Seq<char>>(Codec::X265),
        parse_codec("av1"@) == Ok::<Codec, Seq<char>>(Codec::Av1),
        codec_name(Codec::X264) == "x264"@,
        codec_name(Codec::X265) == "x265"@,
        codec_name(Codec::Av1) == "av1"@,
        parse_fit("cover"@) == Ok::<Fit, Seq<char>>(Fit::Cover),
        parse_fit("contain"@) == Ok::<Fit, Seq<char>>(Fit::Contain),
        parse_fit("stretch"@) == Ok::<Fit, Seq<char>>(Fit::Stretch),
        fit_name(Fit::Cover) == "cover"@,
        fit_name(Fit::Contain) == "contain"@,
        fit_name(Fit::Stretch) == "stretch"@,
        parse_resolution("720p"@) == Ok::<Resolution, Seq<char>>(Resolution { width: 1280, height: 720 }),
        parse_resolution("1080p"@) == Ok::<Resolution, Seq<char>>(
            Resolution { width: 1920, height: 1080 },
        ),
        parse_resolution("4k"@) == Ok::<Resolution, Seq<char>>(Resolution { width: 3840, height: 2160 }),
{
    law_names_parse_back(Codec::X264, Fit::Cover, Position::Center);
    law_names_parse_back(Codec::X265, Fit::Contain, Position::Center);
    law_names_parse_back(Codec::Av1, Fit::Stretch, Position::Center);
    reveal_strlit("720p");
    reveal_strlit("1080p");
    reveal_strlit("4k");
    lemma_trim_unpadded("720p"@);
    lemma_trim_unpadded("1080p"@);
    lemma_trim_unpadded("4k"@);
    assert(lower("720p"@) =~= "720p"@);
    assert(lower("1080p"@) =~= "1080p"@);
    assert(lower("4k"@) =~= "4k"@);
}

} // verus!
