//! The documented TOML template `avz config --example` prints.
//!
//! Every live key is written from [`Config::default()`], never from a literal,
//! so a default that moves moves the template with it. Keys with no default
//! are commented out.

use vstd::prelude::*;
use crate::config::number::{Real, RealModel};
use crate::config::resolve::{Config, Effects, EffectsModel, MAX_CRF, default_model};
use crate::config::value::{
    Color, Palette, PaletteModel, Seed, codec_name, fit_name, position_name, resolution_text,
    seconds_text,
};
use crate::text::{
    concat, lines, lines_exec, chars_of, contains_char, decimal, digit_char_exec, digit_char, push_all, push_char,
    push_decimal, push_str, split, split_exec, string_from, words, words_exec,
};

verus! {

/// What the file says about itself before it says anything about a render.
pub const HEADER: &'static str = "# avz configuration, written by `avz config --example`.\n#\n# Every key below carries its built-in default, so this file renders what\n# `avz render song.mp3` renders. Delete what you do not want to pin.\n#\n# Precedence: CLI flags > `--set key=value` > this file > preset defaults >\n# built-in defaults. Unknown keys are rejected, with a suggestion.\n#\n# Commented-out keys have no default. Uncomment one to turn it on.\n";

/// The width a comment wraps at, so the file reads in an 80-column terminal.
pub const COMMENT_WIDTH: usize = 78;

pub const RESOLUTION_NOTE: &'static str = "Frame size: `720p`, `1080p`, `4k`, or `WIDTHxHEIGHT` with even sides.";
pub const FPS_NOTE: &'static str = "Frames per second.";
pub const CODEC_NOTE: &'static str = "Video codec. avz v0.1 encodes `x264` only.";
pub const PRESET_NOTE: &'static str = "Which preset draws the video. `avz presets` lists them.";
pub const PALETTE_NOTE: &'static str = "A built-in palette name, or inline hex: [\"#1a1a2e\", \"#e94560\"].";
pub const INTENSITY_NOTE: &'static str = "Global motion scale. Greater than 0.";
pub const SMOOTHING_NOTE: &'static str = "Global envelope decay scale, 0 to 1. Higher is slower and smoother.";
pub const SEED_NOTE: &'static str = "`\"auto\"` hashes the input file's name, so re-rendering the same song anywhere gives the same video. Any non-negative integer fixes it instead.";
pub const PARAMS_NOTE: &'static str = "Preset parameters, validated against the active preset's schema. Run\n`avz presets <name>` to see the parameters it takes and their defaults.";
pub const PARAMS_BODY: &'static str = "[visual.params]\nbass_drive = 1.2";
pub const IMAGE_NOTE: &'static str = "A still image beneath the visuals. Mutually exclusive with `video`.";
pub const IMAGE_BODY: &'static str = "image = \"art/forest.png\"";
pub const VIDEO_NOTE: &'static str = "A looped, muted video beneath the visuals. Mutually exclusive with `image`.\nffmpeg loops, scales, and frame-rate-converts it; it always starts at its\nfirst frame, so `--sample` moves the song and never the loop.";
pub const VIDEO_BODY: &'static str = "video = \"loops/smoke.mp4\"";
pub const FIT_NOTE: &'static str = "How the source is fitted to the frame: `cover`, `contain`, or `stretch`.";
pub const BLUR_NOTE: &'static str = "Gaussian blur of the background, as a standard deviation in output pixels.";
pub const DARKEN_NOTE: &'static str = "How much of the background's light to take away, 0 to 1.";
pub const ENABLED_NOTE: &'static str = "Draw the title/artist card at all.";
pub const POSITION_NOTE: &'static str = "Where the card sits: `top-left` through `bottom-right`, or `center`.";
pub const IN_AT_NOTE: &'static str = "When the card starts fading in.";
pub const HOLD_NOTE: &'static str = "How long the card holds at full opacity, between the two fades.";
pub const FADE_NOTE: &'static str = "How long each fade lasts, in and out alike.";
pub const FONT_NOTE: &'static str = "`auto` uses the bundled font; anything else is a path to a font file.";
pub const SIZE_NOTE: &'static str = "Title type size, as a fraction of the frame height.";
pub const MARGIN_NOTE: &'static str = "Distance from the frame edge, as a fraction of the frame height.";
pub const CARD_NOTE: &'static str = "Title and artist for the card, overriding the mp3's ID3 tags.";
pub const CARD_BODY: &'static str = "title = \"Cold Design\"\nartist = \"avz\"";
pub const ZOOM_NOTE: &'static str = "Magnification about the frame's center, 0.5 to 3. 1 is none.";
pub const PULSE_NOTE: &'static str = "How much the kick swells the zoom, 0 to 0.5. 0 is none.";
pub const SPIN_NOTE: &'static str = "Rotation, in turns per second, -2 to 2. 0 is none.";
pub const SWAY_NOTE: &'static str = "How far the bass tilts the picture, in turns, -0.25 to 0.25. 0 is none.";
pub const HUE_NOTE: &'static str = "Hue rotation, in turns, 0 to 1. 0 is none.";
pub const HUE_DRIFT_NOTE: &'static str = "Hue rotation speed, in turns per second, -2 to 2. 0 is none.";
pub const SATURATION_NOTE: &'static str = "Saturation, 0 to 3. 1 is neutral, 0 is gray.";
pub const CONTRAST_NOTE: &'static str = "Contrast about mid-gray, 0.2 to 3. 1 is neutral.";
pub const BRIGHTNESS_NOTE: &'static str = "Brightness, 0 to 3. 1 is neutral.";
pub const FLASH_NOTE: &'static str = "How much a hit lifts the brightness, 0 to 2. 0 is none.";
pub const FADE_IN_NOTE: &'static str = "How long the clip fades up from black at its start. 0 is none.";
pub const FADE_OUT_NOTE: &'static str = "How long the clip fades down to black at its end. 0 is none.";

/// Greedy wrapping of `words` after a `#`: a word moves to a fresh `#` line
/// when it would push the current one past [`COMMENT_WIDTH`], unless the line
/// holds nothing yet. The result is the finished lines and the open one.
pub open spec fn wrap_fold(ws: Seq<Seq<char>>) -> (Seq<char>, Seq<char>)
    decreases ws.len(),
{
    if ws.len() == 0 {
        (Seq::empty(), seq!['#'])
    } else {
        let (out, line) = wrap_fold(ws.drop_last());
        let w = ws.last();
        if line.len() + 1 + w.len() > COMMENT_WIDTH && line != seq!['#'] {
            (out + line + seq!['\n'], seq!['#', ' '] + w)
        } else {
            (out, line + seq![' '] + w)
        }
    }
}

/// One paragraph of a comment, wrapped into `#` lines.
pub open spec fn wrap_paragraph(p: Seq<char>) -> Seq<char> {
    let (out, line) = wrap_fold(words(p));
    out + line + seq!['\n']
}

/// `comment` as `# `-prefixed lines; its own newlines are kept.
pub open spec fn wrap_text(comment: Seq<char>) -> Seq<char> {
    concat(lines(comment).map_values(|p: Seq<char>| wrap_paragraph(p)))
}

/// A documented `key = value` line, preceded by its comment.
pub open spec fn key_text(comment: Seq<char>, name: Seq<char>, value: Seq<char>) -> Seq<char> {
    wrap_text(comment) + name + " = "@ + value + seq!['\n']
}

/// A documented block that is commented out because it has no default.
pub open spec fn commented_text(comment: Seq<char>, body: Seq<char>) -> Seq<char> {
    wrap_text(comment) + concat(
        lines(body).map_values(|l: Seq<char>| seq!['#', ' '] + l + seq!['\n']),
    )
}

pub open spec fn quoted_text(v: Seq<char>) -> Seq<char> {
    seq!['"'] + v + seq!['"']
}

/// A float the way TOML reads it as one: with a decimal point.
pub open spec fn float_text(r: RealModel) -> Seq<char> {
    if r.text.contains('.') {
        r.text
    } else {
        r.text + seq!['.', '0']
    }
}

pub open spec fn hex_digit(n: nat) -> char {
    if n < 10 {
        digit_char(n)
    } else {
        (('a' as nat) + (n - 10)) as char
    }
}

pub open spec fn hex_pair(b: u8) -> Seq<char> {
    seq![hex_digit((b / 16) as nat), hex_digit((b % 16) as nat)]
}

/// A color as `#rrggbbaa`.
pub open spec fn color_text(c: Color) -> Seq<char> {
    seq!['#'] + hex_pair(c.r) + hex_pair(c.g) + hex_pair(c.b) + hex_pair(c.a)
}

pub open spec fn join_with(pieces: Seq<Seq<char>>, sep: Seq<char>) -> Seq<char>
    decreases pieces.len(),
{
    if pieces.len() == 0 {
        Seq::empty()
    } else if pieces.len() == 1 {
        pieces[0]
    } else {
        join_with(pieces.drop_last(), sep) + sep + pieces.last()
    }
}

/// The palette, as the config file spells it.
pub open spec fn palette_text(p: PaletteModel) -> Seq<char> {
    match p {
        PaletteModel::Named(n) => quoted_text(n),
        PaletteModel::Inline(cs) => seq!['['] + join_with(
            cs.map_values(|c: Color| quoted_text(color_text(c))),
            seq![',', ' '],
        ) + seq![']'],
    }
}

/// The seed, as the config file spells it: `"auto"` or a bare integer.
pub open spec fn seed_text(s: Seed) -> Seq<char> {
    match s {
        Seed::Auto => quoted_text("auto"@),
        Seed::Fixed(v) => decimal(v as nat),
    }
}

pub open spec fn bool_text(b: bool) -> Seq<char> {
    if b {
        "true"@
    } else {
        "false"@
    }
}

pub open spec fn quality_note() -> Seq<char> {
    "x264 CRF quality, 0 (visually lossless, huge) to "@ + decimal(MAX_CRF as nat) + " (worst)."@
}

/// The whole template, written from the built-in defaults.
pub open spec fn example_text() -> Seq<char> {
    let d = default_model();
    let s = HEADER@ + "\n[output]\n"@;
    let s = s + key_text(RESOLUTION_NOTE@, "resolution"@, quoted_text(resolution_text(d.output.resolution)));
    let s = s + key_text(FPS_NOTE@, "fps"@, decimal(d.output.fps as nat));
    let s = s + key_text(CODEC_NOTE@, "codec"@, quoted_text(codec_name(d.output.codec)));
    let s = s + key_text(quality_note(), "quality"@, decimal(d.output.quality as nat));
    let s = s + "\n[visual]\n"@;
    let s = s + key_text(PRESET_NOTE@, "preset"@, quoted_text(d.visual.preset));
    let s = s + key_text(PALETTE_NOTE@, "palette"@, palette_text(d.visual.palette));
    let s = s + key_text(INTENSITY_NOTE@, "intensity"@, float_text(d.visual.intensity));
    let s = s + key_text(SMOOTHING_NOTE@, "smoothing"@, float_text(d.visual.smoothing));
    let s = s + key_text(SEED_NOTE@, "seed"@, seed_text(d.visual.seed));
    let s = s + seq!['\n'] + commented_text(PARAMS_NOTE@, PARAMS_BODY@);
    let s = s + "\n[background]\n"@;
    let s = s + commented_text(IMAGE_NOTE@, IMAGE_BODY@);
    let s = s + commented_text(VIDEO_NOTE@, VIDEO_BODY@);
    let s = s + key_text(FIT_NOTE@, "fit"@, quoted_text(fit_name(d.background.fit)));
    let s = s + key_text(BLUR_NOTE@, "blur"@, float_text(d.background.blur));
    let s = s + key_text(DARKEN_NOTE@, "darken"@, float_text(d.background.darken));
    let s = s + "\n[text]\n"@;
    let s = s + key_text(ENABLED_NOTE@, "enabled"@, bool_text(d.text.enabled));
    let s = s + key_text(POSITION_NOTE@, "position"@, quoted_text(position_name(d.text.position)));
    let s = s + key_text(IN_AT_NOTE@, "in_at"@, quoted_text(seconds_text(d.text.in_at as nat) + "s"@));
    let s = s + key_text(HOLD_NOTE@, "hold"@, quoted_text(seconds_text(d.text.hold as nat) + "s"@));
    let s = s + key_text(FADE_NOTE@, "fade"@, quoted_text(seconds_text(d.text.fade as nat) + "s"@));
    let s = s + key_text(FONT_NOTE@, "font"@, quoted_text("auto"@));
    let s = s + key_text(SIZE_NOTE@, "size"@, float_text(d.text.size));
    let s = s + key_text(MARGIN_NOTE@, "margin"@, float_text(d.text.margin));
    let s = s + seq!['\n'] + commented_text(CARD_NOTE@, CARD_BODY@);
    s + effects_text(d.effects)
}

/// The `[effects]` section, written from `e`.
pub open spec fn effects_text(e: EffectsModel) -> Seq<char> {
    let s = "\n[effects]\n"@;
    let s = s + key_text(ZOOM_NOTE@, "zoom"@, float_text(e.zoom));
    let s = s + key_text(PULSE_NOTE@, "pulse"@, float_text(e.pulse));
    let s = s + key_text(SPIN_NOTE@, "spin"@, float_text(e.spin));
    let s = s + key_text(SWAY_NOTE@, "sway"@, float_text(e.sway));
    let s = s + key_text(HUE_NOTE@, "hue"@, float_text(e.hue));
    let s = s + key_text(HUE_DRIFT_NOTE@, "hue_drift"@, float_text(e.hue_drift));
    let s = s + key_text(SATURATION_NOTE@, "saturation"@, float_text(e.saturation));
    let s = s + key_text(CONTRAST_NOTE@, "contrast"@, float_text(e.contrast));
    let s = s + key_text(BRIGHTNESS_NOTE@, "brightness"@, float_text(e.brightness));
    let s = s + key_text(FLASH_NOTE@, "flash"@, float_text(e.flash));
    let s = s + key_text(FADE_IN_NOTE@, "fade_in"@, quoted_text(seconds_text(e.fade_in as nat) + "s"@));
    s + key_text(FADE_OUT_NOTE@, "fade_out"@, quoted_text(seconds_text(e.fade_out as nat) + "s"@))
}


/// Append the `[effects]` section for `e`.
fn effects(out: &mut String, e: &Effects)
    ensures
        final(out)@ == old(out)@ + effects_text(e@),
{
    let ghost start = out@;
    push_str(out, "\n[effects]\n");
    key(out, ZOOM_NOTE, "zoom", float(&e.zoom).as_str());
    key(out, PULSE_NOTE, "pulse", float(&e.pulse).as_str());
    key(out, SPIN_NOTE, "spin", float(&e.spin).as_str());
    key(out, SWAY_NOTE, "sway", float(&e.sway).as_str());
    key(out, HUE_NOTE, "hue", float(&e.hue).as_str());
    key(out, HUE_DRIFT_NOTE, "hue_drift", float(&e.hue_drift).as_str());
    key(out, SATURATION_NOTE, "saturation", float(&e.saturation).as_str());
    key(out, CONTRAST_NOTE, "contrast", float(&e.contrast).as_str());
    key(out, BRIGHTNESS_NOTE, "brightness", float(&e.brightness).as_str());
    key(out, FLASH_NOTE, "flash", float(&e.flash).as_str());
    key(out, FADE_IN_NOTE, "fade_in", quoted(e.fade_in.to_string().as_str()).as_str());
    key(out, FADE_OUT_NOTE, "fade_out", quoted(e.fade_out.to_string().as_str()).as_str());
    assert(out@ =~= start + effects_text(e@));
}

/// `true` when `line` is exactly `#`.
fn is_bare_hash(line: &Vec<char>) -> (r: bool)
    ensures
        r == (line@ == seq!['#']),
{
    let r = line.len() == 1 && line[0] == '#';
    if r {
        assert(line@ =~= seq!['#']);
    }
    r
}

/// Wrap one paragraph.
fn wrap_one(p: &Vec<char>) -> (s: String)
    ensures
        s@ == wrap_paragraph(p@),
{
    let ws = words_exec(p);
    let ghost views = ws@.map_values(|w: Vec<char>| w@);
    let mut out = String::new();
    let mut line: Vec<char> = Vec::new();
    line.push('#');
    assert(line@ =~= seq!['#']);
    assert(out@ =~= Seq::<char>::empty());
    assert(views.subrange(0, 0) =~= Seq::<Seq<char>>::empty());
    let mut i: usize = 0;
    while i < ws.len()
        invariant
            i <= ws@.len(),
            views == ws@.map_values(|w: Vec<char>| w@),
            views == words(p@),
            wrap_fold(views.subrange(0, i as int)) == (out@, line@),
        decreases ws.len() - i,
    {
        let w = &ws[i];
        assert(views[i as int] == w@);
        assert(views.subrange(0, i + 1).drop_last() =~= views.subrange(0, i as int));
        let ghost line_before = line@;
        let ghost out_before = out@;
        if line.len() as u128 + 1 + w.len() as u128 > COMMENT_WIDTH as u128 && !is_bare_hash(&line) {
            push_all(&mut out, &line);
            push_char(&mut out, '\n');
            let mut fresh: Vec<char> = Vec::new();
            fresh.push('#');
            fresh.push(' ');
            let mut k: usize = 0;
            while k < w.len()
                invariant
                    k <= w@.len(),
                    fresh@ == seq!['#', ' '] + w@.subrange(0, k as int),
                decreases w.len() - k,
            {
                fresh.push(w[k]);
                k = k + 1;
                assert(fresh@ =~= seq!['#', ' '] + w@.subrange(0, k as int));
            }
            assert(w@.subrange(0, w@.len() as int) =~= w@);
            line = fresh;
            assert(out@ =~= out_before + line_before + seq!['\n']);
        } else {
            line.push(' ');
            let mut k: usize = 0;
            while k < w.len()
                invariant
                    k <= w@.len(),
                    line@ == line_before + seq![' '] + w@.subrange(0, k as int),
                decreases w.len() - k,
            {
                line.push(w[k]);
                k = k + 1;
                assert(line@ =~= line_before + seq![' '] + w@.subrange(0, k as int));
            }
            assert(w@.subrange(0, w@.len() as int) =~= w@);
        }
        i = i + 1;
    }
    assert(views.subrange(0, ws@.len() as int) =~= views);
    push_all(&mut out, &line);
    push_char(&mut out, '\n');
    out
}

/// Wrap `comment` into `# `-prefixed lines. Newlines in the input are kept.
fn wrap(comment: &str) -> (s: String)
    ensures
        s@ == wrap_text(comment@),
{
    let ps = lines_exec(&chars_of(comment));
    let ghost views = ps@.map_values(|l: Vec<char>| l@);
    let ghost wrapped = views.map_values(|p: Seq<char>| wrap_paragraph(p));
    let mut out = String::new();
    let mut i: usize = 0;
    assert(wrapped.subrange(0, 0) =~= Seq::<Seq<char>>::empty());
    while i < ps.len()
        invariant
            i <= ps@.len(),
            views == ps@.map_values(|l: Vec<char>| l@),
            views == lines(comment@),
            wrapped == views.map_values(|p: Seq<char>| wrap_paragraph(p)),
            out@ == concat(wrapped.subrange(0, i as int)),
        decreases ps.len() - i,
    {
        assert(views[i as int] == ps@[i as int]@);
        let piece = wrap_one(&ps[i]);
        push_str(&mut out, piece.as_str());
        assert(wrapped.subrange(0, i + 1).drop_last() =~= wrapped.subrange(0, i as int));
        i = i + 1;
    }
    assert(wrapped.subrange(0, ps@.len() as int) =~= wrapped);
    out
}

/// One documented `key = value` line, preceded by its comment.
fn key(out: &mut String, comment: &str, name: &str, value: &str)
    ensures
        final(out)@ == old(out)@ + key_text(comment@, name@, value@),
{
    let ghost start = out@;
    let w = wrap(comment);
    push_str(out, w.as_str());
    push_str(out, name);
    push_str(out, " = ");
    push_str(out, value);
    push_char(out, '\n');
    assert(out@ =~= start + key_text(comment@, name@, value@));
}

/// A documented block that is commented out because it has no default.
fn commented(comment: &str, body: &str) -> (s: String)
    ensures
        s@ == commented_text(comment@, body@),
{
    let mut out = wrap(comment);
    let ghost head = out@;
    let ls = lines_exec(&chars_of(body));
    let ghost views = ls@.map_values(|l: Vec<char>| l@);
    let ghost hashed = views.map_values(|l: Seq<char>| seq!['#', ' '] + l + seq!['\n']);
    let mut i: usize = 0;
    assert(hashed.subrange(0, 0) =~= Seq::<Seq<char>>::empty());
    assert(out@ =~= head + concat(hashed.subrange(0, 0)));
    while i < ls.len()
        invariant
            i <= ls@.len(),
            views == ls@.map_values(|l: Vec<char>| l@),
            views == lines(body@),
            hashed == views.map_values(|l: Seq<char>| seq!['#', ' '] + l + seq!['\n']),
            out@ == head + concat(hashed.subrange(0, i as int)),
        decreases ls.len() - i,
    {
        assert(views[i as int] == ls@[i as int]@);
        push_char(&mut out, '#');
        push_char(&mut out, ' ');
        push_all(&mut out, &ls[i]);
        push_char(&mut out, '\n');
        assert(hashed.subrange(0, i + 1).drop_last() =~= hashed.subrange(0, i as int));
        assert(out@ =~= head + concat(hashed.subrange(0, i + 1)));
        i = i + 1;
    }
    assert(hashed.subrange(0, ls@.len() as int) =~= hashed);
    out
}

/// A TOML string: the value in double quotes.
fn quoted(value: &str) -> (s: String)
    ensures
        s@ == quoted_text(value@),
{
    let mut s = String::new();
    push_char(&mut s, '"');
    push_str(&mut s, value);
    push_char(&mut s, '"');
    assert(s@ =~= quoted_text(value@));
    s
}

/// A float with its fractional part intact, so TOML reads it as a float.
fn float(value: &Real) -> (s: String)
    ensures
        s@ == float_text(value@),
{
    let mut s = string_from(value.text.as_str());
    if !contains_char(&chars_of(value.text.as_str()), '.') {
        push_char(&mut s, '.');
        push_char(&mut s, '0');
        assert(s@ =~= value.text@ + seq!['.', '0']);
    }
    s
}

fn hex_digit_exec(n: u8) -> (c: char)
    requires
        n < 16,
    ensures
        c == hex_digit(n as nat),
{
    if n < 10 {
        digit_char_exec(n as u64)
    } else {
        match n {
            10 => 'a',
            11 => 'b',
            12 => 'c',
            13 => 'd',
            14 => 'e',
            _ => 'f',
        }
    }
}

fn push_hex_pair(s: &mut String, b: u8)
    ensures
        final(s)@ == old(s)@ + hex_pair(b),
{
    let ghost start = s@;
    push_char(s, hex_digit_exec(b / 16));
    push_char(s, hex_digit_exec(b % 16));
    assert(s@ =~= start + hex_pair(b));
}

/// The palette, as the config file spells it.
fn palette(p: &Palette) -> (s: String)
    ensures
        s@ == palette_text(p@),
{
    match p {
        Palette::Named(name) => quoted(name.as_str()),
        Palette::Inline(colors) => {
            let ghost items = colors@.map_values(|c: Color| quoted_text(color_text(c)));
            let mut s = String::new();
            push_char(&mut s, '[');
            let ghost head = s@;
            let mut i: usize = 0;
            assert(items.subrange(0, 0) =~= Seq::<Seq<char>>::empty());
            while i < colors.len()
                invariant
                    i <= colors@.len(),
                    items == colors@.map_values(|c: Color| quoted_text(color_text(c))),
                    head == seq!['['],
                    s@ == head + join_with(items.subrange(0, i as int), seq![',', ' ']),
                decreases colors.len() - i,
            {
                let ghost before = s@;
                if i > 0 {
                    push_char(&mut s, ',');
                    push_char(&mut s, ' ');
                }
                let c = colors[i];
                let mut q = String::new();
                push_char(&mut q, '#');
                push_hex_pair(&mut q, c.r);
                push_hex_pair(&mut q, c.g);
                push_hex_pair(&mut q, c.b);
                push_hex_pair(&mut q, c.a);
                assert(q@ =~= color_text(c));
                let qq = quoted(q.as_str());
                push_str(&mut s, qq.as_str());
                assert(items[i as int] == qq@);
                let ghost sub = items.subrange(0, i + 1);
                assert(sub.drop_last() =~= items.subrange(0, i as int));
                if i > 0 {
                    assert(s@ =~= head + join_with(sub, seq![',', ' ']));
                } else {
                    assert(s@ =~= head + join_with(sub, seq![',', ' ']));
                }
                i = i + 1;
            }
            assert(items.subrange(0, colors@.len() as int) =~= items);
            push_char(&mut s, ']');
            s
        },
    }
}

/// The seed, as the config file spells it: `"auto"` or a bare integer.
fn seed(s: Seed) -> (r: String)
    ensures
        r@ == seed_text(s),
{
    match s {
        Seed::Auto => quoted("auto"),
        Seed::Fixed(value) => {
            let mut r = String::new();
            push_decimal(&mut r, value);
            assert(r@ =~= seed_text(s));
            r
        },
    }
}

fn bool_string(b: bool) -> (r: &'static str)
    ensures
        r@ == bool_text(b),
{
    if b {
        "true"
    } else {
        "false"
    }
}

/// A documented config file holding every setting at its built-in default.
pub fn example() -> (s: String)
    ensures
        s@ == example_text(),
{
    let config = Config::default();
    let mut out = string_from(HEADER);
    push_str(&mut out, "\n[output]\n");
    key(&mut out, RESOLUTION_NOTE, "resolution", quoted(config.output.resolution.to_string().as_str()).as_str());
    let mut fps = String::new();
    push_decimal(&mut fps, config.output.fps as u64);
    key(&mut out, FPS_NOTE, "fps", fps.as_str());
    key(&mut out, CODEC_NOTE, "codec", quoted(config.output.codec.as_str()).as_str());
    let mut note = string_from("x264 CRF quality, 0 (visually lossless, huge) to ");
    push_decimal(&mut note, MAX_CRF as u64);
    push_str(&mut note, " (worst).");
    let mut quality = String::new();
    push_decimal(&mut quality, config.output.quality as u64);
    key(&mut out, note.as_str(), "quality", quality.as_str());
    push_str(&mut out, "\n[visual]\n");
    key(&mut out, PRESET_NOTE, "preset", quoted(config.visual.preset.as_str()).as_str());
    key(&mut out, PALETTE_NOTE, "palette", palette(&config.visual.palette).as_str());
    key(&mut out, INTENSITY_NOTE, "intensity", float(&config.visual.intensity).as_str());
    key(&mut out, SMOOTHING_NOTE, "smoothing", float(&config.visual.smoothing).as_str());
    key(&mut out, SEED_NOTE, "seed", seed(config.visual.seed).as_str());
    push_char(&mut out, '\n');
    push_str(&mut out, commented(PARAMS_NOTE, PARAMS_BODY).as_str());
    push_str(&mut out, "\n[background]\n");
    push_str(&mut out, commented(IMAGE_NOTE, IMAGE_BODY).as_str());
    push_str(&mut out, commented(VIDEO_NOTE, VIDEO_BODY).as_str());
    key(&mut out, FIT_NOTE, "fit", quoted(config.background.fit.as_str()).as_str());
    key(&mut out, BLUR_NOTE, "blur", float(&config.background.blur).as_str());
    key(&mut out, DARKEN_NOTE, "darken", float(&config.background.darken).as_str());
    push_str(&mut out, "\n[text]\n");
    key(&mut out, ENABLED_NOTE, "enabled", bool_string(config.text.enabled));
    key(&mut out, POSITION_NOTE, "position", quoted(config.text.position.as_str()).as_str());
    key(&mut out, IN_AT_NOTE, "in_at", quoted(config.text.in_at.to_string().as_str()).as_str());
    key(&mut out, HOLD_NOTE, "hold", quoted(config.text.hold.to_string().as_str()).as_str());
    key(&mut out, FADE_NOTE, "fade", quoted(config.text.fade.to_string().as_str()).as_str());
    key(&mut out, FONT_NOTE, "font", quoted("auto").as_str());
    key(&mut out, SIZE_NOTE, "size", float(&config.text.size).as_str());
    key(&mut out, MARGIN_NOTE, "margin", float(&config.text.margin).as_str());
    push_char(&mut out, '\n');
    push_str(&mut out, commented(CARD_NOTE, CARD_BODY).as_str());
    effects(&mut out, &config.effects);
    out
}

} // verus!
