//! The arithmetic and the words of a render: which frames a `--sample` covers,
//! where the muxed audio starts, how long the result plays, and the warnings
//! a render can give.
//!
//! Frame `i` shows at `i / fps`; every conversion between a time and a frame
//! index goes through that clock, in exact integer nanoseconds.

use vstd::prelude::*;
use crate::config::value::{FontChoice, SampleRange, Seconds};
use crate::error::Error;
use crate::text::{decimal, padded, push_decimal, push_padded, push_str, string_from};

verus! {

/// Which side of the hardware/software line the renderer landed on.
#[derive(Debug, Clone, Copy, PartialEq, Eq, Structural)]
pub enum AdapterKind {
    /// A real GPU.
    Hardware,
    /// A software rasterizer such as llvmpipe.
    Software,
}

pub open spec fn adapter_name(k: AdapterKind) -> Seq<char> {
    match k {
        AdapterKind::Hardware => "hardware"@,
        AdapterKind::Software => "software"@,
    }
}

impl AdapterKind {
    /// `hardware` or `software`.
    pub fn as_str(self) -> (s: &'static str)
        ensures
            s@ == adapter_name(self),
    {
        match self {
            AdapterKind::Hardware => "hardware",
            AdapterKind::Software => "software",
        }
    }
}

/// `n / d` rounded to the nearest integer, a half rounding to the even one.
pub open spec fn round_even(n: nat, d: nat) -> nat
    recommends
        d > 0,
{
    let q = n / d;
    let r = n % d;
    if 2 * r > d || (2 * r == d && q % 2 == 1) {
        q + 1
    } else {
        q
    }
}

/// `n / d` rounded to the nearest integer, a half rounding up.
pub open spec fn round_half_up(n: nat, d: nat) -> nat
    recommends
        d > 0,
{
    (2 * n + d) / (2 * d)
}

/// A count of hundredths as `W.FF`.
pub open spec fn hundredths_text(h: nat) -> Seq<char> {
    decimal(h / 100) + "."@ + padded(h % 100, 2)
}

/// A count of thousandths as `W.FFF`.
pub open spec fn thousandths_text(t: nat) -> Seq<char> {
    decimal(t / 1000) + "."@ + padded(t % 1000, 3)
}

/// Seconds given in nanoseconds, to two decimal places.
pub open spec fn seconds_2(ns: nat) -> Seq<char> {
    hundredths_text(round_even(ns, 10_000_000))
}

/// Seconds given in nanoseconds, to three decimal places.
pub open spec fn seconds_3(ns: nat) -> Seq<char> {
    thousandths_text(round_even(ns, 1_000_000))
}

/// `n / d` rounded to the nearest integer, a half rounding to the even one.
pub fn round_even_exec(n: u128, d: u128) -> (q: u128)
    requires
        d > 0,
        n < 0x1_0000_0000_0000_0000_0000_0000_0000_0000 - 1,
    ensures
        q == round_even(n as nat, d as nat),
{
    let q = n / d;
    let r = n % d;
    assert(r < d);
    assert(q <= n) by (nonlinear_arith)
        requires
            q == n / d,
            d > 0,
    ;
    if r > d - r || (r == d - r && q % 2 == 1) {
        q + 1
    } else {
        q
    }
}

/// Append a count of hundredths as `W.FF`.
pub fn push_hundredths(s: &mut String, h: u64)
    ensures
        final(s)@ == old(s)@ + hundredths_text(h as nat),
{
    let ghost start = s@;
    push_decimal(s, h / 100);
    push_str(s, ".");
    push_padded(s, h % 100, 2);
    assert(s@ =~= start + hundredths_text(h as nat));
}

/// Append a count of thousandths as `W.FFF`.
pub fn push_thousandths(s: &mut String, t: u64)
    ensures
        final(s)@ == old(s)@ + thousandths_text(t as nat),
{
    let ghost start = s@;
    push_decimal(s, t / 1000);
    push_str(s, ".");
    push_padded(s, t % 1000, 3);
    assert(s@ =~= start + thousandths_text(t as nat));
}

/// What a finished render turned out to be.
#[derive(Debug, Clone, PartialEq, Eq)]
pub struct RenderSummary {
    /// How many video frames were written.
    pub frames: u64,
    /// The frame rate they were written at.
    pub fps: u32,
    /// The adapter they were rendered on.
    pub adapter: AdapterKind,
    /// Where the mp4 was written.
    pub output: String,
}

/// `frames / fps` seconds, in nanoseconds, rounded to the nearest.
pub open spec fn playing_time(frames: nat, fps: nat) -> nat {
    round_half_up(frames * 1_000_000_000, fps)
}

impl RenderSummary {
    /// How long the rendered video plays for: `frames / fps`.
    pub fn duration(&self) -> (d: Seconds)
        requires
            self.fps > 0,
            playing_time(self.frames as nat, self.fps as nat) <= 0xffff_ffff_ffff_ffff,
        ensures
            d@ == playing_time(self.frames as nat, self.fps as nat),
    {
        let n: u128 = self.frames as u128 * 1_000_000_000;
        let d: u128 = self.fps as u128;
        let q = (2 * n + d) / (2 * d);
        Seconds::from_nanos(q as u64)
    }
}

/// The warning for a render that fell back to a software rasterizer: what
/// happened, what it costs, and how to silence it.
pub const SOFTWARE_FALLBACK_WARNING: &'static str = "no GPU adapter found, falling back to software rendering — expect roughly 5-15 fps instead of hundreds; pass `--adapter software` to silence this";

pub open spec fn no_words_message(input: Seq<char>) -> Seq<char> {
    "`"@ + input
        + "` has no ID3 title or artist, so the text card was skipped — pass `--title` and `--artist` to set them, or `--no-text` to silence this"@
}

/// What to say when the song names neither a title nor an artist.
pub fn no_words_warning(input: &str) -> (s: String)
    ensures
        s@ == no_words_message(input@),
{
    let mut s = string_from("`");
    push_str(&mut s, input);
    push_str(
        &mut s,
        "` has no ID3 title or artist, so the text card was skipped — pass `--title` and `--artist` to set them, or `--no-text` to silence this",
    );
    s
}

/// Whether `image` has to be enlarged on some axis to cover `frame`.
pub fn needs_upscaling(image: (u32, u32), frame: (u32, u32)) -> (r: bool)
    ensures
        r == (image.0 < frame.0 || image.1 < frame.1),
{
    image.0 < frame.0 || image.1 < frame.1
}

pub open spec fn upscale_message(path: Seq<char>, image: (u32, u32), frame: (u32, u32)) -> Seq<char> {
    "`"@ + path + "` is "@ + decimal(image.0 as nat) + "x"@ + decimal(image.1 as nat)
        + ", smaller than the "@ + decimal(frame.0 as nat) + "x"@ + decimal(frame.1 as nat)
        + " frame, so it will be upscaled and look soft — supply an image at least "@ + decimal(
        frame.0 as nat,
    ) + "x"@ + decimal(frame.1 as nat) + ", or `--set background.blur=6` to hide it"@
}

/// What to say when the background image is smaller than the frame it fills.
pub fn upscale_warning(path: &str, image: (u32, u32), frame: (u32, u32)) -> (s: String)
    ensures
        s@ == upscale_message(path@, image, frame),
{
    let mut s = string_from("`");
    push_str(&mut s, path);
    push_str(&mut s, "` is ");
    push_decimal(&mut s, image.0 as u64);
    push_str(&mut s, "x");
    push_decimal(&mut s, image.1 as u64);
    push_str(&mut s, ", smaller than the ");
    push_decimal(&mut s, frame.0 as u64);
    push_str(&mut s, "x");
    push_decimal(&mut s, frame.1 as u64);
    push_str(&mut s, " frame, so it will be upscaled and look soft — supply an image at least ");
    push_decimal(&mut s, frame.0 as u64);
    push_str(&mut s, "x");
    push_decimal(&mut s, frame.1 as u64);
    push_str(&mut s, ", or `--set background.blur=6` to hide it");
    s
}

pub open spec fn no_ink_message(font: crate::config::value::FontModel) -> Seq<char> {
    (match font {
        crate::config::value::FontModel::Auto => "the bundled font"@,
        crate::config::value::FontModel::Path(p) => "`"@ + p + "`"@,
    }) + " has no glyphs for the title or artist, so the text card was skipped — pass `--set text.font=PATH` a font that covers them, or `--no-text` to silence this"@
}

/// What to say when the words are there and the font cannot draw any of them.
pub fn no_ink_warning(font: &FontChoice) -> (s: String)
    ensures
        s@ == no_ink_message(font@),
{
    let mut s = match font {
        FontChoice::Auto => string_from("the bundled font"),
        FontChoice::Path(p) => {
            let mut t = string_from("`");
            push_str(&mut t, p.as_str());
            push_str(&mut t, "`");
            t
        },
    };
    push_str(
        &mut s,
        " has no glyphs for the title or artist, so the text card was skipped — pass `--set text.font=PATH` a font that covers them, or `--no-text` to silence this",
    );
    s
}

/// The half-open range of timeline frames a render covers.
#[derive(Debug, Clone, Copy, PartialEq, Eq, Structural)]
pub struct FrameRange {
    /// The first video frame to render.
    pub start: usize,
    /// One past the last video frame to render.
    pub end: usize,
}

impl FrameRange {
    /// How many frames the range covers.
    pub fn len(self) -> (n: usize)
        requires
            self.start <= self.end,
        ensures
            n == self.end - self.start,
    {
        self.end - self.start
    }
}

/// The first video frame whose timestamp is at or after `nanos`, with a
/// microsecond of slack so a boundary a hair past a frame's timestamp still
/// lands on that frame: the least `i >= 0` with `i >= nanos * fps / 10^9 -
/// 10^-6`. Saturates at the largest index a `usize` holds.
pub open spec fn first_frame_at(nanos: nat, fps: nat) -> nat {
    let x = nanos * fps;
    let i: nat = if x <= 1000 {
        0
    } else {
        ((x - 1000 + 999_999_999) / 1_000_000_000) as nat
    };
    if i > usize::MAX {
        usize::MAX as nat
    } else {
        i
    }
}

/// The first video frame whose timestamp is at or after `at`.
pub fn frame_at(at: Seconds, fps: u32) -> (i: usize)
    ensures
        i == first_frame_at(at@ as nat, fps as nat),
{
    let ns = at.as_nanos() as u128;
    assert(ns * (fps as u128) <= 0xffff_ffff_ffff_ffff * 0xffff_ffff) by (nonlinear_arith)
        requires
            ns <= 0xffff_ffff_ffff_ffff,
            fps <= 0xffff_ffff,
    ;
    let x: u128 = ns * (fps as u128);
    let i: u128 = if x <= 1000 {
        0
    } else {
        (x - 1000 + 999_999_999) / 1_000_000_000
    };
    if i > usize::MAX as u128 {
        usize::MAX
    } else {
        i as usize
    }
}

pub open spec fn starts_past_end_message(start_ns: nat, frames: nat, fps: nat) -> Seq<char> {
    "the sample starts at "@ + seconds_2(start_ns) + "s, but the song is only "@ + (if fps
        == 0 {
        if frames == 0 {
            "NaN"@
        } else {
            "inf"@
        }
    } else {
        hundredths_text(round_even(frames * 100, fps))
    }) + "s long"@
}

pub open spec fn too_short_message(start_ns: nat, end_ns: nat, fps: nat) -> Seq<char> {
    "the sample "@ + seconds_3(start_ns) + "s.."@ + seconds_3(end_ns)
        + "s is shorter than one frame at "@ + decimal(fps) + " fps"@
}

/// Which frames of a song `frames` long a `sample` asks for: all of them
/// without one; with one, from the frame at its start to the frame at its
/// end, clamped to the song.
pub open spec fn frames_for(frames: nat, fps: nat, sample: Option<(u64, u64)>) -> Result<
    (nat, nat),
    Seq<char>,
> {
    match sample {
        None => Ok((0, frames)),
        Some((s, e)) => {
            let start = first_frame_at(s as nat, fps);
            let end = if first_frame_at(e as nat, fps) < frames {
                first_frame_at(e as nat, fps)
            } else {
                frames
            };
            if start >= frames {
                Err(starts_past_end_message(s as nat, frames, fps))
            } else if end <= start {
                Err(too_short_message(s as nat, e as nat, fps))
            } else {
                Ok((start, end))
            }
        },
    }
}

/// Append seconds given in nanoseconds, to two decimal places.
fn push_seconds_2(s: &mut String, ns: u64)
    ensures
        final(s)@ == old(s)@ + seconds_2(ns as nat),
{
    let h = round_even_exec(ns as u128, 10_000_000);
    assert(h <= ns as u128 / 10_000_000 + 1);
    push_hundredths(s, h as u64);
}

/// Append seconds given in nanoseconds, to three decimal places.
fn push_seconds_3(s: &mut String, ns: u64)
    ensures
        final(s)@ == old(s)@ + seconds_3(ns as nat),
{
    let t = round_even_exec(ns as u128, 1_000_000);
    assert(t <= ns as u128 / 1_000_000 + 1);
    push_thousandths(s, t as u64);
}

/// Which timeline frames `sample` asks for, out of a song `frames` long.
///
/// An error, in the user's terms, if the range starts past the end of the
/// song or is too short to hold a single frame.
pub fn frame_range(frames: usize, fps: u32, sample: Option<SampleRange>) -> (r: Result<FrameRange, Error>)
    ensures
        match r {
            Ok(range) => frames_for(
                frames as nat,
                fps as nat,
                match sample {
                    Some(x) => Some((x.start@, x.end@)),
                    None => None,
                },
            ) == Ok::<(nat, nat), Seq<char>>((range.start as nat, range.end as nat)),
            Err(e) => frames_for(
                frames as nat,
                fps as nat,
                match sample {
                    Some(x) => Some((x.start@, x.end@)),
                    None => None,
                },
            ) matches Err(m) && e matches Error::Config(t) && t@ == m,
        },
{
    let sample = match sample {
        None => return Ok(FrameRange { start: 0, end: frames }),
        Some(s) => s,
    };
    let start = frame_at(sample.start, fps);
    if start >= frames {
        let mut m = string_from("the sample starts at ");
        push_seconds_2(&mut m, sample.start.as_nanos());
        push_str(&mut m, "s, but the song is only ");
        if fps == 0 {
            if frames == 0 {
                push_str(&mut m, "NaN");
            } else {
                push_str(&mut m, "inf");
            }
        } else {
            let n: u128 = frames as u128 * 100;
            let h = round_even_exec(n, fps as u128);
            assert(h <= n / (fps as u128) + 1);
            assert(n / (fps as u128) <= n) by (nonlinear_arith)
                requires
                    fps > 0,
            ;
            assert(h / 100 <= frames) by (nonlinear_arith)
                requires
                    h <= n / (fps as u128) + 1,
                    n == frames * 100,
                    fps > 0,
            ;
            push_decimal(&mut m, (h / 100) as u64);
            push_str(&mut m, ".");
            push_padded(&mut m, (h % 100) as u64, 2);
        }
        push_str(&mut m, "s long");
        return Err(Error::Config(m));
    }
    let at_end = frame_at(sample.end, fps);
    let end = if at_end < frames {
        at_end
    } else {
        frames
    };
    if end <= start {
        let mut m = string_from("the sample ");
        push_seconds_3(&mut m, sample.start.as_nanos());
        push_str(&mut m, "s..");
        push_seconds_3(&mut m, sample.end.as_nanos());
        push_str(&mut m, "s is shorter than one frame at ");
        push_decimal(&mut m, fps as u64);
        push_str(&mut m, " fps");
        return Err(Error::Config(m));
    }
    Ok(FrameRange { start, end })
}

/// Frame `index`'s timestamp, `index / fps` seconds, in nanoseconds rounded
/// to the nearest.
pub open spec fn timestamp_of(index: nat, fps: nat) -> nat {
    round_half_up(index * 1_000_000_000, fps)
}

/// Where in the song the muxed audio must start: the first rendered frame's
/// timestamp, so picture and sound start at the same instant.
pub fn audio_start(range: FrameRange, fps: u32) -> (s: Seconds)
    requires
        fps > 0,
        timestamp_of(range.start as nat, fps as nat) <= 0xffff_ffff_ffff_ffff,
    ensures
        s@ == timestamp_of(range.start as nat, fps as nat),
{
    let n: u128 = range.start as u128 * 1_000_000_000;
    let d: u128 = fps as u128;
    let q = (2 * n + d) / (2 * d);
    Seconds::from_nanos(q as u64)
}

/// A frame index never comes back later than the time it was asked for by
/// more than one frame: frame `i` at or after time `t` is the first one, so
/// the frame before it shows strictly before `t`.
pub proof fn law_frame_at_is_the_first_frame_at_or_after(nanos: nat, fps: nat)
    requires
        fps > 0,
        first_frame_at(nanos, fps) < usize::MAX,
    ensures
        first_frame_at(nanos, fps) * 1_000_000_000 + 1000 >= nanos * fps,
        first_frame_at(nanos, fps) > 0 ==> (first_frame_at(nanos, fps) - 1) * 1_000_000_000
            + 1000 < nanos * fps,
{
    let x = nanos * fps;
    if x > 1000 {
        let i = ((x - 1000 + 999_999_999) / 1_000_000_000) as nat;
        assert(i * 1_000_000_000 >= x - 1000) by (nonlinear_arith)
            requires
                i == (x - 1000 + 999_999_999) / 1_000_000_000,
                x > 1000,
        ;
        assert(i > 0 ==> (i - 1) * 1_000_000_000 < x - 1000) by (nonlinear_arith)
            requires
                i == (x - 1000 + 999_999_999) / 1_000_000_000,
                x > 1000,
        ;
    }
}

/// A range that `frame_range` accepts is a part of the song, and a sample's
/// range is never empty.
pub proof fn law_accepted_range_is_within_the_song(
    frames: nat,
    fps: nat,
    sample: Option<(u64, u64)>,
)
    ensures
        frames_for(frames, fps, sample) matches Ok((s, e)) ==> s <= e && e <= frames && (
        sample is Some ==> s < e) && (sample is None ==> s == 0 && e == frames),
{
}

} // verus!
