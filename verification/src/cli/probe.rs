//! `avz probe song.mp3`: what avz sees in a file before it renders it.
//!
//! Missing tags are printed as missing; only an unreadable file is an error.

use vstd::prelude::*;
use crate::meta::{CoverArt, TrackMeta};
use crate::pipeline::round_even;
use crate::text::{decimal, padded, push_decimal, push_padded, push_str, string_from};

verus! {

/// Width of the label column, so values line up under each other.
pub const LABEL_WIDTH: usize = 12;

/// What an absent tag looks like. A value, not an error.
pub const MISSING: &'static str = "(missing)";

/// What an absent cover looks like: the file simply carries no artwork.
pub const NONE: &'static str = "(none)";

/// `n` spaces.
pub open spec fn spaces(n: nat) -> Seq<char> {
    Seq::new(n, |i: int| ' ')
}

/// One report row: the label padded to [`LABEL_WIDTH`], then the value.
pub open spec fn field_text(label: Seq<char>, value: Seq<char>) -> Seq<char> {
    "  "@ + label + spaces(if label.len() < LABEL_WIDTH {
        (LABEL_WIDTH - label.len()) as nat
    } else {
        0
    }) + value + "\n"@
}

fn field(out: &mut String, label: &str, value: &str)
    ensures
        final(out)@ == old(out)@ + field_text(label@, value@),
{
    let ghost start = out@;
    push_str(out, "  ");
    push_str(out, label);
    let n = label.unicode_len();
    let mut k = n;
    let ghost mid = out@;
    while k < LABEL_WIDTH
        invariant
            n <= k <= LABEL_WIDTH || (n > LABEL_WIDTH && k == n),
            n == label@.len(),
            out@ == mid + spaces((k - n) as nat),
        decreases LABEL_WIDTH - k,
    {
        crate::text::push_char(out, ' ');
        assert(out@ =~= mid + spaces((k + 1 - n) as nat));
        k = k + 1;
    }
    push_str(out, value);
    push_str(out, "\n");
    assert(out@ =~= start + field_text(label@, value@));
}

/// A duration the way a music player shows it: `0:05.04`, `3:47.50`,
/// `1:01:01.00`, with the seconds rounded to hundredths.
pub open spec fn duration_text(ns: nat) -> Seq<char> {
    let hours = ns / 3_600_000_000_000;
    let minutes = (ns % 3_600_000_000_000) / 60_000_000_000;
    let hundredths = round_even(ns % 60_000_000_000, 10_000_000);
    let seconds = padded(hundredths / 100, 2) + "."@ + padded(hundredths % 100, 2);
    if hours > 0 {
        decimal(hours) + ":"@ + padded(minutes, 2) + ":"@ + seconds
    } else {
        decimal(minutes) + ":"@ + seconds
    }
}

/// `0:05.04`, `3:47.50`, `1:01:01.00`.
pub fn format_duration(duration: crate::config::value::Seconds) -> (s: String)
    ensures
        s@ == duration_text(duration@ as nat),
{
    let ns = duration.as_nanos();
    let hours = ns / 3_600_000_000_000;
    let minutes = (ns % 3_600_000_000_000) / 60_000_000_000;
    let hundredths = crate::pipeline::round_even_exec((ns % 60_000_000_000) as u128, 10_000_000);
    assert(hundredths <= 6000);
    let hundredths = hundredths as u64;
    let mut s = String::new();
    if hours > 0 {
        push_decimal(&mut s, hours);
        push_str(&mut s, ":");
        push_padded(&mut s, minutes, 2);
        push_str(&mut s, ":");
    } else {
        push_decimal(&mut s, minutes);
        push_str(&mut s, ":");
    }
    push_padded(&mut s, hundredths / 100, 2);
    push_str(&mut s, ".");
    push_padded(&mut s, hundredths % 100, 2);
    assert(s@ =~= duration_text(duration@ as nat));
    s
}

pub open spec fn channels_text(n: u8) -> Seq<char> {
    if n == 1 {
        "1 (mono)"@
    } else if n == 2 {
        "2 (stereo)"@
    } else {
        decimal(n as nat)
    }
}

/// Name the common channel counts; a user reads "stereo" faster than "2".
pub fn format_channels(channels: u8) -> (s: String)
    ensures
        s@ == channels_text(channels),
{
    if channels == 1 {
        string_from("1 (mono)")
    } else if channels == 2 {
        string_from("2 (stereo)")
    } else {
        let mut s = String::new();
        push_decimal(&mut s, channels as u64);
        s
    }
}

/// A byte count a human can compare at a glance: bytes below a KiB, then
/// KiB or MiB to one decimal place.
pub open spec fn bytes_text(n: nat) -> Seq<char> {
    if n < 1024 {
        decimal(n) + " B"@
    } else if n < 1_048_576 {
        let t = round_even(n * 10, 1024);
        decimal(t / 10) + "."@ + decimal(t % 10) + " KiB"@
    } else {
        let t = round_even(n * 10, 1_048_576);
        decimal(t / 10) + "."@ + decimal(t % 10) + " MiB"@
    }
}

/// Byte counts a human can compare at a glance.
pub fn format_bytes(bytes: usize) -> (s: String)
    ensures
        s@ == bytes_text(bytes as nat),
{
    let mut s = String::new();
    if bytes < 1024 {
        push_decimal(&mut s, bytes as u64);
        push_str(&mut s, " B");
        return s;
    }
    let unit: u128 = if bytes < 1_048_576 {
        1024
    } else {
        1_048_576
    };
    let n: u128 = bytes as u128 * 10;
    let t = crate::pipeline::round_even_exec(n, unit);
    assert(t <= n / unit + 1);
    assert(n / unit <= bytes as u128) by (nonlinear_arith)
        requires
            unit >= 1024,
            n == bytes as u128 * 10,
    ;
    push_decimal(&mut s, (t / 10) as u64);
    push_str(&mut s, ".");
    push_decimal(&mut s, (t % 10) as u64);
    if bytes < 1_048_576 {
        push_str(&mut s, " KiB");
    } else {
        push_str(&mut s, " MiB");
    }
    s
}

pub open spec fn cover_text(mime: Option<Seq<char>>, dimensions: Option<(u32, u32)>, size: nat) -> Seq<char> {
    (match mime {
        Some(m) => m,
        None => "unknown type"@,
    }) + ", "@ + (match dimensions {
        Some((w, h)) => decimal(w as nat) + "x"@ + decimal(h as nat),
        None => "unreadable image"@,
    }) + ", "@ + bytes_text(size)
}

/// `image/png, 256x256, 2.7 KiB`: mime, dimensions, and weight; any of the
/// first two may be unknown, and the rest is still worth printing.
pub fn format_cover(cover: &CoverArt) -> (s: String)
    ensures
        s@ == cover_text(
            match cover.mime {
                Some(m) => Some(m@),
                None => None,
            },
            cover.dimensions,
            cover.data@.len(),
        ),
{
    let mut s = match &cover.mime {
        Some(m) => string_from(m.as_str()),
        None => string_from("unknown type"),
    };
    push_str(&mut s, ", ");
    match cover.dimensions {
        Some((w, h)) => {
            push_decimal(&mut s, w as u64);
            push_str(&mut s, "x");
            push_decimal(&mut s, h as u64);
        },
        None => push_str(&mut s, "unreadable image"),
    }
    push_str(&mut s, ", ");
    push_str(&mut s, format_bytes(cover.data.len()).as_str());
    s
}

pub open spec fn tag_text(tag: Option<String>) -> Seq<char> {
    match tag {
        Some(t) => t@,
        None => MISSING@,
    }
}

pub open spec fn number_text(n: Option<u32>, unit: Seq<char>) -> Seq<char> {
    match n {
        Some(v) => decimal(v as nat) + unit,
        None => MISSING@,
    }
}

/// The whole report: the path, then one aligned row per field.
pub open spec fn report_text(path: Seq<char>, meta: TrackMeta) -> Seq<char> {
    path + "\n"@ + field_text("title"@, tag_text(meta.title)) + field_text(
        "artist"@,
        tag_text(meta.artist),
    ) + field_text("album"@, tag_text(meta.album)) + field_text(
        "duration"@,
        duration_text(meta.duration@ as nat),
    ) + field_text("sample rate"@, number_text(meta.sample_rate, " Hz"@)) + field_text(
        "channels"@,
        match meta.channels {
            Some(n) => channels_text(n),
            None => MISSING@,
        },
    ) + field_text("bitrate"@, number_text(meta.bitrate_kbps, " kbps"@)) + field_text(
        "cover art"@,
        match meta.cover {
            Some(c) => cover_text(
                match c.mime {
                    Some(m) => Some(m@),
                    None => None,
                },
                c.dimensions,
                c.data@.len(),
            ),
            None => NONE@,
        },
    )
}

fn tag(t: &Option<String>) -> (s: String)
    ensures
        s@ == tag_text(*t),
{
    match t {
        Some(v) => string_from(v.as_str()),
        None => string_from(MISSING),
    }
}

fn number(n: Option<u32>, unit: &str) -> (s: String)
    ensures
        s@ == number_text(n, unit@),
{
    match n {
        Some(v) => {
            let mut s = String::new();
            push_decimal(&mut s, v as u64);
            push_str(&mut s, unit);
            s
        },
        None => string_from(MISSING),
    }
}

/// The human-readable report for the song at `path`.
pub fn report(path: &str, meta: &TrackMeta) -> (s: String)
    ensures
        s@ == report_text(path@, *meta),
{
    let mut out = string_from(path);
    push_str(&mut out, "\n");
    field(&mut out, "title", tag(&meta.title).as_str());
    field(&mut out, "artist", tag(&meta.artist).as_str());
    field(&mut out, "album", tag(&meta.album).as_str());
    field(&mut out, "duration", format_duration(meta.duration).as_str());
    field(&mut out, "sample rate", number(meta.sample_rate, " Hz").as_str());
    let channels = match meta.channels {
        Some(n) => format_channels(n),
        None => string_from(MISSING),
    };
    field(&mut out, "channels", channels.as_str());
    field(&mut out, "bitrate", number(meta.bitrate_kbps, " kbps").as_str());
    let cover = match &meta.cover {
        Some(c) => format_cover(c),
        None => string_from(NONE),
    };
    field(&mut out, "cover art", cover.as_str());
    out
}

} // verus!
