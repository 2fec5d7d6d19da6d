//! The ffmpeg side of a render: proving a usable ffmpeg exists, the argument
//! vector that turns raw RGBA on stdin into an mp4, and the words for every
//! way that can fail.
//!
//! ffmpeg is a subprocess, never a crate. Raw RGBA frames go to its stdin; the
//! song's own mp3 stream is muxed with `-c:a copy` and never re-encoded; output
//! is written to `out.mp4.part` and renamed on success.

use vstd::prelude::*;
use crate::config::value::{Codec, Seconds, codec_name};
use crate::error::Error;
use crate::pipeline::round_even;
use crate::text::{
    chars_eq, chars_of, decimal, is_blank, join, lines, lines_exec, padded, push_all,
    push_decimal, push_padded, push_str, slice, string_from, string_of, trim, trim_chars, words,
    words_exec,
};

verus! {

/// The program name looked up on `PATH` when the caller has no better idea.
pub const DEFAULT_PROGRAM: &'static str = "ffmpeg";

/// Fedora is the primary target, so its install line leads.
pub const INSTALL_HINT: &'static str = "install it with `sudo dnf install ffmpeg` on Fedora, or your distribution's equivalent";

/// Bytes per pixel of a tightly packed RGBA frame.
pub const BYTES_PER_PIXEL: u32 = 4;

/// How many trailing stderr lines are kept to explain a failure.
pub const STDERR_TAIL_LINES: usize = 8;

/// The argument of the run that `preflight_from` judges: `program -version`.
pub const VERSION_PROBE: &'static str = "-version";

/// The first argument of the run that `encoders_from` judges: no banner on
/// stderr.
pub const QUIET_BANNER: &'static str = "-hide_banner";

/// The second argument of the run that `encoders_from` judges: ffmpeg's
/// encoder list.
pub const LIST_ENCODERS: &'static str = "-encoders";

/// How the video stream is encoded.
#[derive(Debug, Clone, Copy, PartialEq, Eq, Structural)]
pub struct EncodeSettings {
    /// Frame width in pixels. Must be even.
    pub width: u32,
    /// Frame height in pixels. Must be even.
    pub height: u32,
    /// Frames per second, which is also the rate the frames are timestamped at.
    pub fps: u32,
    /// Video codec. Only x264 is encoded for now.
    pub codec: Codec,
    /// CRF quality; lower is better.
    pub quality: u8,
    /// How far into the mp3 the muxed audio starts, for a `--sample` render;
    /// zero for a whole-song render.
    pub audio_start: Seconds,
}

impl EncodeSettings {
    /// Bytes in one tightly packed RGBA frame.
    pub fn frame_bytes(&self) -> (n: usize)
        requires
            self.width * self.height * 4 <= usize::MAX,
        ensures
            n == self.width * self.height * 4,
    {
        assert(self.width as int * self.height as int <= self.width * self.height * 4) by (nonlinear_arith);
        (self.width as usize) * (self.height as usize) * (BYTES_PER_PIXEL as usize)
    }
}

pub open spec fn deferred_codec_message(c: Codec) -> Seq<char> {
    "codec `"@ + codec_name(c) + "` is not supported yet; avz v0.1 encodes x264 only — use `--codec x264`"@
}

/// The ffmpeg encoder name for `codec`, or why it is not encoded yet.
pub fn video_encoder(codec: Codec) -> (r: Result<&'static str, Error>)
    ensures
        match r {
            Ok(name) => codec == Codec::X264 && name@ == "libx264"@,
            Err(e) => codec != Codec::X264 && (e matches Error::Encode(m) && m@
                == deferred_codec_message(codec)),
        },
{
    match codec {
        Codec::X264 => Ok("libx264"),
        _ => {
            let mut m = string_from("codec `");
            push_str(&mut m, codec.as_str());
            push_str(&mut m, "` is not supported yet; avz v0.1 encodes x264 only — use `--codec x264`");
            Err(Error::Encode(m))
        },
    }
}

/// Seconds given in nanoseconds, to six decimal places.
pub open spec fn seconds_6(ns: nat) -> Seq<char> {
    let micros = round_even(ns, 1000);
    decimal(micros / 1_000_000) + "."@ + padded(micros % 1_000_000, 6)
}

pub open spec fn dimension_error(name: Seq<char>, value: u32) -> Option<Seq<char>> {
    if value == 0 {
        Some("frame "@ + name + " must not be zero"@)
    } else if value % 2 != 0 {
        Some("frame "@ + name + " "@ + decimal(value as nat) + " must be even: the yuv420p output halves it"@)
    } else {
        None
    }
}

/// The argument vector for one render: rawvideo on stdin, the mp3 as a
/// second input seeked to the sample's start, one stream mapped from each,
/// the audio copied, and the part file as the destination.
pub open spec fn ffmpeg_argv(s: EncodeSettings, audio: Seq<char>, part: Seq<char>) -> Result<
    Seq<Seq<char>>,
    Seq<char>,
> {
    if s.codec != Codec::X264 {
        Err(deferred_codec_message(s.codec))
    } else if s.fps == 0 {
        Err("frame rate must not be zero"@)
    } else if dimension_error("width"@, s.width) is Some {
        Err(dimension_error("width"@, s.width)->0)
    } else if dimension_error("height"@, s.height) is Some {
        Err(dimension_error("height"@, s.height)->0)
    } else {
        let size = decimal(s.width as nat) + "x"@ + decimal(s.height as nat);
        let head = seq![
            "-y"@,
            "-hide_banner"@,
            "-nostats"@,
            "-loglevel"@,
            "error"@,
            "-f"@,
            "rawvideo"@,
            "-pix_fmt"@,
            "rgba"@,
            "-s"@,
            size,
            "-r"@,
            decimal(s.fps as nat),
            "-i"@,
            "pipe:0"@,
        ];
        let seek = if s.audio_start@ == 0 {
            head
        } else {
            head.push("-ss"@).push(seconds_6(s.audio_start@ as nat))
        };
        Ok(
            seek + seq![
                "-i"@,
                audio,
                "-map"@,
                "0:v"@,
                "-map"@,
                "1:a"@,
                "-c:v"@,
                "libx264"@,
                "-preset"@,
                "slow"@,
                "-crf"@,
                decimal(s.quality as nat),
                "-pix_fmt"@,
                "yuv420p"@,
                "-c:a"@,
                "copy"@,
                "-movflags"@,
                "+faststart"@,
                "-shortest"@,
                "-f"@,
                "mp4"@,
                part,
            ],
        )
    }
}

/// The command line is the encode it is meant to be: the first input is raw
/// RGBA frames of the settings' size and rate on stdin; the song is the
/// second input, seeked to the audio start when there is one; the video goes
/// through libx264 at the settings' quality into yuv420p, the song's audio is
/// copied as it is; and, however the render seeks the song, the video
/// decides where the output ends: `-shortest` stands among the output
/// options, after both inputs and just before the `mp4` muxer and the part
/// path, so a `--sample` render stops when avz stops writing frames.
pub proof fn law_the_video_sets_the_length(s: EncodeSettings, audio: Seq<char>, part: Seq<char>)
    requires
        ffmpeg_argv(s, audio, part) is Ok,
    ensures
        ffmpeg_argv(s, audio, part) matches Ok(v) && {
            let n = v.len() as int;
            &&& n >= 19
            &&& v[13] == "-i"@
            &&& v[14] == "pipe:0"@
            &&& exists|j: int| 14 < j && j + 1 < n - 4 && #[trigger] v[j] == "-i"@ && v[j + 1] == audio
            &&& exists|j: int| 14 < j && j + 1 < n - 4 && #[trigger] v[j] == "-c:a"@ && v[j + 1] == "copy"@
            &&& v[0] == "-y"@
            &&& v[5] == "-f"@ && v[6] == "rawvideo"@ && v[7] == "-pix_fmt"@ && v[8] == "rgba"@
            &&& v[9] == "-s"@ && v[10] == decimal(s.width as nat) + "x"@ + decimal(s.height as nat)
            &&& v[11] == "-r"@ && v[12] == decimal(s.fps as nat)
            &&& s.audio_start@ == 0 ==> v[15] == "-i"@ && v[16] == audio
            &&& s.audio_start@ != 0 ==> v[15] == "-ss"@ && v[16] == seconds_6(s.audio_start@ as nat)
                && v[17] == "-i"@ && v[18] == audio
            &&& exists|j: int| 14 < j && j + 3 < n - 4 && #[trigger] v[j] == "-map"@ && v[j + 1]
                == "0:v"@ && v[j + 2] == "-map"@ && v[j + 3] == "1:a"@
            &&& exists|j: int| 14 < j && j + 1 < n - 4 && #[trigger] v[j] == "-c:v"@ && v[j + 1]
                == "libx264"@
            &&& exists|j: int| 14 < j && j + 1 < n - 4 && #[trigger] v[j] == "-crf"@ && v[j + 1]
                == decimal(s.quality as nat)
            &&& exists|j: int| 14 < j && j + 1 < n - 4 && #[trigger] v[j] == "-pix_fmt"@ && v[j + 1]
                == "yuv420p"@
            &&& v[n - 4] == "-shortest"@
            &&& v[n - 3] == "-f"@
            &&& v[n - 2] == "mp4"@
            &&& v[n - 1] == part
        },
{
    let size = decimal(s.width as nat) + "x"@ + decimal(s.height as nat);
    let head = seq![
        "-y"@,
        "-hide_banner"@,
        "-nostats"@,
        "-loglevel"@,
        "error"@,
        "-f"@,
        "rawvideo"@,
        "-pix_fmt"@,
        "rgba"@,
        "-s"@,
        size,
        "-r"@,
        decimal(s.fps as nat),
        "-i"@,
        "pipe:0"@,
    ];
    let seek = if s.audio_start@ == 0 {
        head
    } else {
        head.push("-ss"@).push(seconds_6(s.audio_start@ as nat))
    };
    let v = ffmpeg_argv(s, audio, part)->Ok_0;
    let k = seek.len() as int;
    assert(v[13] == seek[13]);
    assert(v[14] == seek[14]);
    assert(v[k] == "-i"@ && v[k + 1] == audio);
    assert(v[k + 14] == "-c:a"@ && v[k + 15] == "copy"@);
    assert(v[k + 2] == "-map"@ && v[k + 3] == "0:v"@ && v[k + 4] == "-map"@ && v[k + 5] == "1:a"@);
    assert(v[k + 6] == "-c:v"@ && v[k + 7] == "libx264"@);
    assert(v[k + 10] == "-crf"@ && v[k + 11] == decimal(s.quality as nat));
    assert(v[k + 12] == "-pix_fmt"@ && v[k + 13] == "yuv420p"@);
    assert(v[0] == "-y"@ && v[5] == "-f"@ && v[6] == "rawvideo"@ && v[7] == "-pix_fmt"@);
    assert(v[8] == "rgba"@ && v[9] == "-s"@ && v[10] == size && v[11] == "-r"@);
    assert(v[12] == decimal(s.fps as nat));
    if s.audio_start@ != 0 {
        assert(v[15] == "-ss"@ && v[16] == seconds_6(s.audio_start@ as nat));
    }
}

fn arg(v: &mut Vec<String>, a: &str)
    ensures
        final(v)@.map_values(|s: String| s@) == old(v)@.map_values(|s: String| s@).push(a@),
{
    let ghost before = v@;
    v.push(string_from(a));
    assert(v@.map_values(|s: String| s@) =~= before.map_values(|s: String| s@).push(a@));
}

fn arg_owned(v: &mut Vec<String>, a: String)
    ensures
        final(v)@.map_values(|s: String| s@) == old(v)@.map_values(|s: String| s@).push(a@),
{
    let ghost before = v@;
    v.push(a);
    assert(v@.map_values(|s: String| s@) =~= before.map_values(|s: String| s@).push(a@));
}

fn dimension_check(name: &str, value: u32) -> (r: Option<Error>)
    ensures
        match r {
            Some(e) => dimension_error(name@, value) matches Some(m) && e matches Error::Encode(t)
                && t@ == m,
            None => dimension_error(name@, value) is None,
        },
{
    if value == 0 {
        let mut m = string_from("frame ");
        push_str(&mut m, name);
        push_str(&mut m, " must not be zero");
        return Some(Error::Encode(m));
    }
    if value % 2 != 0 {
        let mut m = string_from("frame ");
        push_str(&mut m, name);
        push_str(&mut m, " ");
        push_decimal(&mut m, value as u64);
        push_str(&mut m, " must be even: the yuv420p output halves it");
        return Some(Error::Encode(m));
    }
    None
}

/// Build the argument vector for one render.
pub fn ffmpeg_args(settings: &EncodeSettings, audio: &str, part: &str) -> (r: Result<Vec<String>, Error>)
    ensures
        match r {
            Ok(v) => ffmpeg_argv(*settings, audio@, part@) == Ok::<Seq<Seq<char>>, Seq<char>>(
                v@.map_values(|s: String| s@),
            ),
            Err(e) => ffmpeg_argv(*settings, audio@, part@) matches Err(m) && e matches Error::Encode(
                t,
            ) && t@ == m,
        },
{
    let encoder = match video_encoder(settings.codec) {
        Ok(name) => name,
        Err(e) => return Err(e),
    };
    if settings.fps == 0 {
        return Err(Error::Encode(string_from("frame rate must not be zero")));
    }
    if let Some(e) = dimension_check("width", settings.width) {
        return Err(e);
    }
    if let Some(e) = dimension_check("height", settings.height) {
        return Err(e);
    }
    let mut size = String::new();
    push_decimal(&mut size, settings.width as u64);
    push_str(&mut size, "x");
    push_decimal(&mut size, settings.height as u64);
    let mut fps = String::new();
    push_decimal(&mut fps, settings.fps as u64);
    let mut v: Vec<String> = Vec::new();
    arg(&mut v, "-y");
    arg(&mut v, "-hide_banner");
    arg(&mut v, "-nostats");
    arg(&mut v, "-loglevel");
    arg(&mut v, "error");
    arg(&mut v, "-f");
    arg(&mut v, "rawvideo");
    arg(&mut v, "-pix_fmt");
    arg(&mut v, "rgba");
    arg(&mut v, "-s");
    arg_owned(&mut v, size);
    arg(&mut v, "-r");
    arg_owned(&mut v, fps);
    arg(&mut v, "-i");
    arg(&mut v, "pipe:0");
    let ns = settings.audio_start.as_nanos();
    if ns != 0 {
        arg(&mut v, "-ss");
        let micros = crate::pipeline::round_even_exec(ns as u128, 1000);
        assert(micros <= ns as u128 / 1000 + 1);
        let micros = micros as u64;
        let mut t = String::new();
        push_decimal(&mut t, micros / 1_000_000);
        push_str(&mut t, ".");
        push_padded(&mut t, micros % 1_000_000, 6);
        arg_owned(&mut v, t);
    }
    let ghost seek = v@.map_values(|s: String| s@);
    arg(&mut v, "-i");
    arg(&mut v, audio);
    arg(&mut v, "-map");
    arg(&mut v, "0:v");
    arg(&mut v, "-map");
    arg(&mut v, "1:a");
    arg(&mut v, "-c:v");
    arg(&mut v, encoder);
    arg(&mut v, "-preset");
    arg(&mut v, "slow");
    arg(&mut v, "-crf");
    let mut quality = String::new();
    push_decimal(&mut quality, settings.quality as u64);
    arg_owned(&mut v, quality);
    arg(&mut v, "-pix_fmt");
    arg(&mut v, "yuv420p");
    arg(&mut v, "-c:a");
    arg(&mut v, "copy");
    arg(&mut v, "-movflags");
    arg(&mut v, "+faststart");
    arg(&mut v, "-shortest");
    arg(&mut v, "-f");
    arg(&mut v, "mp4");
    arg(&mut v, part);
    assert(v@.map_values(|s: String| s@) =~= ffmpeg_argv(*settings, audio@, part@)->Ok_0);
    Ok(v)
}

/// The path ffmpeg writes before the rename: `out.mp4` becomes
/// `out.mp4.part`.
pub fn part_path(output: &str) -> (p: String)
    ensures
        p@ == output@ + ".part"@,
{
    let mut p = string_from(output);
    push_str(&mut p, ".part");
    p
}

/// ffmpeg's own last words about why it failed, if it said anything.
pub open spec fn last_words(stderr: Seq<Seq<char>>) -> Seq<char> {
    if stderr.len() == 0 {
        Seq::empty()
    } else {
        " — ffmpeg said: "@ + join(stderr, "; "@)
    }
}

/// ffmpeg's own last words about why it failed, if it said anything.
pub fn complaint(stderr: &Vec<String>) -> (s: String)
    ensures
        s@ == last_words(stderr@.map_values(|l: String| l@)),
{
    let ghost views = stderr@.map_values(|l: String| l@);
    if stderr.len() == 0 {
        let s = String::new();
        assert(s@ =~= last_words(views));
        return s;
    }
    let mut s = string_from(" — ffmpeg said: ");
    let ghost head = s@;
    push_str(&mut s, stderr[0].as_str());
    assert(views.subrange(0, 1) =~= seq![views[0]]);
    let mut i: usize = 1;
    while i < stderr.len()
        invariant
            1 <= i <= stderr@.len(),
            views == stderr@.map_values(|l: String| l@),
            head == " — ffmpeg said: "@,
            s@ == head + join(views.subrange(0, i as int), "; "@),
        decreases stderr.len() - i,
    {
        proof {
            crate::config::value::lemma_join_step(views, "; "@, i as int);
        }
        push_str(&mut s, "; ");
        push_str(&mut s, stderr[i].as_str());
        assert(s@ =~= head + join(views.subrange(0, i + 1), "; "@));
        i = i + 1;
    }
    assert(views.subrange(0, stderr@.len() as int) =~= views);
    s
}

pub open spec fn frame_size_message(got: nat, expected: nat) -> Seq<char> {
    "frame is "@ + decimal(got) + " bytes, expected "@ + decimal(expected) + " for one RGBA frame"@
}

/// A frame of the wrong size would shear every frame after it.
pub fn check_frame_size(got: usize, expected: usize) -> (r: Result<(), Error>)
    ensures
        match r {
            Ok(_) => got == expected,
            Err(e) => got != expected && (e matches Error::Encode(m) && m@ == frame_size_message(
                got as nat,
                expected as nat,
            )),
        },
{
    if got != expected {
        let mut m = string_from("frame is ");
        push_decimal(&mut m, got as u64);
        push_str(&mut m, " bytes, expected ");
        push_decimal(&mut m, expected as u64);
        push_str(&mut m, " for one RGBA frame");
        return Err(Error::Encode(m));
    }
    Ok(())
}

/// How a finished ffmpeg exited, and what it said.
#[derive(Debug, Clone, PartialEq, Eq)]
pub enum ExitReport {
    /// It exited zero.
    Success,
    /// It exited non-zero; `status` is how the system describes the exit.
    Failed { status: String },
}

pub open spec fn unfinished_message(status: Seq<char>, tail: Seq<Seq<char>>) -> Seq<char> {
    "ffmpeg exited "@ + status + " without finishing the video"@ + last_words(tail)
}

/// The error for an ffmpeg that exited non-zero at the end of a render.
pub fn unfinished(status: &str, tail: &Vec<String>) -> (e: Error)
    ensures
        e matches Error::Encode(m) && m@ == unfinished_message(status@, tail@.map_values(
            |l: String| l@,
        )),
{
    let mut m = string_from("ffmpeg exited ");
    push_str(&mut m, status);
    push_str(&mut m, " without finishing the video");
    push_str(&mut m, complaint(tail).as_str());
    Error::Encode(m)
}

pub open spec fn aborted_message(
    exit_status: Option<Seq<char>>,
    program: Seq<char>,
    write_error: Seq<char>,
    tail: Seq<Seq<char>>,
) -> Seq<char> {
    match exit_status {
        Some(status) => "ffmpeg exited "@ + status + " while avz was still sending frames"@
            + last_words(tail),
        None => "cannot send a frame to `"@ + program + "`: "@ + write_error + last_words(tail),
    }
}

/// Explain a write that failed mid-render: by ffmpeg's exit if it exited
/// non-zero (`failed_status`), else by the write error itself.
pub fn aborted(
    failed_status: Option<&str>,
    program: &str,
    write_error: &str,
    tail: &Vec<String>,
) -> (e: Error)
    ensures
        e matches Error::Encode(m) && m@ == aborted_message(
            match failed_status {
                Some(s) => Some(s@),
                None => None,
            },
            program@,
            write_error@,
            tail@.map_values(|l: String| l@),
        ),
{
    let words = complaint(tail);
    match failed_status {
        Some(status) => {
            let mut m = string_from("ffmpeg exited ");
            push_str(&mut m, status);
            push_str(&mut m, " while avz was still sending frames");
            push_str(&mut m, words.as_str());
            Error::Encode(m)
        },
        None => {
            let mut m = string_from("cannot send a frame to `");
            push_str(&mut m, program);
            push_str(&mut m, "`: ");
            push_str(&mut m, write_error);
            push_str(&mut m, words.as_str());
            Error::Encode(m)
        },
    }
}

// ---------------------------------------------------------------------------
// Preflight
// ---------------------------------------------------------------------------

/// An ffmpeg binary that has been verified to exist and identify itself.
///
/// Holding the program means the encoder cannot drift onto a different binary
/// than the one preflight approved.
#[derive(Debug, Clone, PartialEq, Eq)]
pub struct Ffmpeg {
    program: String,
    version: String,
}

pub ghost struct FfmpegModel {
    pub program: Seq<char>,
    pub version: Seq<char>,
}

impl View for Ffmpeg {
    type V = FfmpegModel;

    closed spec fn view(&self) -> FfmpegModel {
        FfmpegModel { program: self.program@, version: self.version@ }
    }
}

impl Ffmpeg {
    /// The program preflight verified.
    pub fn program(&self) -> (p: &str)
        ensures
            p@ == self@.program,
    {
        self.program.as_str()
    }

    /// The version ffmpeg reported, e.g. `7.1.5` or `N-109212-g1a2b3c4`.
    pub fn version(&self) -> (v: &str)
        ensures
            v@ == self@.version,
    {
        self.version.as_str()
    }
}

/// Whether `s` begins with `p`.
pub open spec fn starts_with(s: Seq<char>, p: Seq<char>) -> bool {
    s.len() >= p.len() && s.subrange(0, p.len() as int) == p
}

/// The version in ffmpeg's `-version` banner: the first word after
/// `ffmpeg version ` on the first line. Anything else is not ffmpeg.
pub open spec fn version_in(stdout: Seq<char>) -> Option<Seq<char>> {
    let ls = lines(stdout);
    let p = "ffmpeg version "@;
    if ls.len() == 0 || !starts_with(ls[0], p) {
        None
    } else {
        let ws = words(ls[0].subrange(p.len() as int, ls[0].len() as int));
        if ws.len() == 0 {
            None
        } else {
            Some(ws[0])
        }
    }
}

/// Pull the version out of ffmpeg's `-version` banner.
pub fn parse_version(stdout: &str) -> (r: Option<String>)
    ensures
        match r {
            Some(v) => version_in(stdout@) == Some(v@),
            None => version_in(stdout@) is None,
        },
{
    let ls = lines_exec(&chars_of(stdout));
    let ghost views = ls@.map_values(|l: Vec<char>| l@);
    if ls.len() == 0 {
        return None;
    }
    let first = &ls[0];
    assert(views[0] == first@);
    let p = chars_of("ffmpeg version ");
    if first.len() < p.len() {
        return None;
    }
    let head = slice(first, 0, p.len());
    if !chars_eq(&head, &p) {
        return None;
    }
    let rest = slice(first, p.len(), first.len());
    let ws = words_exec(&rest);
    if ws.len() == 0 {
        return None;
    }
    assert(ws@.map_values(|w: Vec<char>| w@)[0] == ws@[0]@);
    Some(string_of(&ws[0]))
}

/// A capability flag of `ffmpeg -encoders`.
pub open spec fn flag_char(c: char) -> bool {
    c == 'V' || c == 'A' || c == 'S' || c == '.' || c == 'F' || c == 'X' || c == 'B' || c == 'D'
}

/// The encoder a line of `ffmpeg -encoders` lists: a six-character
/// capability field starting with the media type, then the name. The legend
/// wears the same field with `=` for a name, and lists nothing.
pub open spec fn encoder_of(line: Seq<char>) -> Option<Seq<char>> {
    let ws = words(line);
    if ws.len() < 2 {
        None
    } else {
        let f = ws[0];
        if f.len() == 6 && (f[0] == 'V' || f[0] == 'A' || f[0] == 'S') && (forall|i: int|
            0 <= i < 6 ==> #[trigger] flag_char(f[i])) && ws[1] != seq!['='] {
            Some(ws[1])
        } else {
            None
        }
    }
}

/// Whether one of the first `n` lines lists `name`.
pub open spec fn listed_in(ls: Seq<Seq<char>>, n: int, name: Seq<char>) -> bool {
    exists|i: int| 0 <= i < n && encoder_of(ls[i]) == Some(name)
}

/// Whether some line lists `name`.
pub open spec fn lists(ls: Seq<Seq<char>>, name: Seq<char>) -> bool {
    listed_in(ls, ls.len() as int, name)
}

/// Whether `name` is among `names`.
pub open spec fn named(names: Seq<String>, name: Seq<char>) -> bool {
    exists|i: int| 0 <= i < names.len() && names[i]@ == name
}

fn contains_name(names: &Vec<String>, name: &String) -> (r: bool)
    ensures
        r == named(names@, name@),
{
    let mut k: usize = 0;
    while k < names.len()
        invariant
            k <= names@.len(),
            forall|j: int| 0 <= j < k ==> names@[j]@ != name@,
        decreases names.len() - k,
    {
        if names[k] == *name {
            return true;
        }
        k = k + 1;
    }
    false
}

/// Whether the six characters of `f` are all capability flags.
fn all_flags(f: &Vec<char>) -> (r: bool)
    requires
        f@.len() == 6,
    ensures
        r == forall|i: int| 0 <= i < 6 ==> #[trigger] flag_char(f@[i]),
{
    let mut i: usize = 0;
    while i < 6
        invariant
            i <= 6,
            f@.len() == 6,
            forall|j: int| 0 <= j < i ==> #[trigger] flag_char(f@[j]),
        decreases 6 - i,
    {
        let c = f[i];
        if !(c == 'V' || c == 'A' || c == 'S' || c == '.' || c == 'F' || c == 'X' || c == 'B' || c
            == 'D') {
            assert(!flag_char(f@[i as int]));
            return false;
        }
        i = i + 1;
    }
    true
}

fn encoder_of_exec(line: &Vec<char>) -> (r: Option<Vec<char>>)
    ensures
        match r {
            Some(n) => encoder_of(line@) == Some(n@),
            None => encoder_of(line@) is None,
        },
{
    let ws = words_exec(line);
    let ghost views = ws@.map_values(|w: Vec<char>| w@);
    if ws.len() < 2 {
        return None;
    }
    let f = &ws[0];
    let n = &ws[1];
    assert(views[0] == f@ && views[1] == n@);
    if f.len() != 6 || !(f[0] == 'V' || f[0] == 'A' || f[0] == 'S') {
        return None;
    }
    if !all_flags(f) {
        return None;
    }
    if n.len() == 1 && n[0] == '=' {
        assert(n@ =~= seq!['=']);
        return None;
    }
    Some(slice(n, 0, n.len()))
}


/// Whether `a` sorts before `b`: `String`'s order, character by character,
/// a proper prefix first.
pub open spec fn text_lt(a: Seq<char>, b: Seq<char>) -> bool
    decreases a.len(),
{
    if a.len() == 0 {
        b.len() > 0
    } else if b.len() == 0 {
        false
    } else if a[0] != b[0] {
        a[0] < b[0]
    } else {
        text_lt(a.drop_first(), b.drop_first())
    }
}

/// Whether `names` is in strictly increasing order.
pub open spec fn ascending(names: Seq<String>) -> bool {
    forall|i: int, j: int| 0 <= i < j < names.len() ==> text_lt(#[trigger] names[i]@, #[trigger] names[j]@)
}

proof fn lemma_text_lt_irreflexive(a: Seq<char>)
    ensures
        !text_lt(a, a),
    decreases a.len(),
{
    if a.len() > 0 {
        lemma_text_lt_irreflexive(a.drop_first());
    }
}

proof fn lemma_text_lt_transitive(a: Seq<char>, b: Seq<char>, c: Seq<char>)
    requires
        text_lt(a, b),
        text_lt(b, c),
    ensures
        text_lt(a, c),
    decreases a.len(),
{
    if a.len() > 0 && b.len() > 0 && c.len() > 0 && a[0] == b[0] && b[0] == c[0] {
        lemma_text_lt_transitive(a.drop_first(), b.drop_first(), c.drop_first());
    }
}

proof fn lemma_text_lt_total(a: Seq<char>, b: Seq<char>)
    requires
        a != b,
    ensures
        text_lt(a, b) || text_lt(b, a),
    decreases a.len(),
{
    if a.len() > 0 && b.len() > 0 && a[0] == b[0] {
        if a.drop_first() == b.drop_first() {
            assert(a =~= seq![a[0]] + a.drop_first());
            assert(b =~= seq![b[0]] + b.drop_first());
        }
        lemma_text_lt_total(a.drop_first(), b.drop_first());
    } else if a.len() == 0 && b.len() == 0 {
        assert(a =~= b);
    }
}

/// `text_lt` on two names.
fn text_less(a: &String, b: &String) -> (r: bool)
    ensures
        r == text_lt(a@, b@),
{
    let x = chars_of(a.as_str());
    let y = chars_of(b.as_str());
    let mut k: usize = 0;
    assert(x@.subrange(0, x@.len() as int) =~= x@);
    assert(y@.subrange(0, y@.len() as int) =~= y@);
    while k < x.len() && k < y.len() && x[k] == y[k]
        invariant
            k <= x@.len(),
            k <= y@.len(),
            text_lt(x@, y@) == text_lt(
                x@.subrange(k as int, x@.len() as int),
                y@.subrange(k as int, y@.len() as int),
            ),
        decreases x.len() - k,
    {
        let ghost u = x@.subrange(k as int, x@.len() as int);
        let ghost w = y@.subrange(k as int, y@.len() as int);
        assert(u.drop_first() =~= x@.subrange(k + 1, x@.len() as int));
        assert(w.drop_first() =~= y@.subrange(k + 1, y@.len() as int));
        k = k + 1;
    }
    let ghost u = x@.subrange(k as int, x@.len() as int);
    let ghost w = y@.subrange(k as int, y@.len() as int);
    if k == x.len() {
        k < y.len()
    } else if k == y.len() {
        false
    } else {
        assert(u[0] == x@[k as int] && w[0] == y@[k as int]);
        x[k] < y[k]
    }
}

/// Put `name` into its place in an ascending list that lacks it.
fn insert_ascending(names: &mut Vec<String>, name: String)
    requires
        ascending(old(names)@),
        !named(old(names)@, name@),
    ensures
        ascending(final(names)@),
        forall|nm: Seq<char>| #[trigger] named(final(names)@, nm) <==> (named(old(names)@, nm) || nm == name@),
{
    let ghost before = names@;
    let mut k: usize = 0;
    while k < names.len() && text_less(&names[k], &name)
        invariant
            names@ == before,
            k <= names@.len(),
            forall|j: int| 0 <= j < k ==> text_lt(#[trigger] names@[j]@, name@),
        decreases names.len() - k,
    {
        k = k + 1;
    }
    proof {
        if k < before.len() {
            assert(before[k as int]@ != name@);
            lemma_text_lt_total(before[k as int]@, name@);
            assert forall|j: int| k <= j < before.len() implies text_lt(name@, #[trigger] before[j]@) by {
                if j > k {
                    assert(text_lt(before[k as int]@, before[j]@));
                    lemma_text_lt_transitive(name@, before[k as int]@, before[j]@);
                }
            }
        }
    }
    names.insert(k, name);
    let ghost after = names@;
    assert(after == before.insert(k as int, name));
    assert forall|i: int, j: int| 0 <= i < j < after.len() implies text_lt(#[trigger] after[i]@, #[trigger] after[j]@) by {
        if j < k {
            assert(after[i] == before[i] && after[j] == before[j]);
        } else if j == k {
            assert(after[i] == before[i]);
        } else if i < k {
            assert(after[i] == before[i] && after[j] == before[j - 1]);
            assert(text_lt(before[i]@, name@));
            assert(text_lt(name@, before[j - 1]@));
            lemma_text_lt_transitive(before[i]@, name@, before[j - 1]@);
        } else if i == k {
            assert(after[j] == before[j - 1]);
        } else {
            assert(after[i] == before[i - 1] && after[j] == before[j - 1]);
        }
    }
    assert forall|nm: Seq<char>| #[trigger] named(after, nm) <==> (named(before, nm) || nm == name@) by {
        if named(after, nm) {
            let q = choose|q: int| 0 <= q < after.len() && after[q]@ == nm;
            if q < k {
                assert(after[q] == before[q]);
            } else if q > k {
                assert(after[q] == before[q - 1]);
            }
        }
        if named(before, nm) {
            let q = choose|q: int| 0 <= q < before.len() && before[q]@ == nm;
            if q < k {
                assert(after[q] == before[q]);
            } else {
                assert(after[q + 1] == before[q]);
            }
        }
        if nm == name@ {
            assert(after[k as int]@ == nm);
        }
    }
}

/// An ascending list holds each name once.
proof fn lemma_ascending_distinct(names: Seq<String>)
    requires
        ascending(names),
    ensures
        forall|i: int, j: int| 0 <= i < j < names.len() ==> names[i]@ != names[j]@,
{
    assert forall|i: int, j: int| 0 <= i < j < names.len() implies names[i]@ != names[j]@ by {
        assert(text_lt(names[i]@, names[j]@));
        lemma_text_lt_irreflexive(names[i]@);
    }
}

/// Every encoder `ffmpeg -encoders` lists, each name once, in ascending
/// order. The names are ffmpeg's own (`libx264`), because they are what
/// `-c:v` takes.
pub fn parse_encoders(stdout: &str) -> (r: Vec<String>)
    ensures
        ascending(r@),
        forall|i: int, j: int| 0 <= i < j < r@.len() ==> r@[i]@ != r@[j]@,
        forall|name: Seq<char>| #[trigger] named(r@, name) <==> lists(lines(stdout@), name),
{
    let ls = lines_exec(&chars_of(stdout));
    let ghost views = ls@.map_values(|l: Vec<char>| l@);
    let mut out: Vec<String> = Vec::new();
    let mut i: usize = 0;
    while i < ls.len()
        invariant
            i <= ls@.len(),
            views == ls@.map_values(|l: Vec<char>| l@),
            views == lines(stdout@),
            ascending(out@),
            forall|name: Seq<char>| #[trigger] named(out@, name) <==> listed_in(views, i as int, name),
        decreases ls.len() - i,
    {
        assert(views[i as int] == ls@[i as int]@);
        let ghost before = out@;
        let found = encoder_of_exec(&ls[i]);
        match found {
            Some(n) => {
                let name = string_of(&n);
                if !contains_name(&out, &name) {
                    insert_ascending(&mut out, name);
                }
            },
            None => {},
        }
        assert forall|nm: Seq<char>| #[trigger] named(out@, nm) <==> listed_in(views, i + 1, nm) by {
            if listed_in(views, i + 1, nm) {
                let q = choose|q: int| 0 <= q < i + 1 && encoder_of(views[q]) == Some(nm);
                if q < i {
                    assert(listed_in(views, i as int, nm));
                    assert(named(before, nm));
                }
            }
            if named(before, nm) {
                assert(listed_in(views, i as int, nm));
                let k = choose|k: int| 0 <= k < i && encoder_of(views[k]) == Some(nm);
                assert(encoder_of(views[k]) == Some(nm));
            }
        }
        i = i + 1;
    }
    proof {
        lemma_ascending_distinct(out@);
    }
    out
}

/// How a probe run of ffmpeg went.
#[derive(Debug, Clone, PartialEq, Eq)]
pub enum ProbeRun {
    /// Nothing is at the program's path; the system's words for that.
    NotFound(String),
    /// The program could not be started, for the reason given.
    Unstartable(String),
    /// It ran; `status` is how the system describes its exit.
    Finished { success: bool, status: String, stdout: String, stderr: String },
}

/// `": LINE"` for the first line of `stderr` that is not blank, trimmed.
pub open spec fn first_complaint(ls: Seq<Seq<char>>) -> Seq<char>
    decreases ls.len(),
{
    if ls.len() == 0 {
        Seq::empty()
    } else if !is_blank(ls[0]) {
        ": "@ + trim(ls[0])
    } else {
        first_complaint(ls.drop_first())
    }
}

fn first_complaint_exec(stderr: &str) -> (s: String)
    ensures
        s@ == first_complaint(lines(stderr@)),
{
    let ls = lines_exec(&chars_of(stderr));
    let ghost views = ls@.map_values(|l: Vec<char>| l@);
    let mut i: usize = 0;
    assert(views.subrange(0, views.len() as int) =~= views);
    while i < ls.len()
        invariant
            i <= ls@.len(),
            views == ls@.map_values(|l: Vec<char>| l@),
            views == lines(stderr@),
            first_complaint(views) == first_complaint(views.subrange(i as int, views.len() as int)),
        decreases ls.len() - i,
    {
        let ghost rest = views.subrange(i as int, views.len() as int);
        assert(rest[0] == ls@[i as int]@);
        assert(rest.drop_first() =~= views.subrange(i + 1, views.len() as int));
        let t = trim_chars(&ls[i]);
        if t.len() > 0 {
            let mut s = string_from(": ");
            push_all(&mut s, &t);
            return s;
        }
        i = i + 1;
    }
    let s = String::new();
    assert(s@ =~= first_complaint(views.subrange(i as int, views.len() as int)));
    s
}

pub open spec fn not_found_message(program: Seq<char>) -> Seq<char> {
    "ffmpeg not found: `"@ + program
        + "` is not on PATH. avz encodes video with the system ffmpeg binary — "@ + INSTALL_HINT@
}

pub open spec fn not_ffmpeg_message(program: Seq<char>) -> Seq<char> {
    "`"@ + program + "` did not identify itself as ffmpeg; point avz at the real ffmpeg binary, or "@
        + INSTALL_HINT@
}

/// What `ffmpeg -version` says about the program: an approved ffmpeg, or why
/// not.
pub open spec fn preflight_outcome(program: Seq<char>, run: ProbeRun) -> Result<FfmpegModel, Seq<char>> {
    match run {
        ProbeRun::NotFound(_) => Err(not_found_message(program)),
        ProbeRun::Unstartable(why) => Err("cannot run `"@ + program + " -version`: "@ + why@),
        ProbeRun::Finished { success, status, stdout, stderr } => if !success {
            Err("`"@ + program + " -version` failed ("@ + status@ + ")"@ + first_complaint(
                lines(stderr@),
            ))
        } else {
            match version_in(stdout@) {
                Some(v) => Ok(FfmpegModel { program, version: v }),
                None => Err(not_ffmpeg_message(program)),
            }
        },
    }
}

/// Judge a run of `program -version`.
pub fn preflight_from(program: &str, run: ProbeRun) -> (r: Result<Ffmpeg, Error>)
    ensures
        match r {
            Ok(f) => preflight_outcome(program@, run) == Ok::<FfmpegModel, Seq<char>>(f@),
            Err(e) => preflight_outcome(program@, run) matches Err(m) && e matches Error::Encode(t)
                && t@ == m,
        },
{
    match run {
        ProbeRun::NotFound(_) => {
            let mut m = string_from("ffmpeg not found: `");
            push_str(&mut m, program);
            push_str(&mut m, "` is not on PATH. avz encodes video with the system ffmpeg binary — ");
            push_str(&mut m, INSTALL_HINT);
            Err(Error::Encode(m))
        },
        ProbeRun::Unstartable(why) => {
            let mut m = string_from("cannot run `");
            push_str(&mut m, program);
            push_str(&mut m, " -version`: ");
            push_str(&mut m, why.as_str());
            Err(Error::Encode(m))
        },
        ProbeRun::Finished { success, status, stdout, stderr } => {
            if !success {
                let mut m = string_from("`");
                push_str(&mut m, program);
                push_str(&mut m, " -version` failed (");
                push_str(&mut m, status.as_str());
                push_str(&mut m, ")");
                push_str(&mut m, first_complaint_exec(stderr.as_str()).as_str());
                return Err(Error::Encode(m));
            }
            match parse_version(stdout.as_str()) {
                Some(version) => Ok(Ffmpeg { program: string_from(program), version }),
                None => {
                    let mut m = string_from("`");
                    push_str(&mut m, program);
                    push_str(
                        &mut m,
                        "` did not identify itself as ffmpeg; point avz at the real ffmpeg binary, or ",
                    );
                    push_str(&mut m, INSTALL_HINT);
                    Err(Error::Encode(m))
                },
            }
        },
    }
}

pub open spec fn no_encoders_message(program: Seq<char>) -> Seq<char> {
    "`"@ + program + " -encoders` listed no encoders; point avz at the real ffmpeg binary, or "@
        + INSTALL_HINT@
}

/// Judge a run of `program -hide_banner -encoders`: every encoder it lists,
/// or why the listing cannot be believed.
pub fn encoders_from(ffmpeg: &Ffmpeg, run: ProbeRun) -> (r: Result<Vec<String>, Error>)
    ensures
        match r {
            Ok(v) => v@.len() > 0 && ascending(v@) && (run matches ProbeRun::Finished { success, stdout, .. }
                && success && forall|name: Seq<char>| #[trigger] named(v@, name) <==> lists(
                lines(stdout@),
                name,
            )),
            Err(e) => e matches Error::Encode(m) && (match run {
                ProbeRun::Finished { success, status, stdout, stderr } => if !success {
                    m@ == "`"@ + ffmpeg@.program + " -encoders` failed ("@ + status@ + ")"@
                        + first_complaint(lines(stderr@))
                } else {
                    m@ == no_encoders_message(ffmpeg@.program) && forall|name: Seq<char>| !lists(
                        lines(stdout@),
                        name,
                    )
                },
                ProbeRun::Unstartable(why) => m@ == "cannot run `"@ + ffmpeg@.program
                    + " -encoders`: "@ + why@,
                ProbeRun::NotFound(why) => m@ == "cannot run `"@ + ffmpeg@.program
                    + " -encoders`: "@ + why@,
            }),
        },
{
    let program = ffmpeg.program();
    match run {
        ProbeRun::NotFound(why) => {
            let mut m = string_from("cannot run `");
            push_str(&mut m, program);
            push_str(&mut m, " -encoders`: ");
            push_str(&mut m, why.as_str());
            Err(Error::Encode(m))
        },
        ProbeRun::Unstartable(why) => {
            let mut m = string_from("cannot run `");
            push_str(&mut m, program);
            push_str(&mut m, " -encoders`: ");
            push_str(&mut m, why.as_str());
            Err(Error::Encode(m))
        },
        ProbeRun::Finished { success, status, stdout, stderr } => {
            if !success {
                let mut m = string_from("`");
                push_str(&mut m, program);
                push_str(&mut m, " -encoders` failed (");
                push_str(&mut m, status.as_str());
                push_str(&mut m, ")");
                push_str(&mut m, first_complaint_exec(stderr.as_str()).as_str());
                return Err(Error::Encode(m));
            }
            let listed = parse_encoders(stdout.as_str());
            if listed.len() == 0 {
                let mut m = string_from("`");
                push_str(&mut m, program);
                push_str(
                    &mut m,
                    " -encoders` listed no encoders; point avz at the real ffmpeg binary, or ",
                );
                push_str(&mut m, INSTALL_HINT);
                assert forall|name: Seq<char>| !lists(lines(stdout@), name) by {
                    if lists(lines(stdout@), name) {
                        assert(named(listed@, name));
                    }
                }
                return Err(Error::Encode(m));
            }
            Ok(listed)
        },
    }
}


pub open spec fn missing_encoder_message(program: Seq<char>, encoder: Seq<char>) -> Seq<char> {
    "`"@ + program + "` cannot encode with `"@ + encoder
        + "`: it lists no such encoder; point avz at an ffmpeg built with it, or "@ + INSTALL_HINT@
}

/// Whether the approved ffmpeg can encode `codec`, judged from the encoders
/// it listed: a codec avz does not encode yet, or one this ffmpeg was not
/// built with, is refused before the song is analyzed.
pub fn require_encoder(ffmpeg: &Ffmpeg, listed: &Vec<String>, codec: Codec) -> (r: Result<(), Error>)
    ensures
        match r {
            Ok(_) => codec == Codec::X264 && named(listed@, "libx264"@),
            Err(e) => if codec != Codec::X264 {
                e matches Error::Encode(m) && m@ == deferred_codec_message(codec)
            } else {
                !named(listed@, "libx264"@) && (e matches Error::Encode(m) && m@
                    == missing_encoder_message(ffmpeg@.program, "libx264"@))
            },
        },
{
    let name = video_encoder(codec)?;
    let wanted = string_from(name);
    if contains_name(listed, &wanted) {
        Ok(())
    } else {
        let mut m = string_from("`");
        push_str(&mut m, ffmpeg.program());
        push_str(&mut m, "` cannot encode with `");
        push_str(&mut m, name);
        push_str(&mut m, "`: it lists no such encoder; point avz at an ffmpeg built with it, or ");
        push_str(&mut m, INSTALL_HINT);
        Err(Error::Encode(m))
    }
}


/// The tail after one more line of ffmpeg's stderr: a blank line changes
/// nothing; any other joins the end, and the oldest leaves once there are
/// more than [`STDERR_TAIL_LINES`].
pub open spec fn tail_after(tail: Seq<Seq<char>>, line: Seq<char>) -> Seq<Seq<char>> {
    if is_blank(line) {
        tail
    } else if tail.len() >= STDERR_TAIL_LINES {
        tail.push(line).drop_first()
    } else {
        tail.push(line)
    }
}

/// Keep `line` among the last lines ffmpeg said, the ones a failure quotes.
pub fn remember_line(tail: &mut Vec<String>, line: String)
    requires
        old(tail)@.len() <= STDERR_TAIL_LINES,
    ensures
        final(tail)@.len() <= STDERR_TAIL_LINES,
        final(tail)@.map_values(|l: String| l@) == tail_after(
            old(tail)@.map_values(|l: String| l@),
            line@,
        ),
{
    let ghost before = tail@.map_values(|l: String| l@);
    if trim_chars(&chars_of(line.as_str())).len() == 0 {
        return;
    }
    if tail.len() >= STDERR_TAIL_LINES {
        tail.remove(0);
    }
    tail.push(line);
    assert(tail@.map_values(|l: String| l@) =~= tail_after(before, line@));
}

/// ffmpeg could not be started to encode.
pub fn unstartable(program: &str, why: &str) -> (e: Error)
    ensures
        e matches Error::Encode(m) && m@ == "cannot run `"@ + program@ + "`: "@ + why@,
{
    let mut m = string_from("cannot run `");
    push_str(&mut m, program);
    push_str(&mut m, "`: ");
    push_str(&mut m, why);
    Error::Encode(m)
}

/// A frame arrived after ffmpeg's input was closed.
pub fn input_closed() -> (e: Error)
    ensures
        e matches Error::Encode(m) && m@ == "cannot write a frame: ffmpeg's input is already closed"@,
{
    Error::Encode(string_from("cannot write a frame: ffmpeg's input is already closed"))
}

/// ffmpeg's exit could not be waited for.
pub fn unwaitable(program: &str, why: &str) -> (e: Error)
    ensures
        e matches Error::Encode(m) && m@ == "cannot wait for `"@ + program@ + "`: "@ + why@,
{
    let mut m = string_from("cannot wait for `");
    push_str(&mut m, program);
    push_str(&mut m, "`: ");
    push_str(&mut m, why);
    Error::Encode(m)
}

/// What becomes of the part file once ffmpeg has exited.
#[derive(Debug)]
pub enum Ending {
    /// ffmpeg finished the video: rename the part file over the output.
    Place,
    /// ffmpeg did not: discard the part file and fail with this error.
    Discard(Error),
}

/// The part file reaches the output path only when ffmpeg exited cleanly;
/// otherwise the render fails with ffmpeg's status and last words.
pub fn ending(success: bool, status: &str, tail: &Vec<String>) -> (r: Ending)
    ensures
        r is Place <==> success,
        r matches Ending::Discard(e) ==> (e matches Error::Encode(m) && m@ == unfinished_message(
            status@,
            tail@.map_values(|l: String| l@),
        )),
{
    if success {
        Ending::Place
    } else {
        Ending::Discard(unfinished(status, tail))
    }
}

/// The finished part file could not be renamed over the output.
pub fn unplaced(part: &str, output: &str, why: &str) -> (e: Error)
    ensures
        e matches Error::Encode(m) && m@ == "cannot move `"@ + part@ + "` into place at `"@ + output@
            + "`: "@ + why@,
{
    let mut m = string_from("cannot move `");
    push_str(&mut m, part);
    push_str(&mut m, "` into place at `");
    push_str(&mut m, output);
    push_str(&mut m, "`: ");
    push_str(&mut m, why);
    Error::Encode(m)
}

} // verus!
