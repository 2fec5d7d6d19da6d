//! `avz render song.mp3`: the decisions around a render that are not the
//! render itself: where the video goes, whether that would overwrite the
//! song, what the flags say, and the line a finished render prints.

use vstd::prelude::*;
use crate::config::layer::{
    BackgroundLayer, ConfigLayer, EffectsLayer, LayerModel, OutputLayer, TextLayer, VisualLayer,
    empty_model,
};
use crate::config::resolve::Sources;
use crate::error::Error;
use crate::config::value::{Codec, Palette, Resolution, Seed, resolution_text};
use crate::pipeline::{RenderSummary, adapter_name, playing_time, seconds_2};
use crate::text::{
    chars_of, decimal, find, push_all, push_char, push_decimal, push_str, slice, split, split_exec,
    string_from, string_of,
};

verus! {

/// The extension every render produces.
pub const OUTPUT_EXTENSION: &'static str = "mp4";

/// The path with its trailing slashes dropped.
pub open spec fn without_trailing_slashes(s: Seq<char>) -> Seq<char>
    decreases s.len(),
{
    if s.len() > 1 && s.last() == '/' {
        without_trailing_slashes(s.drop_last())
    } else {
        s
    }
}

/// The index just past the last `/`, or 0.
pub open spec fn name_start(s: Seq<char>) -> int
    decreases s.len(),
{
    if s.len() == 0 {
        0
    } else if s.last() == '/' {
        s.len() as int
    } else {
        name_start(s.drop_last())
    }
}

/// The index of the last `.` in `s`, or `-1`.
pub open spec fn last_dot(s: Seq<char>) -> int
    decreases s.len(),
{
    if s.len() == 0 {
        -1
    } else if s.last() == '.' {
        s.len() - 1
    } else {
        last_dot(s.drop_last())
    }
}

/// `<song-stem>.mp4` next to the input: the file name's extension, the part
/// after its last `.` unless that `.` starts the name, replaced by `mp4`. A
/// path with no file name (empty, `.`, `..`) is left as it is.
pub open spec fn output_beside(input: Seq<char>) -> Seq<char> {
    let t = without_trailing_slashes(input);
    let at = name_start(t);
    let name = t.subrange(at, t.len() as int);
    if name.len() == 0 || name == seq!['.'] || name == seq!['.', '.'] {
        input
    } else {
        let dot = last_dot(name);
        let stem = if dot > 0 {
            name.subrange(0, dot)
        } else {
            name
        };
        t.subrange(0, at) + stem + ".mp4"@
    }
}

fn trailing_trimmed(v: &Vec<char>) -> (r: usize)
    ensures
        r <= v@.len(),
        v@.subrange(0, r as int) == without_trailing_slashes(v@),
{
    let mut n = v.len();
    assert(v@.subrange(0, n as int) =~= v@);
    while n > 1 && v[n - 1] == '/'
        invariant
            n <= v@.len(),
            without_trailing_slashes(v@) == without_trailing_slashes(v@.subrange(0, n as int)),
        decreases n,
    {
        assert(v@.subrange(0, n as int).drop_last() =~= v@.subrange(0, n - 1));
        n = n - 1;
    }
    n
}

fn name_start_exec(v: &Vec<char>, n: usize) -> (r: usize)
    requires
        n <= v@.len(),
    ensures
        r == name_start(v@.subrange(0, n as int)),
        r <= n,
{
    let mut k = n;
    while k > 0 && v[k - 1] != '/'
        invariant
            k <= n <= v@.len(),
            name_start(v@.subrange(0, n as int)) == name_start(v@.subrange(0, k as int)),
        decreases k,
    {
        assert(v@.subrange(0, k as int).drop_last() =~= v@.subrange(0, k - 1));
        k = k - 1;
    }
    k
}

fn last_dot_exec(v: &Vec<char>) -> (r: Option<usize>)
    ensures
        match r {
            Some(i) => last_dot(v@) == i && i < v@.len(),
            None => last_dot(v@) == -1,
        },
{
    let mut k = v.len();
    assert(v@.subrange(0, k as int) =~= v@);
    while k > 0
        invariant
            k <= v@.len(),
            last_dot(v@) == last_dot(v@.subrange(0, k as int)),
        decreases k,
    {
        assert(v@.subrange(0, k as int).drop_last() =~= v@.subrange(0, k - 1));
        if v[k - 1] == '.' {
            return Some(k - 1);
        }
        k = k - 1;
    }
    None
}

/// `<song-stem>.mp4` next to the input.
pub fn default_output(input: &str) -> (p: String)
    ensures
        p@ == output_beside(input@),
{
    let v = chars_of(input);
    let n = trailing_trimmed(&v);
    let at = name_start_exec(&v, n);
    let ghost t = v@.subrange(0, n as int);
    let name = slice(&v, at, n);
    assert(name@ =~= t.subrange(at as int, t.len() as int));
    let bare = name.len() == 0 || (name.len() == 1 && name[0] == '.') || (name.len() == 2
        && name[0] == '.' && name[1] == '.');
    if name.len() == 1 && name[0] == '.' {
        assert(name@ =~= seq!['.']);
    }
    if name.len() == 2 && name[0] == '.' && name[1] == '.' {
        assert(name@ =~= seq!['.', '.']);
    }
    if bare {
        return string_from(input);
    }
    let stem = match last_dot_exec(&name) {
        Some(d) => {
            if d > 0 {
                slice(&name, 0, d)
            } else {
                slice(&name, 0, name.len())
            }
        },
        None => slice(&name, 0, name.len()),
    };
    assert(name@.subrange(0, name@.len() as int) =~= name@);
    let mut p = string_of(&slice(&v, 0, at));
    push_all(&mut p, &stem);
    push_str(&mut p, ".mp4");
    assert(t.subrange(0, at as int) =~= v@.subrange(0, at as int));
    p
}

/// The pieces of a path that name something, in order: empty pieces (from
/// repeated or trailing separators) and `.` pieces are left out.
pub open spec fn named_pieces(pieces: Seq<Seq<char>>) -> Seq<Seq<char>>
    decreases pieces.len(),
{
    if pieces.len() == 0 {
        Seq::empty()
    } else {
        let init = named_pieces(pieces.drop_last());
        let p = pieces.last();
        if p.len() == 0 || p == seq!['.'] {
            init
        } else {
            init.push(p)
        }
    }
}

/// A path that starts at the root.
pub open spec fn has_root(s: Seq<char>) -> bool {
    s.len() > 0 && s[0] == '/'
}

/// A relative path whose first piece is `.`: that one `.` is a component.
pub open spec fn leads_with_current(s: Seq<char>) -> bool {
    s.len() > 0 && s[0] == '.' && (s.len() == 1 || s[1] == '/')
}

/// The components of a Unix path, as `Path::components` reads them, each
/// written as its text: the root as `/`, a leading current directory as `.`,
/// a parent as `..`, any other name as itself. Repeated and trailing
/// separators and every other `.` are normalized away. A name holds no `/`
/// and is never `.`, so two paths have equal components exactly when these
/// texts are equal.
pub open spec fn path_components(s: Seq<char>) -> Seq<Seq<char>> {
    (if has_root(s) {
        seq![seq!['/']]
    } else {
        Seq::empty()
    }) + (if leads_with_current(s) {
        seq![seq!['.']]
    } else {
        Seq::empty()
    }) + named_pieces(split(s, '/'))
}

/// The components of `path`, each as its text.
fn components_of(path: &str) -> (r: Vec<Vec<char>>)
    ensures
        r@.map_values(|p: Vec<char>| p@) == path_components(path@),
{
    let v = chars_of(path);
    let pieces = split_exec(&v, '/');
    let ghost views = pieces@.map_values(|p: Vec<char>| p@);
    let mut r: Vec<Vec<char>> = Vec::new();
    if v.len() > 0 && v[0] == '/' {
        let root = vec!['/'];
        assert(root@ =~= seq!['/']);
        r.push(root);
    }
    if v.len() > 0 && v[0] == '.' && (v.len() == 1 || v[1] == '/') {
        let current = vec!['.'];
        assert(current@ =~= seq!['.']);
        r.push(current);
    }
    let ghost head = r@.map_values(|p: Vec<char>| p@);
    assert(head =~= (if has_root(path@) {
        seq![seq!['/']]
    } else {
        Seq::empty()
    }) + (if leads_with_current(path@) {
        seq![seq!['.']]
    } else {
        Seq::empty()
    }));
    assert(views.subrange(0, 0) =~= Seq::<Seq<char>>::empty());
    assert(head + Seq::<Seq<char>>::empty() =~= head);
    let mut i: usize = 0;
    while i < pieces.len()
        invariant
            i <= pieces@.len(),
            views == pieces@.map_values(|p: Vec<char>| p@),
            r@.map_values(|p: Vec<char>| p@) == head + named_pieces(views.subrange(0, i as int)),
        decreases pieces.len() - i,
    {
        let piece = &pieces[i];
        let n = piece.len();
        let dot = n == 1 && piece[0] == '.';
        assert(views.subrange(0, i + 1).drop_last() =~= views.subrange(0, i as int));
        assert(views[i as int] == piece@);
        if dot {
            assert(piece@ =~= seq!['.']);
        }
        if n == 1 && !dot {
            assert(piece@ != seq!['.']) by {
                if piece@ == seq!['.'] {
                    assert(piece@[0] == '.');
                }
            }
        }
        if n > 0 && !dot {
            let copy = slice(piece, 0, n);
            assert(copy@ =~= piece@);
            let ghost before = r@.map_values(|p: Vec<char>| p@);
            r.push(copy);
            assert(r@.map_values(|p: Vec<char>| p@) =~= before.push(copy@));
            assert(head + named_pieces(views.subrange(0, i + 1)) =~= (head + named_pieces(
                views.subrange(0, i as int),
            )).push(piece@));
        }
        i = i + 1;
    }
    assert(views.subrange(0, pieces@.len() as int) =~= views);
    r
}

/// Whether two lists of components are the same, component by component.
fn same_components(a: &Vec<Vec<char>>, b: &Vec<Vec<char>>) -> (r: bool)
    ensures
        r == (a@.map_values(|p: Vec<char>| p@) == b@.map_values(|p: Vec<char>| p@)),
{
    let ghost va = a@.map_values(|p: Vec<char>| p@);
    let ghost vb = b@.map_values(|p: Vec<char>| p@);
    if a.len() != b.len() {
        assert(va.len() != vb.len());
        return false;
    }
    let mut i: usize = 0;
    while i < a.len()
        invariant
            i <= a@.len(),
            a@.len() == b@.len(),
            va == a@.map_values(|p: Vec<char>| p@),
            vb == b@.map_values(|p: Vec<char>| p@),
            forall|j: int| 0 <= j < i ==> va[j] == vb[j],
        decreases a.len() - i,
    {
        if !crate::text::chars_eq(&a[i], &b[i]) {
            assert(va[i as int] != vb[i as int]);
            return false;
        }
        i = i + 1;
    }
    assert(va =~= vb);
    true
}

/// Whether the paths `a` and `b` are equal as `Path`s are: component by
/// component.
pub fn same_path(a: &str, b: &str) -> (r: bool)
    ensures
        r == (path_components(a@) == path_components(b@)),
{
    same_components(&components_of(a), &components_of(b))
}

/// Whether `output` names the very file avz is about to read: the two paths
/// compared component by component, as resolved against the filesystem when
/// both could be, else as typed.
pub fn overwrites_input(
    input: &str,
    output: &str,
    resolved_input: Option<String>,
    resolved_output: Option<String>,
) -> (r: bool)
    ensures
        r == match (resolved_input, resolved_output) {
            (Some(a), Some(b)) => path_components(a@) == path_components(b@),
            _ => path_components(input@) == path_components(output@),
        },
{
    match (resolved_input, resolved_output) {
        (Some(a), Some(b)) => same_path(a.as_str(), b.as_str()),
        _ => same_path(input, output),
    }
}

pub open spec fn summary_text(summary: RenderSummary) -> Seq<char> {
    "wrote "@ + summary.output@ + " — "@ + decimal(summary.frames as nat) + " frames, "@
        + seconds_2(playing_time(summary.frames as nat, summary.fps as nat)) + "s, "@
        + adapter_name(summary.adapter) + " rendering"@
}

/// The one line a finished render prints.
pub fn describe(summary: &RenderSummary) -> (s: String)
    requires
        summary.fps > 0,
        playing_time(summary.frames as nat, summary.fps as nat) <= 0xffff_ffff_ffff_ffff,
    ensures
        s@ == summary_text(*summary),
{
    let mut s = string_from("wrote ");
    push_str(&mut s, summary.output.as_str());
    push_str(&mut s, " — ");
    push_decimal(&mut s, summary.frames);
    push_str(&mut s, " frames, ");
    let d = summary.duration();
    let ns = d.as_nanos() as u128;
    let h = crate::pipeline::round_even_exec(ns, 10_000_000);
    assert(h <= ns / 10_000_000 + 1);
    crate::pipeline::push_hundredths(&mut s, h as u64);
    push_str(&mut s, "s, ");
    push_str(&mut s, summary.adapter.as_str());
    push_str(&mut s, " rendering");
    s
}

/// Whether the frame size about to be rendered is the one `--sample` picked
/// rather than one the user asked for. No flag reaches `output.resolution`,
/// so only the config file and `--set` can outrank the sample default.
pub fn sample_resolution_is_a_default(sampling: bool, sources: &Sources) -> (r: bool)
    ensures
        r == (sampling && sources.file.output.resolution is None
            && sources.set.output.resolution is None),
{
    sampling && sources.file.output.resolution.is_none() && sources.set.output.resolution.is_none()
}

pub open spec fn sample_warning_text(r: Resolution) -> Seq<char> {
    "`--sample` renders at "@ + resolution_text(r)
        + " rather than full size, so an excerpt comes back in seconds — pass `--set output.resolution=1080p`, or set `output.resolution` in a config file, to preview at the size you will ship"@
}

/// What to say when `--sample` quietly reduces the frame size.
pub fn sample_resolution_warning(resolution: Resolution) -> (s: String)
    ensures
        s@ == sample_warning_text(resolution),
{
    let mut s = string_from("`--sample` renders at ");
    push_str(&mut s, resolution.to_string().as_str());
    push_str(
        &mut s,
        " rather than full size, so an excerpt comes back in seconds — pass `--set output.resolution=1080p`, or set `output.resolution` in a config file, to preview at the size you will ship",
    );
    s
}

/// The settings named by individual render flags.
#[derive(Debug, Clone, PartialEq, Eq)]
pub struct RenderFlags {
    /// `--codec`.
    pub codec: Option<Codec>,
    /// `--quality`, already checked against the CRF scale.
    pub quality: Option<u8>,
    /// `--preset`.
    pub preset: Option<String>,
    /// `--palette`.
    pub palette: Option<Palette>,
    /// `--seed`.
    pub seed: Option<Seed>,
    /// `--bg`.
    pub bg: Option<String>,
    /// `--no-text`.
    pub no_text: bool,
    /// `--title`.
    pub title: Option<String>,
    /// `--artist`.
    pub artist: Option<String>,
}

/// The layer the flags make, the top of the precedence chain. A flag the user
/// did not pass stays silent, so it cannot displace the config file; and
/// `--no-text` only ever turns the card off.
pub fn cli_layer(flags: RenderFlags) -> (l: ConfigLayer)
    ensures
        l@.output == (OutputLayer {
            codec: flags.codec,
            quality: match flags.quality {
                Some(q) => Some(q as i64),
                None => None,
            },
            ..empty_model().output
        }),
        l@.visual.preset == crate::config::layer::text_opt(flags.preset),
        l@.visual.palette == crate::config::layer::palette_opt(flags.palette),
        l@.visual.seed == flags.seed,
        l@.visual.intensity is None && l@.visual.smoothing is None && l@.visual.params is None,
        l@.background == (crate::config::layer::BackgroundLayerModel {
            image: crate::config::layer::text_opt(flags.bg),
            ..empty_model().background
        }),
        l@.text == (crate::config::layer::TextLayerModel {
            enabled: if flags.no_text {
                Some(false)
            } else {
                None
            },
            title: crate::config::layer::text_opt(flags.title),
            artist: crate::config::layer::text_opt(flags.artist),
            ..empty_model().text
        }),
        l@.effects == empty_model().effects,
{
    let RenderFlags { codec, quality, preset, palette, seed, bg, no_text, title, artist } = flags;
    let mut layer = ConfigLayer::empty();
    layer.output.codec = codec;
    layer.output.quality = match quality {
        Some(q) => Some(q as i64),
        None => None,
    };
    layer.visual.preset = preset;
    layer.visual.palette = palette;
    layer.visual.seed = seed;
    layer.background.image = bg;
    layer.text.enabled = if no_text {
        Some(false)
    } else {
        None
    };
    layer.text.title = title;
    layer.text.artist = artist;
    layer
}


/// Why a render aimed back at its own song is refused: the encoder renames
/// its part file over the output path, and that would destroy the song.
pub fn overwrite_refused(output: &str) -> (e: Error)
    ensures
        e matches Error::Config(m) && m@ == "`"@ + output@
            + "` is the song avz is reading; pass `--out` a different path"@,
{
    let mut m = string_from("`");
    push_str(&mut m, output);
    push_str(&mut m, "` is the song avz is reading; pass `--out` a different path");
    Error::Config(m)
}

} // verus!
