//! `--set key.path=value` overrides.
//!
//! An assignment is split into its key path and its raw value here; the value
//! then goes through the same schema as a config file, so `--set` inherits
//! unknown-key rejection, "did you mean" hints, and type checking.
//!
//! Preset parameters get a shorthand. `visual.params.bass_drive=2.0` is the path
//! the config file uses, but `bass_drive=2.0` and `pulse.bass_drive=2.0` mean the
//! same thing, because a key that names no config section can only be a parameter
//! of the preset being rendered.

use vstd::prelude::*;
use crate::config::suggest::{closest, closest_of, suggestion, suggestion_for};
use crate::error::Error;
use crate::registry::{names, preset_names, preset_table};
use crate::text::{
    chars_eq_str, chars_of, find, find_exec, join, leading_ws, lemma_find, lemma_trim_idempotent,
    lemma_trim_led, lemma_trim_middle, lemma_trim_of_trim_end, lemma_trim_unpadded, push_all,
    push_str, slice, split, split_exec, string_from, string_of, trim, trim_chars, trim_end,
};

verus! {

/// The tables a configuration declares. A first segment outside this set is a
/// preset parameter, not a mistyped section.
pub open spec fn sections() -> Seq<Seq<char>> {
    seq!["output"@, "visual"@, "background"@, "text"@, "effects"@]
}

fn section_names() -> (v: Vec<&'static str>)
    ensures
        v@.map_values(|s: &str| s@) == sections(),
{
    let v = vec!["output", "visual", "background", "text", "effects"];
    assert(v@.map_values(|s: &str| s@) =~= sections());
    v
}

/// `--set ASSIGNMENT` is malformed for `reason`.
pub open spec fn set_invalid(assignment: Seq<char>, reason: Seq<char>) -> Seq<char> {
    "invalid `--set "@ + assignment + "`: "@ + reason
        + ", expected `key.path=value` (e.g. `visual.intensity=1.4`)"@
}

/// `"\nhint: did you mean `NAME`?"`, when there is a name to suggest.
pub open spec fn hint(near: Option<Seq<char>>) -> Seq<char> {
    match near {
        Some(n) => "\nhint: did you mean `"@ + n + "`?"@,
        None => Seq::empty(),
    }
}

pub open spec fn unknown_head_message(assignment: Seq<char>, head: Seq<char>) -> Seq<char> {
    "invalid `--set "@ + assignment + "`: `"@ + head + "` is neither a config section ("@ + join(
        sections(),
        ", "@,
    ) + ") nor a preset ("@ + join(preset_names(), ", "@)
        + "); a bare `--set name=value` sets a parameter of the preset being rendered"@ + hint(
        closest_of(head, sections() + preset_names()),
    )
}

/// A section path left as it is, or a preset-parameter shorthand rewritten
/// into the `visual.params.<name>` path the schema knows.
pub open spec fn expanded(assignment: Seq<char>, segments: Seq<Seq<char>>) -> Result<
    Seq<Seq<char>>,
    Seq<char>,
> {
    let head = segments[0];
    if sections().contains(head) {
        Ok(segments)
    } else if segments.len() == 1 {
        Ok(seq!["visual"@, "params"@, head])
    } else if segments.len() == 2 && preset_names().contains(head) {
        Ok(seq!["visual"@, "params"@, segments[1]])
    } else {
        Err(unknown_head_message(assignment, head))
    }
}

/// Whether `name` is one of `names`.
fn listed(names: &Vec<&'static str>, name: &str) -> (r: bool)
    ensures
        r == names@.map_values(|s: &str| s@).contains(name@),
{
    let ghost views = names@.map_values(|s: &str| s@);
    let n = chars_of(name);
    let mut i: usize = 0;
    while i < names.len()
        invariant
            i <= names@.len(),
            n@ == name@,
            views == names@.map_values(|s: &str| s@),
            forall|j: int| 0 <= j < i ==> views[j] != name@,
        decreases names.len() - i,
    {
        if chars_eq_str(&n, names[i]) {
            assert(views[i as int] == name@);
            return true;
        }
        i = i + 1;
    }
    false
}

/// `pieces` joined with `", "`.
fn join_names(pieces: &Vec<&'static str>) -> (s: String)
    requires
        pieces@.len() > 0,
    ensures
        s@ == join(pieces@.map_values(|p: &str| p@), ", "@),
{
    let ghost views = pieces@.map_values(|p: &str| p@);
    let mut s = string_from(pieces[0]);
    assert(views.subrange(0, 1) =~= seq![views[0]]);
    let mut i: usize = 1;
    while i < pieces.len()
        invariant
            1 <= i <= pieces@.len(),
            views == pieces@.map_values(|p: &str| p@),
            s@ == join(views.subrange(0, i as int), ", "@),
        decreases pieces.len() - i,
    {
        proof {
            crate::config::value::lemma_join_step(views, ", "@, i as int);
        }
        push_str(&mut s, ", ");
        push_str(&mut s, pieces[i]);
        i = i + 1;
    }
    assert(views.subrange(0, pieces@.len() as int) =~= views);
    s
}

/// Rewrite a preset-parameter shorthand into the `visual.params.<name>` path
/// the config schema knows, and leave every other path alone.
pub fn expand_shorthand(assignment: &str, segments: Vec<String>) -> (r: Result<Vec<String>, Error>)
    requires
        segments@.len() > 0,
    ensures
        match r {
            Ok(p) => expanded(assignment@, segments@.map_values(|s: String| s@)) == Ok::<
                Seq<Seq<char>>,
                Seq<char>,
            >(p@.map_values(|s: String| s@)),
            Err(e) => expanded(assignment@, segments@.map_values(|s: String| s@)) matches Err(m)
                && e matches Error::Config(t) && t@ == m,
        },
{
    let ghost views = segments@.map_values(|s: String| s@);
    assert(views[0] == segments@[0]@);
    let head = segments[0].clone();
    let known = section_names();
    if listed(&known, head.as_str()) {
        return Ok(segments);
    }
    let presets = names();
    let parameter: Option<String> = if segments.len() == 1 {
        Some(head.clone())
    } else if segments.len() == 2 && listed(&presets, head.as_str()) {
        assert(views[1] == segments@[1]@);
        Some(segments[1].clone())
    } else {
        None
    };
    if let Some(p) = parameter {
        let out = vec![string_from("visual"), string_from("params"), p];
        assert(out@.map_values(|s: String| s@) =~= seq!["visual"@, "params"@, out@[2]@]);
        return Ok(out);
    }
    let mut m = string_from("invalid `--set ");
    push_str(&mut m, assignment);
    push_str(&mut m, "`: `");
    push_str(&mut m, head.as_str());
    push_str(&mut m, "` is neither a config section (");
    push_str(&mut m, join_names(&known).as_str());
    push_str(&mut m, ") nor a preset (");
    push_str(&mut m, join_names(&presets).as_str());
    push_str(&mut m, "); a bare `--set name=value` sets a parameter of the preset being rendered");
    let mut candidates: Vec<String> = Vec::new();
    let mut i: usize = 0;
    let ghost all = sections() + preset_names();
    while i < known.len()
        invariant
            i <= known@.len(),
            known@.map_values(|s: &str| s@) == sections(),
            all == sections() + preset_names(),
            candidates@.map_values(|s: String| s@) == all.subrange(0, i as int),
        decreases known.len() - i,
    {
        let ghost before = candidates@;
        let c = string_from(known[i]);
        candidates.push(c);
        assert(candidates@.map_values(|s: String| s@) =~= before.map_values(|s: String| s@).push(
            c@,
        ));
        assert(all.subrange(0, i + 1) =~= all.subrange(0, i as int).push(all[i as int]));
        i = i + 1;
    }
    let mut j: usize = 0;
    while j < presets.len()
        invariant
            j <= presets@.len(),
            known@.len() == sections().len(),
            presets@.map_values(|s: &str| s@) == preset_names(),
            all == sections() + preset_names(),
            candidates@.map_values(|s: String| s@) == all.subrange(0, 5 + j as int),
        decreases presets.len() - j,
    {
        let ghost before = candidates@;
        let c = string_from(presets[j]);
        candidates.push(c);
        assert(candidates@.map_values(|s: String| s@) =~= before.map_values(|s: String| s@).push(
            c@,
        ));
        assert(all[5 + j as int] == preset_names()[j as int]);
        assert(all.subrange(0, 5 + j as int + 1) =~= all.subrange(0, 5 + j as int).push(all[5 + j as int]));
        j = j + 1;
    }
    assert(all.subrange(0, 5 + presets@.len() as int) =~= all);
    match closest(head.as_str(), &candidates) {
        Some(near) => {
            push_str(&mut m, "\nhint: did you mean `");
            push_str(&mut m, near.as_str());
            push_str(&mut m, "`?");
        },
        None => {
            assert(m@ =~= m@ + hint(None));
        },
    }
    Err(Error::Config(m))
}

/// The key path and raw value of an assignment, or why it is malformed.
pub open spec fn parse_assignment(assignment: Seq<char>) -> Result<(Seq<Seq<char>>, Seq<char>), Seq<char>> {
    let at = find(assignment, '=');
    if at < 0 {
        Err(set_invalid(assignment, "no `=` found"@))
    } else {
        let segments = split(trim(assignment.subrange(0, at)), '.').map_values(
            |s: Seq<char>| trim(s),
        );
        if exists|i: int| 0 <= i < segments.len() && #[trigger] segments[i].len() == 0 {
            Err(set_invalid(assignment, "the key path has an empty segment"@))
        } else {
            match expanded(assignment, segments) {
                Ok(path) => Ok((path, trim(assignment.subrange(at + 1, assignment.len() as int)))),
                Err(m) => Err(m),
            }
        }
    }
}

/// An assignment's key path, with any shorthand expanded, and its raw value.
#[derive(Debug, Clone, PartialEq, Eq)]
pub struct Assignment {
    /// The table path, such as `visual`, `params`, `bass_drive`.
    pub path: Vec<String>,
    /// The right-hand side, trimmed, as the user wrote it.
    pub value: String,
}

fn invalid(assignment: &str, reason: &str) -> (e: Error)
    ensures
        e matches Error::Config(t) && t@ == set_invalid(assignment@, reason@),
{
    let mut m = string_from("invalid `--set ");
    push_str(&mut m, assignment);
    push_str(&mut m, "`: ");
    push_str(&mut m, reason);
    push_str(&mut m, ", expected `key.path=value` (e.g. `visual.intensity=1.4`)");
    Error::Config(m)
}

/// Every piece of a split is there: there is always at least one.
pub proof fn lemma_split_nonempty(s: Seq<char>, c: char)
    ensures
        split(s, c).len() >= 1,
    decreases s.len(),
{
    if s.len() > 0 {
        lemma_split_nonempty(s.drop_last(), c);
    }
}

/// Split one `key.path=value` assignment into its path and its value.
pub fn split_assignment(assignment: &str) -> (r: Result<Assignment, Error>)
    ensures
        match r {
            Ok(a) => parse_assignment(assignment@) == Ok::<(Seq<Seq<char>>, Seq<char>), Seq<char>>(
                (a.path@.map_values(|s: String| s@), a.value@),
            ),
            Err(e) => parse_assignment(assignment@) matches Err(m) && e matches Error::Config(t)
                && t@ == m,
        },
{
    let text = chars_of(assignment);
    let at = match find_exec(&text, '=') {
        Some(at) => at,
        None => return Err(invalid(assignment, "no `=` found")),
    };
    proof {
        lemma_find(text@, '=');
    }
    let path = trim_chars(&slice(&text, 0, at));
    assert(at < text.len());
    let raw = trim_chars(&slice(&text, at + 1, text.len()));
    let pieces = split_exec(&path, '.');
    let ghost piece_views = pieces@.map_values(|p: Vec<char>| p@);
    let ghost segs = split(trim(assignment@.subrange(0, at as int)), '.').map_values(
        |s: Seq<char>| trim(s),
    );
    proof {
        lemma_split_nonempty(path@, '.');
    }
    let mut segments: Vec<String> = Vec::new();
    let mut i: usize = 0;
    while i < pieces.len()
        invariant
            i <= pieces@.len(),
            piece_views == pieces@.map_values(|p: Vec<char>| p@),
            piece_views == split(path@, '.'),
            segs == piece_views.map_values(|s: Seq<char>| trim(s)),
            segs == split(trim(assignment@.subrange(0, at as int)), '.').map_values(
                |s: Seq<char>| trim(s),
            ),
            find(assignment@, '=') == at,
            segments@.map_values(|s: String| s@) == segs.subrange(0, i as int),
            forall|j: int| 0 <= j < i ==> #[trigger] segs[j].len() > 0,
        decreases pieces.len() - i,
    {
        let t = trim_chars(&pieces[i]);
        assert(piece_views[i as int] == pieces@[i as int]@);
        if t.len() == 0 {
            assert(segs[i as int].len() == 0);
            assert(exists|j: int| 0 <= j < segs.len() && #[trigger] segs[j].len() == 0);
            return Err(invalid(assignment, "the key path has an empty segment"));
        }
        let ghost before = segments@;
        let seg = string_of(&t);
        segments.push(seg);
        assert(segments@.map_values(|s: String| s@) =~= before.map_values(|s: String| s@).push(
            seg@,
        ));
        assert(segs.subrange(0, i + 1) =~= segs.subrange(0, i as int).push(segs[i as int]));
        i = i + 1;
    }
    assert(segs.subrange(0, pieces@.len() as int) =~= segs);
    assert(!exists|j: int| 0 <= j < segs.len() && #[trigger] segs[j].len() == 0);
    match expand_shorthand(assignment, segments) {
        Ok(p) => Ok(Assignment { path: p, value: string_of(&raw) }),
        Err(e) => Err(e),
    }
}


/// A `--set` value the schema refused: the assignment, the schema's reason,
/// and a "did you mean" when the reason names a near-miss key.
pub fn rejected_assignment(assignment: &str, message: &str) -> (e: Error)
    ensures
        e matches Error::Config(m) && m@ == "invalid `--set "@ + assignment@ + "`: "@ + message@
            + hint(suggestion_for(message@)),
{
    let mut m = string_from("invalid `--set ");
    push_str(&mut m, assignment);
    push_str(&mut m, "`: ");
    push_str(&mut m, message);
    match suggestion(message) {
        Some(near) => {
            push_str(&mut m, "\nhint: did you mean `");
            push_str(&mut m, near.as_str());
            push_str(&mut m, "`?");
        },
        None => {
            assert(m@ =~= m@ + hint(None));
        },
    }
    Error::Config(m)
}


/// The value `toml` reads for `value` in the document `value = RAW`, if it
/// reads one there: `RAW` is then a TOML value (`1.4`, `true`, `["#fff"]`,
/// `"quoted"`).
pub uninterp spec fn toml_scalar(raw: Seq<char>) -> Option<toml::Value>;

/// Trusted: calls `toml::from_str::<toml::Table>` on `value = RAW` and takes
/// the table's `value` out. Parsing is a function of the text alone, so the
/// result is the value the name gives for `raw`, or nothing when toml reads
/// no table holding `value`.
#[verifier::external_body]
pub fn read_toml_scalar(raw: &str) -> (r: Option<toml::Value>)
    ensures
        r == toml_scalar(raw@),
{
    toml::from_str::<toml::Table>(&format!("value = {raw}")).ok().and_then(|mut table| table.remove("value"))
}

/// The right-hand side of a `--set` assignment.
#[derive(Debug)]
pub enum Scalar {
    /// A value TOML reads: `1.4` is a float, `true` a bool, `["#fff"]` an array.
    Toml(toml::Value),
    /// Anything TOML cannot read, taken as the text it is.
    Bare(String),
}

/// Read the right-hand side of an assignment as a TOML value, or else as a
/// bare string, which is what makes the unquoted `--set visual.preset=nebula`
/// and `--set background.fit=contain` work. A value that must be a string
/// whatever it looks like can be quoted: `--set x='"true"'`.
pub fn parse_scalar(raw: &str) -> (v: Scalar)
    ensures
        match toml_scalar(raw@) {
            Some(x) => v == Scalar::Toml(x),
            None => v matches Scalar::Bare(s) && s@ == raw@,
        },
{
    match read_toml_scalar(raw) {
        Some(value) => Scalar::Toml(value),
        None => Scalar::Bare(string_from(raw)),
    }
}


/// A name whose length and first two letters match none of the five section
/// names names no configuration section.
proof fn lemma_not_section(s: Seq<char>)
    requires
        s.len() >= 2,
        !(s.len() == 6 && s[0] == 'o' && s[1] == 'u'),
        !(s.len() == 6 && s[0] == 'v' && s[1] == 'i'),
        !(s.len() == 10 && s[0] == 'b' && s[1] == 'a'),
        !(s.len() == 4 && s[0] == 't' && s[1] == 'e'),
        !(s.len() == 7 && s[0] == 'e' && s[1] == 'f'),
    ensures
        !sections().contains(s),
{
    reveal_strlit("output");
    reveal_strlit("visual");
    reveal_strlit("background");
    reveal_strlit("text");
    reveal_strlit("effects");
    if sections().contains(s) {
        let i = choose|i: int| 0 <= i < sections().len() && sections()[i] == s;
        assert(i == 0 || i == 1 || i == 2 || i == 3 || i == 4);
        if i == 0 {
            assert("output"@[0] == 'o' && "output"@[1] == 'u');
        } else if i == 1 {
            assert("visual"@[0] == 'v' && "visual"@[1] == 'i');
        } else if i == 2 {
            assert("background"@[0] == 'b' && "background"@[1] == 'a');
        } else if i == 3 {
            assert("text"@[0] == 't' && "text"@[1] == 'e');
        } else {
            assert("effects"@[0] == 'e' && "effects"@[1] == 'f');
        }
    }
}

/// A shipped preset's name is a run of lowercase letters, and names no
/// configuration section.
proof fn lemma_preset_name_plain(p: Seq<char>)
    requires
        preset_names().contains(p),
    ensures
        p.len() > 0,
        forall|j: int| 0 <= j < p.len() ==> 'a' <= #[trigger] p[j] <= 'z',
        !sections().contains(p),
{
    reveal_strlit("pulse");
    reveal_strlit("nebula");
    reveal_strlit("ribbons");
    reveal_strlit("particles");
    reveal_strlit("kaleido");
    reveal_strlit("ink");
    reveal_strlit("bars");
    reveal_strlit("meter");
    reveal_strlit("tunnel");
    reveal_strlit("starfield");
    reveal_strlit("horizon");
    reveal_strlit("aurora");
    reveal_strlit("scope");
    reveal_strlit("rain");
    reveal_strlit("tiles");
    reveal_strlit("orbits");
    reveal_strlit("stained");
    reveal_strlit("strings");
    reveal_strlit("halo");
    reveal_strlit("embers");
    reveal_strlit("motes");
    reveal_strlit("fireflies");
    reveal_strlit("veil");
    reveal_strlit("output");
    reveal_strlit("visual");
    reveal_strlit("background");
    reveal_strlit("text");
    reveal_strlit("effects");
    let k = choose|k: int| 0 <= k < preset_names().len() && preset_names()[k] == p;
    assert(preset_names()[k] == preset_table()[k].0);
    assert({
        &&& p.len() >= 2
        &&& !(p.len() == 6 && p[0] == 'o' && p[1] == 'u')
        &&& !(p.len() == 6 && p[0] == 'v' && p[1] == 'i')
        &&& !(p.len() == 10 && p[0] == 'b' && p[1] == 'a')
        &&& !(p.len() == 4 && p[0] == 't' && p[1] == 'e')
        &&& !(p.len() == 7 && p[0] == 'e' && p[1] == 'f')
    }) by {
        if k == 0 {
            assert(p == "pulse"@);
            assert(p[0] == 'p' && p[1] == 'u');
        } else if k == 1 {
            assert(p == "nebula"@);
            assert(p[0] == 'n' && p[1] == 'e');
        } else if k == 2 {
            assert(p == "ribbons"@);
            assert(p[0] == 'r' && p[1] == 'i');
        } else if k == 3 {
            assert(p == "particles"@);
            assert(p[0] == 'p' && p[1] == 'a');
        } else if k == 4 {
            assert(p == "kaleido"@);
            assert(p[0] == 'k' && p[1] == 'a');
        } else if k == 5 {
            assert(p == "ink"@);
            assert(p[0] == 'i' && p[1] == 'n');
        } else if k == 6 {
            assert(p == "bars"@);
            assert(p[0] == 'b' && p[1] == 'a');
        } else if k == 7 {
            assert(p == "meter"@);
            assert(p[0] == 'm' && p[1] == 'e');
        } else if k == 8 {
            assert(p == "tunnel"@);
            assert(p[0] == 't' && p[1] == 'u');
        } else if k == 9 {
            assert(p == "starfield"@);
            assert(p[0] == 's' && p[1] == 't');
        } else if k == 10 {
            assert(p == "horizon"@);
            assert(p[0] == 'h' && p[1] == 'o');
        } else if k == 11 {
            assert(p == "aurora"@);
            assert(p[0] == 'a' && p[1] == 'u');
        } else if k == 12 {
            assert(p == "scope"@);
            assert(p[0] == 's' && p[1] == 'c');
        } else if k == 13 {
            assert(p == "rain"@);
            assert(p[0] == 'r' && p[1] == 'a');
        } else if k == 14 {
            assert(p == "tiles"@);
            assert(p[0] == 't' && p[1] == 'i');
        } else if k == 15 {
            assert(p == "orbits"@);
            assert(p[0] == 'o' && p[1] == 'r');
        } else if k == 16 {
            assert(p == "stained"@);
            assert(p[0] == 's' && p[1] == 't');
        } else if k == 17 {
            assert(p == "strings"@);
            assert(p[0] == 's' && p[1] == 't');
        } else if k == 18 {
            assert(p == "halo"@);
            assert(p[0] == 'h' && p[1] == 'a');
        } else if k == 19 {
            assert(p == "embers"@);
            assert(p[0] == 'e' && p[1] == 'm');
        } else if k == 20 {
            assert(p == "motes"@);
            assert(p[0] == 'm' && p[1] == 'o');
        } else if k == 21 {
            assert(p == "fireflies"@);
            assert(p[0] == 'f' && p[1] == 'i');
        } else {
            assert(p == "veil"@);
            assert(p[0] == 'v' && p[1] == 'e');
        }
    }
    lemma_not_section(p);
}

/// No `c` in `s`: `split` leaves it whole.
proof fn lemma_split_free(s: Seq<char>, c: char)
    requires
        !s.contains(c),
    ensures
        split(s, c) == seq![s],
    decreases s.len(),
{
    if s.len() > 0 {
        assert(!s.drop_last().contains(c)) by {
            if s.drop_last().contains(c) {
                let j = choose|j: int| 0 <= j < s.drop_last().len() && s.drop_last()[j] == c;
                assert(s[j] == c);
            }
        }
        lemma_split_free(s.drop_last(), c);
        assert(s.last() != c);
        assert(s.drop_last().push(s.last()) =~= s);
        assert(seq![s.drop_last()].update(0, s.drop_last().push(s.last())) =~= seq![s]);
    } else {
        assert(s =~= Seq::<char>::empty());
    }
}

/// Splitting `a`, a `c`, then a `b` free of `c`: the pieces of `a`, then `b`.
proof fn lemma_split_append(a: Seq<char>, b: Seq<char>, c: char)
    requires
        !b.contains(c),
    ensures
        split(a + seq![c] + b, c) == split(a, c).push(b),
    decreases b.len(),
{
    let s = a + seq![c] + b;
    if b.len() == 0 {
        assert(s.drop_last() =~= a);
        assert(s.last() == c);
        assert(b =~= Seq::<char>::empty());
    } else {
        let bl = b.drop_last();
        assert(!bl.contains(c)) by {
            if bl.contains(c) {
                let j = choose|j: int| 0 <= j < bl.len() && bl[j] == c;
                assert(b[j] == c);
            }
        }
        lemma_split_append(a, bl, c);
        assert(s.drop_last() =~= a + seq![c] + bl);
        assert(s.last() == b.last());
        assert(b.last() != c);
        assert(bl.push(b.last()) =~= b);
        assert(split(a, c).push(bl).update(split(a, c).len() as int, bl.push(b.last())) =~= split(
            a,
            c,
        ).push(b));
    }
}

/// `x`, an `=`, then `v`, with no `=` in `x`: the first `=` ends `x`.
proof fn lemma_find_after(x: Seq<char>, v: Seq<char>)
    requires
        !x.contains('='),
    ensures
        find(x + seq!['='] + v, '=') == x.len(),
        (x + seq!['='] + v).subrange(0, x.len() as int) == x,
        (x + seq!['='] + v).subrange(x.len() + 1int, (x + seq!['='] + v).len() as int) == v,
{
    let s = x + seq!['='] + v;
    lemma_find(s, '=');
    assert(s[x.len() as int] == '=');
    let f = find(s, '=');
    if f >= 0 && f < x.len() {
        assert(x[f] == s[f]);
    }
    assert(s.subrange(0, x.len() as int) =~= x);
    assert(s.subrange(x.len() + 1int, s.len() as int) =~= v);
}

/// Neither `visual` nor `params` holds a `.` or white space at its ends.
proof fn lemma_plain_words()
    ensures
        !"visual"@.contains('.'),
        !"params"@.contains('.'),
        trim("visual"@) == "visual"@,
        trim("params"@) == "params"@,
{
    reveal_strlit("visual");
    reveal_strlit("params");
    let visual = "visual"@;
    let params = "params"@;
    assert forall|j: int| 0 <= j < visual.len() implies visual[j] != '.' by {}
    assert forall|j: int| 0 <= j < params.len() implies params[j] != '.' by {}
    lemma_trim_unpadded(visual);
    lemma_trim_unpadded(params);
}

/// A parameter name as one key segment: no `.` or `=` in it, and something
/// other than white space.
pub open spec fn key_segment(n: Seq<char>) -> bool {
    &&& !n.contains('.')
    &&& !n.contains('=')
    &&& trim(n).len() > 0
}

/// What trimming leaves of a key segment is still one segment, and trimming
/// again, or trimming only its end first, changes nothing.
proof fn lemma_segment_trimmed(n: Seq<char>)
    requires
        key_segment(n),
    ensures
        !trim(n).contains('.'),
        !trim_end(n).contains('.'),
        trim_end(n).len() > 0,
        trim(trim(n)) == trim(n),
        trim(trim_end(n)) == trim(n),
{
    lemma_trim_middle(n);
    lemma_trim_of_trim_end(n);
    lemma_trim_idempotent(n);
    let l = leading_ws(n) as int;
    let t = trim(n);
    let e = trim_end(n);
    if t.contains('.') {
        let j = choose|j: int| 0 <= j < t.len() && t[j] == '.';
        assert(n[j + l] == '.');
    }
    if e.contains('.') {
        let j = choose|j: int| 0 <= j < e.len() && e[j] == '.';
        assert(n[j] == '.');
    }
}

/// `NAME=VALUE` sets `visual.params.NAME`, `NAME` trimmed.
proof fn lemma_bare_spelling(n: Seq<char>, v: Seq<char>)
    requires
        key_segment(n),
        !sections().contains(trim(n)),
    ensures
        parse_assignment(n + "="@ + v) == Ok::<(Seq<Seq<char>>, Seq<char>), Seq<char>>(
            (seq!["visual"@, "params"@, trim(n)], trim(v)),
        ),
{
    reveal_strlit("=");
    lemma_segment_trimmed(n);
    lemma_find_after(n, v);
    assert(n + "="@ + v =~= n + seq!['='] + v);
    let t = trim(n);
    lemma_split_free(t, '.');
    assert(seq![t].map_values(|s: Seq<char>| trim(s)) =~= seq![t]);
}

/// `visual.params.NAME=VALUE` is the path itself.
proof fn lemma_long_spelling(n: Seq<char>, v: Seq<char>)
    requires
        key_segment(n),
    ensures
        parse_assignment("visual.params."@ + n + "="@ + v) == Ok::<
            (Seq<Seq<char>>, Seq<char>),
            Seq<char>,
        >((seq!["visual"@, "params"@, trim(n)], trim(v))),
{
    reveal_strlit("=");
    reveal_strlit("visual");
    reveal_strlit("params");
    reveal_strlit("visual.params.");
    lemma_plain_words();
    lemma_segment_trimmed(n);
    let visual = "visual"@;
    let params = "params"@;
    let e = trim_end(n);
    let prefix = visual + seq!['.'] + params + seq!['.'];
    let long = prefix + n;
    assert("visual.params."@ + n =~= long);
    assert(!long.contains('=')) by {
        if long.contains('=') {
            let j = choose|j: int| 0 <= j < long.len() && long[j] == '=';
            if j >= 14 {
                assert(n[j - 14] == '=');
            } else {
                assert(long[j] == "visual.params."@[j]);
            }
        }
    }
    lemma_find_after(long, v);
    assert("visual.params."@ + n + "="@ + v =~= long + seq!['='] + v);
    assert(prefix[0] == 'v');
    lemma_trim_led(prefix, n);
    assert(prefix + e =~= visual + seq!['.'] + params + seq!['.'] + e);
    lemma_split_free(visual, '.');
    lemma_split_append(visual, params, '.');
    lemma_split_append(visual + seq!['.'] + params, e, '.');
    assert(split(trim(long), '.') =~= seq![visual, params, e]);
    assert(seq![visual, params, e].map_values(|s: Seq<char>| trim(s)) =~= seq![
        visual,
        params,
        trim(n),
    ]);
    assert(sections()[1] == visual);
}

/// `PRESET.NAME=VALUE` sets `visual.params.NAME`, `NAME` trimmed.
proof fn lemma_preset_spelling(n: Seq<char>, p: Seq<char>, v: Seq<char>)
    requires
        key_segment(n),
        preset_names().contains(p),
    ensures
        parse_assignment(p + "."@ + n + "="@ + v) == Ok::<(Seq<Seq<char>>, Seq<char>), Seq<char>>(
            (seq!["visual"@, "params"@, trim(n)], trim(v)),
        ),
{
    reveal_strlit("=");
    reveal_strlit(".");
    lemma_preset_name_plain(p);
    lemma_segment_trimmed(n);
    assert(trim(p) == p) by {
        assert('a' <= p[0] <= 'z');
        assert('a' <= p[p.len() - 1] <= 'z');
        lemma_trim_unpadded(p);
    }
    assert(!p.contains('.') && !p.contains('=')) by {
        if p.contains('.') {
            let j = choose|j: int| 0 <= j < p.len() && p[j] == '.';
            assert('a' <= p[j] <= 'z');
        }
        if p.contains('=') {
            let j = choose|j: int| 0 <= j < p.len() && p[j] == '=';
            assert('a' <= p[j] <= 'z');
        }
    }
    let e = trim_end(n);
    let prefix = p + seq!['.'];
    let short = prefix + n;
    assert(p + "."@ + n =~= short);
    assert(!short.contains('=')) by {
        if short.contains('=') {
            let j = choose|j: int| 0 <= j < short.len() && short[j] == '=';
            if j < p.len() {
                assert(p[j] == '=');
            } else if j > p.len() {
                assert(n[j - p.len() - 1] == '=');
            }
        }
    }
    lemma_find_after(short, v);
    assert(p + "."@ + n + "="@ + v =~= short + seq!['='] + v);
    assert(prefix[0] == p[0]);
    assert('a' <= p[0] <= 'z');
    lemma_trim_led(prefix, n);
    lemma_split_free(p, '.');
    lemma_split_append(p, e, '.');
    assert(split(trim(short), '.') =~= seq![p, e]);
    assert(seq![p, e].map_values(|s: Seq<char>| trim(s)) =~= seq![p, trim(n)]);
}

/// The three spellings of a preset parameter on `--set` mean the same thing:
/// `NAME=VALUE`, `visual.params.NAME=VALUE`, and `PRESET.NAME=VALUE` all set
/// `visual.params.NAME` (the name trimmed) to the trimmed value, for any name
/// that is one key segment and, trimmed, names no configuration section, and
/// any shipped preset.
pub proof fn law_set_spellings_agree(n: Seq<char>, p: Seq<char>, v: Seq<char>)
    requires
        key_segment(n),
        !sections().contains(trim(n)),
        preset_names().contains(p),
    ensures
        parse_assignment(n + "="@ + v) == Ok::<(Seq<Seq<char>>, Seq<char>), Seq<char>>(
            (seq!["visual"@, "params"@, trim(n)], trim(v)),
        ),
        parse_assignment("visual.params."@ + n + "="@ + v) == parse_assignment(n + "="@ + v),
        parse_assignment(p + "."@ + n + "="@ + v) == parse_assignment(n + "="@ + v),
{
    lemma_bare_spelling(n, v);
    lemma_long_spelling(n, v);
    lemma_preset_spelling(n, p, v);
}

} // verus!
