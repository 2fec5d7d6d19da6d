//! "Did you mean": the one place a near-miss name is matched to a real one,
//! so a preset parameter, a `--set` section, and a TOML key are held to the
//! same standard of resemblance.

use vstd::prelude::*;
use crate::text::{chars_of, split, split_exec, string_of, slice};

verus! {

/// The Damerau–Levenshtein distance between two names, as `strsim` computes
/// it: the fewest insertions, deletions, substitutions, and transpositions of
/// adjacent characters that turn one into the other.
pub uninterp spec fn damerau_distance(a: Seq<char>, b: Seq<char>) -> nat;

/// Trusted: calls `strsim::damerau_levenshtein`, and claims only that its
/// result is the distance it names for these two strings, which depends on
/// nothing but them.
#[verifier::external_body]
fn damerau_levenshtein(a: &str, b: &str) -> (d: usize)
    ensures
        d == damerau_distance(a@, b@),
{
    strsim::damerau_levenshtein(a, b)
}

/// A distance and the length it is measured against: the similarity score
/// `strsim::normalized_damerau_levenshtein` reports is `1 - d / m`, and two
/// empty names score 1.
pub open spec fn measure(unknown: Seq<char>, candidate: Seq<char>) -> (int, int) {
    if unknown.len() == 0 && candidate.len() == 0 {
        (0, 1)
    } else {
        (
            damerau_distance(unknown, candidate) as int,
            if unknown.len() >= candidate.len() {
                unknown.len() as int
            } else {
                candidate.len() as int
            },
        )
    }
}

/// Whether a candidate scores at least 0.6, the resemblance below which a
/// guess is worse than no guess: `1 - d / m >= 0.6` exactly when
/// `5 d <= 2 m`.
pub open spec fn close_enough(unknown: Seq<char>, candidate: Seq<char>) -> bool {
    5 * measure(unknown, candidate).0 <= 2 * measure(unknown, candidate).1
}

/// Whether `candidate` scores at least as high as `best`.
pub open spec fn at_least_as_close(unknown: Seq<char>, candidate: Seq<char>, best: Seq<char>) -> bool {
    measure(unknown, candidate).0 * measure(unknown, best).1 <= measure(unknown, best).0 * measure(
        unknown,
        candidate,
    ).1
}

/// The best-scoring candidate that is close enough, the later one winning a
/// tie.
pub open spec fn closest_of(unknown: Seq<char>, candidates: Seq<Seq<char>>) -> Option<Seq<char>>
    decreases candidates.len(),
{
    if candidates.len() == 0 {
        None
    } else {
        let before = closest_of(unknown, candidates.drop_last());
        let c = candidates.last();
        if !close_enough(unknown, c) {
            before
        } else {
            match before {
                None => Some(c),
                Some(b) => if at_least_as_close(unknown, c, b) {
                    Some(c)
                } else {
                    before
                },
            }
        }
    }
}

/// The distance and measuring length of one candidate.
fn measure_exec(unknown: &str, candidate: &str) -> (r: (u128, u128))
    ensures
        r.0 == measure(unknown@, candidate@).0,
        r.1 == measure(unknown@, candidate@).1,
        r.0 < 0x1_0000_0000_0000_0000,
        r.1 < 0x1_0000_0000_0000_0000,
{
    let a = unknown.unicode_len();
    let b = candidate.unicode_len();
    if a == 0 && b == 0 {
        (0, 1)
    } else {
        let d = damerau_levenshtein(unknown, candidate);
        let m = if a >= b {
            a
        } else {
            b
        };
        (d as u128, m as u128)
    }
}

/// Among the first `n` candidates, given each one's distance and the length it
/// is measured against, the index of the best-scoring one whose score is at
/// least 0.6, the later one winning a tie.
pub open spec fn best_index(measures: Seq<(u64, u64)>, n: nat) -> Option<int>
    decreases n,
{
    if n == 0 {
        None
    } else {
        let before = best_index(measures, (n - 1) as nat);
        let k = n - 1;
        let (d, m) = measures[k];
        if !(5 * d <= 2 * m) {
            before
        } else {
            match before {
                None => Some(k),
                Some(j) => if d * measures[j].1 <= measures[j].0 * m {
                    Some(k)
                } else {
                    before
                },
            }
        }
    }
}

/// With each candidate's own distance and length, the best index picks the
/// closest candidate.
proof fn lemma_best_index_is_closest(
    unknown: Seq<char>,
    names: Seq<Seq<char>>,
    measures: Seq<(u64, u64)>,
    n: nat,
)
    requires
        n <= names.len(),
        n <= measures.len(),
        forall|i: int|
            0 <= i < n ==> #[trigger] measures[i].0 == measure(unknown, names[i]).0
                && measures[i].1 == measure(unknown, names[i]).1,
    ensures
        match best_index(measures, n) {
            Some(k) => 0 <= k < n && closest_of(unknown, names.subrange(0, n as int)) == Some(
                names[k],
            ),
            None => closest_of(unknown, names.subrange(0, n as int)) is None,
        },
    decreases n,
{
    if n > 0 {
        lemma_best_index_is_closest(unknown, names, measures, (n - 1) as nat);
        let k = n - 1;
        assert(names.subrange(0, n as int).drop_last() =~= names.subrange(0, k));
        assert(names.subrange(0, n as int).last() == names[k]);
        assert(measures[k].0 == measure(unknown, names[k]).0);
        if let Some(j) = best_index(measures, (n - 1) as nat) {
            assert(measures[j].0 == measure(unknown, names[j]).0);
        }
    }
}

/// The candidate to suggest, given the distance of each candidate from the
/// unknown name and the length that distance is measured against (both 0
/// and 1 for two empty names): the best-scoring one whose score `1 - d / m`
/// is at least 0.6, the later one winning a tie.
pub fn best_candidate(candidates: &Vec<String>, measures: &Vec<(u64, u64)>) -> (r: Option<String>)
    requires
        measures@.len() == candidates@.len(),
    ensures
        match r {
            Some(s) => best_index(measures@, candidates@.len()) matches Some(k) && s@
                == candidates@[k]@,
            None => best_index(measures@, candidates@.len()) is None,
        },
{
    let mut best: Option<usize> = None;
    let mut i: usize = 0;
    while i < candidates.len()
        invariant
            i <= candidates@.len(),
            measures@.len() == candidates@.len(),
            match best {
                Some(k) => best_index(measures@, i as nat) == Some(k as int) && k < i,
                None => best_index(measures@, i as nat) is None,
            },
        decreases candidates.len() - i,
    {
        let (d, m) = measures[i];
        let d = d as u128;
        let m = m as u128;
        if 5 * d <= 2 * m {
            match best {
                None => {
                    best = Some(i);
                },
                Some(k) => {
                    let (bd, bm) = measures[k];
                    let bd = bd as u128;
                    let bm = bm as u128;
                    assert(d * bm <= 0xffff_ffff_ffff_ffff * 0xffff_ffff_ffff_ffff) by (nonlinear_arith)
                        requires
                            d <= 0xffff_ffff_ffff_ffff,
                            bm <= 0xffff_ffff_ffff_ffff,
                    ;
                    assert(bd * m <= 0xffff_ffff_ffff_ffff * 0xffff_ffff_ffff_ffff) by (nonlinear_arith)
                        requires
                            m <= 0xffff_ffff_ffff_ffff,
                            bd <= 0xffff_ffff_ffff_ffff,
                    ;
                    if d * bm <= bd * m {
                        best = Some(i);
                    }
                },
            }
        }
        i = i + 1;
    }
    match best {
        Some(k) => Some(candidates[k].clone()),
        None => None,
    }
}

/// The candidate closest to `unknown`, if any is close enough to be worth
/// saying.
pub fn closest(unknown: &str, candidates: &Vec<String>) -> (r: Option<String>)
    ensures
        match r {
            Some(s) => closest_of(unknown@, candidates@.map_values(|c: String| c@)) == Some(s@),
            None => closest_of(unknown@, candidates@.map_values(|c: String| c@)) is None,
        },
{
    let ghost names = candidates@.map_values(|c: String| c@);
    let mut measures: Vec<(u64, u64)> = Vec::new();
    let mut i: usize = 0;
    while i < candidates.len()
        invariant
            i <= candidates@.len(),
            measures@.len() == i,
            names == candidates@.map_values(|c: String| c@),
            forall|j: int|
                0 <= j < i ==> #[trigger] measures@[j].0 == measure(unknown@, names[j]).0
                    && measures@[j].1 == measure(unknown@, names[j]).1,
        decreases candidates.len() - i,
    {
        let (d, m) = measure_exec(unknown, candidates[i].as_str());
        measures.push((d as u64, m as u64));
        i = i + 1;
    }
    proof {
        lemma_best_index_is_closest(unknown@, names, measures@, candidates@.len());
        assert(names.subrange(0, candidates@.len() as int) =~= names);
    }
    let r = best_candidate(candidates, &measures);
    proof {
        if let Some(k) = best_index(measures@, candidates@.len()) {
            assert(names[k] == candidates@[k]@);
        }
    }
    r
}

/// The index of the first occurrence of `pat` in `s` at or after `from`, or
/// `-1`.
pub open spec fn find_text(s: Seq<char>, pat: Seq<char>, from: int) -> int
    decreases s.len() - from,
{
    if from < 0 || from >= s.len() || from + pat.len() > s.len() {
        -1
    } else if s.subrange(from, from + pat.len()) == pat {
        from
    } else {
        find_text(s, pat, from + 1)
    }
}

fn find_text_exec(s: &Vec<char>, pat: &Vec<char>) -> (r: Option<usize>)
    ensures
        match r {
            Some(i) => find_text(s@, pat@, 0) == i && i + pat@.len() <= s@.len(),
            None => find_text(s@, pat@, 0) == -1,
        },
{
    let mut i: usize = 0;
    while i < s.len() && pat.len() <= s.len() - i
        invariant
            i <= s@.len(),
            find_text(s@, pat@, 0) == find_text(s@, pat@, i as int),
        decreases s.len() - i,
    {
        let piece = slice(s, i, i + pat.len());
        if crate::text::chars_eq(&piece, pat) {
            return Some(i);
        }
        i = i + 1;
    }
    None
}

/// Where the first occurrence of `pat` ends.
fn end_of(s: &Vec<char>, pat: &Vec<char>) -> (r: Option<usize>)
    ensures
        match r {
            Some(o) => find_text(s@, pat@, 0) >= 0 && o == find_text(s@, pat@, 0) + pat@.len()
                && o <= s@.len(),
            None => find_text(s@, pat@, 0) == -1,
        },
{
    let n = s.len();
    match find_text_exec(s, pat) {
        Some(at) => {
            assert(at + pat@.len() <= n);
            Some(at + pat.len())
        },
        None => None,
    }
}

/// Every other piece, starting from the second: the backticked parts of a
/// message split at its backticks.
pub open spec fn quoted_pieces(pieces: Seq<Seq<char>>) -> Seq<Seq<char>> {
    Seq::new(pieces.len() / 2, |k: int| pieces[2 * k + 1])
}

/// The "did you mean" for a serde `unknown field` or `unknown variant`
/// message, which names the offending name first and the accepted ones after
/// it, all in backticks.
pub open spec fn suggestion_for(message: Seq<char>) -> Option<Seq<char>> {
    let field = find_text(message, "unknown field "@, 0);
    let variant = find_text(message, "unknown variant "@, 0);
    let offset = if field >= 0 {
        field + "unknown field "@.len()
    } else if variant >= 0 {
        variant + "unknown variant "@.len()
    } else {
        -1
    };
    if offset < 0 {
        None
    } else {
        let quoted = quoted_pieces(split(message.subrange(offset, message.len() as int), '`'));
        if quoted.len() == 0 {
            None
        } else {
            closest_of(quoted[0], quoted.subrange(1, quoted.len() as int))
        }
    }
}

/// Extract a "did you mean" suggestion from serde's `unknown field` or
/// `unknown variant` message.
pub fn suggestion(message: &str) -> (r: Option<String>)
    ensures
        match r {
            Some(s) => suggestion_for(message@) == Some(s@),
            None => suggestion_for(message@) is None,
        },
{
    let text = chars_of(message);
    let field = chars_of("unknown field ");
    let variant = chars_of("unknown variant ");
    let offset = match end_of(&text, &field) {
        Some(o) => o,
        None => match end_of(&text, &variant) {
            Some(o) => o,
            None => return None,
        },
    };
    let rest = slice(&text, offset, text.len());
    let pieces = split_exec(&rest, '`');
    let ghost views = pieces@.map_values(|p: Vec<char>| p@);
    let ghost quoted = quoted_pieces(views);
    if pieces.len() < 2 {
        return None;
    }
    let unknown = string_of(&pieces[1]);
    let mut candidates: Vec<String> = Vec::new();
    let mut j: usize = 3;
    while j < pieces.len()
        invariant
            3 <= j <= pieces@.len() + 1,
            j % 2 == 1,
            views == pieces@.map_values(|p: Vec<char>| p@),
            quoted == quoted_pieces(views),
            candidates@.map_values(|c: String| c@) == quoted.subrange(1, (j as int - 1) / 2),
        decreases pieces.len() + 1 - j,
    {
        let ghost k: int = (j as int - 1) / 2;
        assert(2 * k + 1 == j);
        assert(quoted[k] == views[j as int]);
        assert(views[j as int] == pieces@[j as int]@);
        let ghost before = candidates@;
        let piece = string_of(&pieces[j]);
        candidates.push(piece);
        assert(candidates@ == before.push(piece));
        assert(before.map_values(|c: String| c@) == quoted.subrange(1, k));
        assert(candidates@.map_values(|c: String| c@) =~= before.map_values(|c: String| c@).push(
            piece@,
        ));
        assert(quoted.subrange(1, k).push(quoted[k]) =~= quoted.subrange(1, k + 1));
        assert((j as int + 1) / 2 == k + 1);
        j = j + 2;
    }
    assert(quoted.subrange(1, (j as int - 1) / 2) =~= quoted.subrange(1, quoted.len() as int));
    assert(views[1] == pieces@[1]@);
    assert(quoted[0] == views[1]);
    assert(quoted[0] == unknown@);
    closest(unknown.as_str(), &candidates)
}


/// Scores compare transitively.
proof fn lemma_at_least_as_close_transitive(u: Seq<char>, a: Seq<char>, b: Seq<char>, c: Seq<char>)
    requires
        at_least_as_close(u, a, b),
        at_least_as_close(u, b, c),
    ensures
        at_least_as_close(u, a, c),
{
    let (d1, m1) = measure(u, a);
    let (d2, m2) = measure(u, b);
    let (d3, m3) = measure(u, c);
    assert(m1 > 0 && m2 > 0 && m3 > 0 && d1 >= 0 && d2 >= 0 && d3 >= 0);
    assert(d1 * m3 <= d3 * m1) by (nonlinear_arith)
        requires
            d1 * m2 <= d2 * m1,
            d2 * m3 <= d3 * m2,
            m1 > 0,
            m2 > 0,
            m3 > 0,
            d1 >= 0,
            d2 >= 0,
            d3 >= 0,
    ;
}

/// Scores are totally ordered.
proof fn lemma_at_least_as_close_total(u: Seq<char>, a: Seq<char>, b: Seq<char>)
    ensures
        at_least_as_close(u, a, b) || at_least_as_close(u, b, a),
{
}

/// A suggestion, when there is one, is one of the candidates, is close enough
/// to be worth saying, and no candidate scores higher; there is none exactly
/// when no candidate is close enough.
pub proof fn law_suggestion_is_the_best_close_candidate(unknown: Seq<char>, candidates: Seq<Seq<char>>)
    ensures
        match closest_of(unknown, candidates) {
            Some(c) => candidates.contains(c) && close_enough(unknown, c) && forall|i: int|
                0 <= i < candidates.len() && close_enough(unknown, #[trigger] candidates[i])
                    ==> at_least_as_close(unknown, c, candidates[i]),
            None => forall|i: int|
                0 <= i < candidates.len() ==> !close_enough(unknown, #[trigger] candidates[i]),
        },
    decreases candidates.len(),
{
    if candidates.len() > 0 {
        let rest = candidates.drop_last();
        law_suggestion_is_the_best_close_candidate(unknown, rest);
        let c = candidates.last();
        assert forall|i: int| 0 <= i < rest.len() implies rest[i] == #[trigger] candidates[i] by {}
        match closest_of(unknown, rest) {
            Some(b) => {
                let k = choose|k: int| 0 <= k < rest.len() && rest[k] == b;
                assert(candidates[k] == b);
                if close_enough(unknown, c) && at_least_as_close(unknown, c, b) {
                    assert forall|i: int|
                        0 <= i < candidates.len() && close_enough(unknown, #[trigger] candidates[i])
                        implies at_least_as_close(unknown, c, candidates[i]) by {
                        if i < rest.len() {
                            assert(rest[i] == candidates[i]);
                            lemma_at_least_as_close_transitive(unknown, c, b, candidates[i]);
                        }
                    }
                    assert(candidates[candidates.len() - 1] == c);
                } else {
                    assert forall|i: int|
                        0 <= i < candidates.len() && close_enough(unknown, #[trigger] candidates[i])
                        implies at_least_as_close(unknown, b, candidates[i]) by {
                        if i < rest.len() {
                            assert(rest[i] == candidates[i]);
                        } else {
                            lemma_at_least_as_close_total(unknown, b, c);
                        }
                    }
                }
            },
            None => {
                if close_enough(unknown, c) {
                    assert(candidates[candidates.len() - 1] == c);
                    assert forall|i: int|
                        0 <= i < candidates.len() && close_enough(unknown, #[trigger] candidates[i])
                        implies at_least_as_close(unknown, c, candidates[i]) by {
                        if i < rest.len() {
                            assert(rest[i] == candidates[i]);
                        }
                    }
                } else {
                    assert forall|i: int| 0 <= i < candidates.len() implies !close_enough(
                        unknown,
                        #[trigger] candidates[i],
                    ) by {
                        if i < rest.len() {
                            assert(rest[i] == candidates[i]);
                        }
                    }
                }
            },
        }
    }
}

} // verus!
