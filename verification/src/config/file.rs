//! What goes wrong reading a `--config` file, in words rather than in errnos.
//!
//! Both halves, the read and the parse, are configuration errors (exit 2),
//! because both are the user's arguments: a batch loop has to tell "skip this
//! broken song" from "the `--config` path is wrong and every song will fail".

use vstd::prelude::*;
use crate::error::Error;
use crate::config::set::hint;
use crate::config::suggest::{suggestion, suggestion_for};
use crate::text::{
    chars_of, is_white, is_white_space, lemma_trailing_ws_bound, push_str, slice, string_from, string_of, trailing_ws,
    trim_end,
};

verus! {

/// Why a file could not be read.
#[derive(Debug, Clone, PartialEq, Eq)]
pub enum ReadFailure {
    /// Nothing is at the path.
    NotFound,
    /// Something is there, but this user may not read it.
    PermissionDenied,
    /// Anything else, as the operating system describes it.
    Other(String),
}

pub open spec fn unreadable_message(path: Seq<char>, failure: ReadFailure) -> Seq<char> {
    match failure {
        ReadFailure::NotFound => path + ": no such file"@,
        ReadFailure::PermissionDenied => path + ": permission denied"@,
        ReadFailure::Other(detail) => path + ": cannot be read: "@ + detail@,
    }
}

/// Say why a `--config` file could not be read; the path is the only part of
/// it the user can fix.
pub fn unreadable(path: &str, failure: &ReadFailure) -> (e: Error)
    ensures
        e matches Error::Config(m) && m@ == unreadable_message(path@, *failure),
{
    let mut m = string_from(path);
    match failure {
        ReadFailure::NotFound => push_str(&mut m, ": no such file"),
        ReadFailure::PermissionDenied => push_str(&mut m, ": permission denied"),
        ReadFailure::Other(detail) => {
            push_str(&mut m, ": cannot be read: ");
            push_str(&mut m, detail.as_str());
        },
    }
    Error::Config(m)
}

/// A configuration error in the file at `path` names the file first; any
/// other error is left as it is.
pub fn in_file(path: &str, err: Error) -> (e: Error)
    ensures
        match err {
            Error::Config(m) => e matches Error::Config(n) && n@ == path@ + ":\n"@ + m@,
            _ => e == err,
        },
{
    match err {
        Error::Config(message) => {
            let mut m = string_from(path);
            push_str(&mut m, ":\n");
            push_str(&mut m, message.as_str());
            Error::Config(m)
        },
        other => other,
    }
}


/// Dropping one trailing white-space character leaves the same `trim_end`.
proof fn lemma_trim_end_step(s: Seq<char>)
    requires
        s.len() > 0,
        is_white_space(s.last()),
    ensures
        trim_end(s) == trim_end(s.drop_last()),
{
    assert(trailing_ws(s) == 1 + trailing_ws(s.drop_last()));
    lemma_trailing_ws_bound(s.drop_last());
    assert(trim_end(s).len() == trim_end(s.drop_last()).len());
    assert forall|i: int| 0 <= i < trim_end(s).len() implies trim_end(s)[i] == trim_end(
        s.drop_last(),
    )[i] by {
        assert(s[i] == s.drop_last()[i]);
    }
    assert(trim_end(s) =~= trim_end(s.drop_last()));
}

/// A TOML source the schema refused: the parser's own report, with its
/// trailing white space dropped, then a "did you mean" when its message names
/// a near-miss key.
pub fn rejected_toml(rendered: &str, message: &str) -> (e: Error)
    ensures
        e matches Error::Config(m) && m@ == trim_end(rendered@) + hint(suggestion_for(message@)),
{
    let v = chars_of(rendered);
    let mut n = v.len();
    assert(v@.subrange(0, n as int) =~= v@);
    while n > 0 && is_white(v[n - 1])
        invariant
            n <= v@.len(),
            trim_end(v@) == trim_end(v@.subrange(0, n as int)),
        decreases n,
    {
        let ghost s = v@.subrange(0, n as int);
        proof {
            lemma_trim_end_step(s);
        }
        assert(s.drop_last() =~= v@.subrange(0, n - 1));
        n = n - 1;
    }
    let ghost s = v@.subrange(0, n as int);
    if n > 0 {
        assert(trailing_ws(s) == 0);
    }
    assert(trim_end(s) =~= s);
    let mut m = string_of(&slice(&v, 0, n));
    match suggestion(message) {
        Some(near) => {
            push_str(&mut m, "\nhint: did you mean `");
            push_str(&mut m, near.as_str());
            push_str(&mut m, "`?");
        },
        None => {
            assert(m@ =~= m@ + hint(None));
        },
    }
    Error::Config(m)
}

} // verus!
