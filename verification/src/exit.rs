//! The one place process exit codes are decided.
//!
//! The library reports *what* went wrong as a typed error; this module decides
//! *how the shell hears about it*. Keeping the mapping in one function means a
//! new error variant has exactly one place to be classified.

use vstd::prelude::*;
use crate::error::Error;

verus! {

/// Process exit codes. The values are contractual: scripts depend on them.
#[derive(Debug, Clone, Copy, PartialEq, Eq, Structural)]
pub enum Exit {
    /// Success.
    Success,
    /// Bad arguments or configuration.
    Usage,
    /// The input file is missing, unreadable, or the wrong format.
    Input,
    /// Rendering or encoding failed.
    Failure,
}

pub open spec fn exit_code(e: Exit) -> u8 {
    match e {
        Exit::Success => 0,
        Exit::Usage => 2,
        Exit::Input => 3,
        Exit::Failure => 4,
    }
}

impl Exit {
    /// The number the process exits with.
    pub fn code(self) -> (c: u8)
        ensures
            c == exit_code(self),
    {
        match self {
            Exit::Success => 0,
            Exit::Usage => 2,
            Exit::Input => 3,
            Exit::Failure => 4,
        }
    }
}

/// How one error is heard: the user's arguments, the user's song, or the
/// pipeline.
pub open spec fn classify(e: Error) -> Exit {
    match e {
        Error::Config(_) => Exit::Usage,
        Error::Input(_) => Exit::Input,
        _ => Exit::Failure,
    }
}

/// The exit for a chain of causes, outermost first: the first cause that is
/// one of the library's errors decides; a chain with none is a failure.
pub open spec fn exit_for(chain: Seq<Option<Error>>) -> Exit
    decreases chain.len(),
{
    if chain.len() == 0 {
        Exit::Failure
    } else {
        match chain[0] {
            Some(e) => classify(e),
            None => exit_for(chain.drop_first()),
        }
    }
}

/// Classify an error into an exit code by its chain of causes.
///
/// The chain is walked so an error keeps its classification even after the
/// command line wraps it with human-facing context. Causes that are not the
/// library's errors are `None`.
pub fn code_for(chain: &[Option<&Error>]) -> (exit: Exit)
    ensures
        exit == exit_for(chain@.map_values(|c: Option<&Error>| match c {
            Some(e) => Some(*e),
            None => None,
        })),
{
    let ghost causes = chain@.map_values(|c: Option<&Error>| match c {
        Some(e) => Some(*e),
        None => None,
    });
    let mut i: usize = 0;
    assert(causes.subrange(0, causes.len() as int) =~= causes);
    while i < chain.len()
        invariant
            i <= chain@.len(),
            causes == chain@.map_values(|c: Option<&Error>| match c {
                Some(e) => Some(*e),
                None => None,
            }),
            exit_for(causes) == exit_for(causes.subrange(i as int, causes.len() as int)),
        decreases chain.len() - i,
    {
        let ghost rest = causes.subrange(i as int, causes.len() as int);
        assert(rest.drop_first() =~= causes.subrange(i + 1, causes.len() as int));
        assert(rest[0] == causes[i as int]);
        match chain[i] {
            Some(e) => {
                return match e {
                    Error::Config(_) => Exit::Usage,
                    Error::Input(_) => Exit::Input,
                    _ => Exit::Failure,
                };
            },
            None => {},
        }
        i = i + 1;
    }
    Exit::Failure
}


/// Context wrapped around an error, however many layers of it, never changes
/// how the shell hears about the error.
pub proof fn law_context_keeps_the_classification(chain: Seq<Option<Error>>, layers: nat)
    ensures
        exit_for(Seq::new(layers, |i: int| None::<Error>) + chain) == exit_for(chain),
    decreases layers,
{
    if layers > 0 {
        let wrapped = Seq::new(layers, |i: int| None::<Error>) + chain;
        let fewer = Seq::new((layers - 1) as nat, |i: int| None::<Error>) + chain;
        assert(wrapped.drop_first() =~= fewer);
        law_context_keeps_the_classification(chain, (layers - 1) as nat);
    } else {
        assert(Seq::new(0, |i: int| None::<Error>) + chain =~= chain);
    }
}

/// The first of the library's errors in a chain decides the exit, by its
/// kind: configuration is a usage error (2), the input file is an input
/// error (3), and analysis, rendering, encoding and unbuilt commands are
/// failures (4); wrapping with context before it changes nothing, and a
/// chain with no library error is a failure.
pub proof fn law_the_first_error_decides_the_exit(chain: Seq<Option<Error>>, k: int)
    requires
        0 <= k <= chain.len(),
        forall|j: int| 0 <= j < k ==> #[trigger] chain[j] is None,
    ensures
        k == chain.len() ==> exit_for(chain) == Exit::Failure && exit_code(exit_for(chain)) == 4,
        k < chain.len() ==> match chain[k] {
            Some(Error::Config(_)) => exit_for(chain) == Exit::Usage && exit_code(exit_for(chain))
                == 2,
            Some(Error::Input(_)) => exit_for(chain) == Exit::Input && exit_code(exit_for(chain))
                == 3,
            Some(Error::Analysis(_)) => exit_for(chain) == Exit::Failure && exit_code(
                exit_for(chain),
            ) == 4,
            Some(Error::Render(_)) => exit_for(chain) == Exit::Failure && exit_code(
                exit_for(chain),
            ) == 4,
            Some(Error::Encode(_)) => exit_for(chain) == Exit::Failure && exit_code(
                exit_for(chain),
            ) == 4,
            Some(Error::NotImplemented { .. }) => exit_for(chain) == Exit::Failure && exit_code(
                exit_for(chain),
            ) == 4,
            None => true,
        },
    decreases k,
{
    if k > 0 {
        assert(chain[0] is None);
        let rest = chain.drop_first();
        assert forall|j: int| 0 <= j < k - 1 implies #[trigger] rest[j] is None by {
            assert(rest[j] == chain[j + 1]);
        }
        law_the_first_error_decides_the_exit(rest, k - 1);
        if k < chain.len() {
            assert(rest[k - 1] == chain[k]);
        }
    }
}

} // verus!
