//! The arguments of the commands that take no more than plain values, and
//! `avz config`, which answers from them alone.

use vstd::prelude::*;
use crate::config::example::{example, example_text};
use crate::error::Error;
use crate::text::string_from;

verus! {

/// `avz probe` arguments.
#[derive(Debug, Clone, PartialEq, Eq)]
pub struct ProbeArgs {
    /// The mp3 to inspect.
    pub input: String,
}

/// `avz presets` arguments.
#[derive(Debug, Clone, PartialEq, Eq)]
pub struct PresetsArgs {
    /// Show the full parameter schema for one preset instead of listing all.
    pub name: Option<String>,
}

/// `avz config` arguments.
#[derive(Debug, Clone, Copy, PartialEq, Eq, Structural)]
pub struct ConfigArgs {
    /// Print a documented example config to stdout.
    pub example: bool,
}

pub open spec fn nothing_to_do_message() -> Seq<char> {
    "`avz config` needs something to do; pass `--example` to print a documented config file: `avz config --example > avz.toml`"@
}

/// What `avz config` does when it is not asked to do anything: say which flag
/// it wanted, as a usage error.
pub fn nothing_to_do() -> (e: Error)
    ensures
        e matches Error::Config(m) && m@ == nothing_to_do_message(),
{
    Error::Config(
        string_from(
            "`avz config` needs something to do; pass `--example` to print a documented config file: `avz config --example > avz.toml`",
        ),
    )
}

/// What `avz config` prints: the documented example, or why nothing.
pub fn config_command(args: ConfigArgs) -> (r: Result<String, Error>)
    ensures
        match r {
            Ok(text) => args.example && text@ == example_text(),
            Err(e) => !args.example && (e matches Error::Config(m) && m@ == nothing_to_do_message()),
        },
{
    if !args.example {
        return Err(nothing_to_do());
    }
    Ok(example())
}


/// The verbosity the program logs at unless `AVZ_LOG` says otherwise:
/// `--verbose` wins, `--quiet` keeps errors only.
pub fn default_log_level(verbose: bool, quiet: bool) -> (level: &'static str)
    ensures
        level@ == (if verbose {
            "debug"@
        } else if quiet {
            "error"@
        } else {
            "info"@
        }),
{
    if verbose {
        "debug"
    } else if quiet {
        "error"
    } else {
        "info"
    }
}

} // verus!
