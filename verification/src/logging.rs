//! Logging choices: how verbose stdout logging is, which filters each
//! layer gets, and which files in the log directory are old rotations.
//! Installing the subscriber and touching the log directory happen
//! around this crate.

use vstd::prelude::*;
use crate::text::{chars_eq, chars_of, starts_with};

verus! {

/// Verbosity level requested via CLI flags.
#[derive(Debug, Clone, Copy, PartialEq, Eq, Structural)]
pub enum Verbosity {
    /// No stdout logging (file only).
    Quiet,
    /// INFO and above to stdout.
    Verbose,
    /// DEBUG and above to stdout.
    Debug,
}

/// `--debug` wins over `--verbose`; neither is quiet.
pub fn verbosity_from(debug: bool, verbose: bool) -> (r: Verbosity)
    ensures
        r == (if debug {
            Verbosity::Debug
        } else if verbose {
            Verbosity::Verbose
        } else {
            Verbosity::Quiet
        }),
{
    if debug {
        Verbosity::Debug
    } else if verbose {
        Verbosity::Verbose
    } else {
        Verbosity::Quiet
    }
}

/// The filter of the file layer, which is always on.
pub fn file_filter() -> (r: &'static str)
    ensures
        r@ == "dodot_lib=debug,dodot=debug"@,
{
    "dodot_lib=debug,dodot=debug"
}

/// The stdout layer for a verbosity: its filter and whether it shows
/// targets; none when quiet.
pub fn stdout_layer(v: Verbosity) -> (r: Option<(&'static str, bool)>)
    ensures
        match v {
            Verbosity::Quiet => r is None,
            Verbosity::Verbose => r matches Some((f, t)) && f@ == "dodot_lib=info,dodot=info"@ && !t,
            Verbosity::Debug => r matches Some((f, t)) && f@ == "dodot_lib=debug,dodot=debug"@ && t,
        },
{
    match v {
        Verbosity::Quiet => None,
        Verbosity::Verbose => Some(("dodot_lib=info,dodot=info", false)),
        Verbosity::Debug => Some(("dodot_lib=debug,dodot=debug", true)),
    }
}

/// How many days of rotated logs are kept.
pub const LOG_RETENTION_DAYS: u64 = 7;

/// A rotated dodot log file, a candidate for clean-up: its name starts
/// with `dodot.log` and is not the base file itself.
pub open spec fn spec_is_rotated_log(name: Seq<char>) -> bool {
    starts_with(name, "dodot.log"@) && name != "dodot.log"@
}

/// Whether a file in the log directory is a rotated dodot log.
pub fn is_rotated_log(name: &str) -> (r: bool)
    ensures
        r == spec_is_rotated_log(name@),
{
    let n = chars_of(name);
    let base = chars_of("dodot.log");
    if n.len() < base.len() {
        return false;
    }
    let head = crate::text::copy_range(n.as_slice(), 0, base.len());
    proof {
        assert(head@ =~= n@.subrange(0, base@.len() as int));
    }
    chars_eq(head.as_slice(), base.as_slice()) && !chars_eq(n.as_slice(), base.as_slice())
}

/// The age, in seconds, past which a rotated log is removed.
pub fn retention_secs(days: u64) -> (r: u64)
    requires
        days * 86400 <= u64::MAX,
    ensures
        r == days * 86400,
{
    days * 86400
}

} // verus!
