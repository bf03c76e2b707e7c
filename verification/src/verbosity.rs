use vstd::prelude::*;

verus! {

/// The logging threshold the command line's verbosity count selects, from
/// errors only up to trace output.
#[derive(Clone, Copy, PartialEq, Eq, Structural, Debug)]
pub enum Verbosity {
    ErrorsOnly,
    AndWarnings,
    AndInfo,
    AndDebug,
    Everything,
}

/// The threshold a verbosity count selects.
pub open spec fn spec_verbosity(count: u64) -> Verbosity {
    if count == 0 {
        Verbosity::ErrorsOnly
    } else if count == 1 {
        Verbosity::AndWarnings
    } else if count == 2 {
        Verbosity::AndInfo
    } else if count == 3 {
        Verbosity::AndDebug
    } else {
        Verbosity::Everything
    }
}

/// Maps the number of verbosity flags on the command line to the logging
/// threshold: none means errors only, and each further flag widens it one
/// step, up to trace output from four or more.
pub fn verbosity_level(count: u64) -> (r: Verbosity)
    ensures
        r == spec_verbosity(count),
{
    match count {
        0 => Verbosity::ErrorsOnly,
        1 => Verbosity::AndWarnings,
        2 => Verbosity::AndInfo,
        3 => Verbosity::AndDebug,
        _ => Verbosity::Everything,
    }
}

} // verus!
