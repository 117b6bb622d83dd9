//! The exit codes of `sysexits.h` that the outcome of a run is reported with,
//! as the `exitcode` crate defines them.

use vstd::prelude::*;

verus! {

/// Reads `exitcode::OK`, which that crate defines as 0.
#[verifier::external_body]
pub(crate) fn ok() -> (code: i32)
    ensures
        code == 0,
{
    exitcode::OK
}

/// Reads `exitcode::USAGE`, which that crate defines as 64.
#[verifier::external_body]
pub(crate) fn usage() -> (code: i32)
    ensures
        code == 64,
{
    exitcode::USAGE
}

/// Reads `exitcode::NOINPUT`, which that crate defines as 66.
#[verifier::external_body]
pub(crate) fn no_input() -> (code: i32)
    ensures
        code == 66,
{
    exitcode::NOINPUT
}

/// Reads `exitcode::IOERR`, which that crate defines as 74.
#[verifier::external_body]
pub(crate) fn io_err() -> (code: i32)
    ensures
        code == 74,
{
    exitcode::IOERR
}

} // verus!
