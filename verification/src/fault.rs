//! The error taxonomy of a run.
//!
//! Only a failure to decode one record block is recoverable: the block is
//! skipped and the stream goes on.  Every other kind aborts the run and is
//! surfaced with a non-zero exit code.

use vstd::prelude::*;

verus! {

/// What went wrong during a run.
#[derive(Clone, Copy, Debug, PartialEq, Eq, Structural)]
pub enum ErrorKind {
    /// The inventory lookup failed or returned undecodable text.
    Resolution,
    /// The log subprocess could not be started or its output not captured.
    Source,
    /// One record block could not be decoded as structured data.
    Decode,
    /// A subprocess did not terminate after a kill request.
    ProcessCleanup,
    /// The pre-flight authentication probe failed.
    Authentication,
}

/// Whether an error of this kind aborts the run.
pub fn is_fatal(kind: &ErrorKind) -> (fatal: bool)
    ensures
        fatal == !(kind is Decode),
{
    match kind {
        ErrorKind::Decode => false,
        _ => true,
    }
}

/// The process exit code that an error of this kind leads to: decode
/// failures are swallowed, everything else ends the run with code 1.
pub fn exit_code(kind: &ErrorKind) -> (code: i32)
    ensures
        code == if kind is Decode {
            0i32
        } else {
            1i32
        },
{
    match kind {
        ErrorKind::Decode => 0,
        _ => 1,
    }
}

/// The operator-facing description of an error of this kind.
pub fn describe(kind: &ErrorKind) -> (text: &'static str)
    ensures
        kind is Resolution ==> text@ == "inventory lookup failed"@,
        kind is Source ==> text@ == "log stream could not be started"@,
        kind is Decode ==> text@ == "record block could not be decoded"@,
        kind is ProcessCleanup ==> text@ == "subprocess did not terminate after kill"@,
        kind is Authentication ==> text@ == "not authenticated; run the provider login first"@,
{
    match kind {
        ErrorKind::Resolution => "inventory lookup failed",
        ErrorKind::Source => "log stream could not be started",
        ErrorKind::Decode => "record block could not be decoded",
        ErrorKind::ProcessCleanup => "subprocess did not terminate after kill",
        ErrorKind::Authentication => "not authenticated; run the provider login first",
    }
}

/// The authentication probe: a successful spawn alone proves nothing, the
/// command must also have exited successfully.
pub fn authentication_ok(spawn_succeeded: bool, exit_success: bool) -> (authed: bool)
    ensures
        authed == (spawn_succeeded && exit_success),
{
    spawn_succeeded && exit_success
}

} // verus!
