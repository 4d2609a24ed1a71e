//! The two output-suppression switches, set once at startup and read by the
//! output layer.
use vstd::prelude::*;

verus! {

/// Whether normal output and error output are suppressed.
pub struct OutputFlags {
    pub stderr_suppressed: bool,
    pub stdout_suppressed: bool,
}

impl OutputFlags {
    /// Both channels enabled.
    pub fn new() -> (r: OutputFlags)
        ensures
            !r.stderr_suppressed,
            !r.stdout_suppressed,
    {
        OutputFlags { stderr_suppressed: false, stdout_suppressed: false }
    }
}

/// Turns error output off; normal output is left as it was.
pub fn suppress_stderr(flags: &mut OutputFlags)
    ensures
        final(flags).stderr_suppressed,
        final(flags).stdout_suppressed == old(flags).stdout_suppressed,
{
    flags.stderr_suppressed = true;
}

/// Turns normal output off; error output is left as it was.
pub fn suppress_stdout(flags: &mut OutputFlags)
    ensures
        final(flags).stdout_suppressed,
        final(flags).stderr_suppressed == old(flags).stderr_suppressed,
{
    flags.stdout_suppressed = true;
}

/// The error-channel switch: `true` once `suppress_stderr` has run, in which
/// case diagnostics are not written.
pub fn is_stderr_enable(flags: &OutputFlags) -> (r: bool)
    ensures
        r == flags.stderr_suppressed,
{
    flags.stderr_suppressed
}

/// The normal-channel switch: `true` once `suppress_stdout` has run, in which
/// case results are not written.
pub fn is_stdout_enable(flags: &OutputFlags) -> (r: bool)
    ensures
        r == flags.stdout_suppressed,
{
    flags.stdout_suppressed
}

} // verus!
