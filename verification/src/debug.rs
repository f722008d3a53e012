//! The run's verbosity: an explicit flag value threaded through a run's
//! construction rather than a process-wide global.

use vstd::prelude::*;

verus! {

/// Whether a run prints diagnostic output.
#[derive(Clone, Copy, PartialEq, Eq, Structural, Debug)]
pub struct DebugFlag {
    pub enabled: bool,
}

impl Default for DebugFlag {
    /// Diagnostics are off unless asked for.
    fn default() -> (r: DebugFlag)
        ensures
            !r.enabled,
    {
        DebugFlag { enabled: false }
    }
}

/// Turns diagnostic output on or off.
pub fn set_debug(flag: &mut DebugFlag, enabled: bool)
    ensures
        final(flag).enabled == enabled,
{
    flag.enabled = enabled;
}

/// Whether diagnostic output is on.
pub fn is_debug_enabled(flag: &DebugFlag) -> (r: bool)
    ensures
        r == flag.enabled,
{
    flag.enabled
}

} // verus!
