//! Debug and trace reporting state.
//!
//! The flags are carried in a value that the embedding program threads to
//! wherever reporting decisions are made; reads and writes are ordinary
//! field accesses, so the contracts pin the state exactly.

use vstd::prelude::*;

verus! {

/// Whether debug and trace reporting are switched on.
pub struct DebugFlags {
    /// Debug reporting is on.
    pub debug: bool,
    /// Trace reporting is on.
    pub trace: bool,
}

impl DebugFlags {
    /// Fresh flags: both kinds of reporting are off.
    pub fn new() -> (r: DebugFlags)
        ensures
            !r.debug,
            !r.trace,
    {
        DebugFlags { debug: false, trace: false }
    }
}

/// Switch debug reporting on.
pub fn enable(flags: &mut DebugFlags)
    ensures
        final(flags).debug,
        final(flags).trace == old(flags).trace,
{
    flags.debug = true;
}

/// Whether debug reporting is on.
pub fn is_enabled(flags: &DebugFlags) -> (r: bool)
    ensures
        r == flags.debug,
{
    flags.debug
}

/// Switch trace reporting on.
pub fn enable_trace(flags: &mut DebugFlags)
    ensures
        final(flags).trace,
        final(flags).debug == old(flags).debug,
{
    flags.trace = true;
}

/// Whether trace reporting is on.
pub fn is_trace_enabled(flags: &DebugFlags) -> (r: bool)
    ensures
        r == flags.trace,
{
    flags.trace
}

/// Switch debug reporting off.
pub fn disable(flags: &mut DebugFlags)
    ensures
        !final(flags).debug,
        final(flags).trace == old(flags).trace,
{
    flags.debug = false;
}

/// Switch trace reporting off.
pub fn disable_trace(flags: &mut DebugFlags)
    ensures
        !final(flags).trace,
        final(flags).debug == old(flags).debug,
{
    flags.trace = false;
}

} // verus!
