//! The engine's error taxonomy.
//!
//! Low-level trace syscalls surface [`DebugError::PTrace`] with the raw
//! `errno`; a wait that did not end in a plain stop surfaces the offending
//! [`Status`]; `/proc` file operations surface [`DebugError::IOError`];
//! memory accesses outside any permitting window surface
//! [`DebugError::Unmapped`]; a SIGTRAP with no matching breakpoint surfaces
//! [`DebugError::SpuriousTrap`]; and static-string preconditions fall back to
//! [`DebugError::Error`].

use vstd::prelude::*;

use crate::status::Status;

verus! {

/// Everything that can go wrong while driving a tracee.
#[derive(Debug, Clone, Copy)]
pub enum DebugError {
    /// A kernel trace syscall failed; carries the errno.
    PTrace(i32),
    /// The tracee stopped with a status that is not a plain stop.
    Status(Status),
    /// A `/proc` file open, read or write failed; carries the errno.
    IOError(i32),
    /// A memory access fell outside every permitting mapped window.
    Unmapped,
    /// The tracee reported SIGTRAP at an address with no known breakpoint.
    SpuriousTrap,
    /// The session was asked for its current breakpoint while it has none.
    NoBreakpoint,
    /// A line of the tracee's mapping table could not be decoded.
    Parse,
    /// A static description of a failed precondition.
    Error(&'static str),
}

impl DebugError {
    /// A human-readable account of the error.
    pub fn description(&self) -> String {
        match self {
            DebugError::PTrace(_) => "trace syscall failed".to_owned(),
            DebugError::Status(status) => status.to_string(),
            DebugError::IOError(_) => "proc file operation failed".to_owned(),
            DebugError::Unmapped => "address is not mapped in memory".to_owned(),
            DebugError::SpuriousTrap => "received SIGTRAP but not at a known breakpoint".to_owned(),
            DebugError::NoBreakpoint => "no breakpoint at the current address".to_owned(),
            DebugError::Parse => "could not decode a mapping table line".to_owned(),
            DebugError::Error(e) => (*e).to_owned(),
        }
    }
}

} // verus!
