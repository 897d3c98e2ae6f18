//! A programmable debugger engine for Linux x86-64 processes traced through
//! the kernel's process-tracing facility.
//!
//! The engine lets a host program install software breakpoints in a stopped
//! tracee, react to stops, read and write the tracee's memory through its
//! `/proc` surface, and perform phantom calls: synthesized invocations of
//! functions inside the tracee that return transparently to the interrupted
//! point.
#![allow(non_camel_case_types)]

pub mod breakpoint;
pub mod debugger;
pub mod error;
pub mod manager;
pub mod memory;
pub mod phantom;
pub mod process;
pub mod registers;
pub mod status;
