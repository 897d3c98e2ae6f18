//! A table of breakpoints keyed by post-trap instruction pointer.
//!
//! A breakpoint armed at `addr` stops the CPU at `addr + 1`, so the table
//! keys every entry by that post-trap address: after a stop, the current
//! breakpoint is found by looking the stopped instruction pointer up
//! directly. Two breakpoints at the same address are refused.

use vstd::prelude::*;

use std::collections::HashMap;
use std::collections::hash_map::Entry;

use crate::breakpoint::Breakpoint;
use crate::error::DebugError;

verus! {

broadcast use vstd::std_specs::hash::group_hash_axioms;

/// Renders `n` in decimal.
pub(crate) fn dec_string(n: u64) -> String {
    let mut digits: Vec<u64> = Vec::new();
    let mut rest: u64 = n;
    loop
        invariant_except_break
            true,
        decreases rest,
    {
        digits.push(rest % 10);
        rest = rest / 10;
        if rest == 0 {
            break;
        }
    }
    let mut s = String::new();
    let mut i: usize = digits.len();
    while i > 0
        invariant
            i <= digits@.len(),
        decreases i,
    {
        i = i - 1;
        let d = digits[i];
        s.append(
            if d == 0 {
                "0"
            } else if d == 1 {
                "1"
            } else if d == 2 {
                "2"
            } else if d == 3 {
                "3"
            } else if d == 4 {
                "4"
            } else if d == 5 {
                "5"
            } else if d == 6 {
                "6"
            } else if d == 7 {
                "7"
            } else if d == 8 {
                "8"
            } else {
                "9"
            },
        );
    }
    s
}

/// The breakpoint table of one tracee, with the session's current
/// post-trap instruction pointer.
pub struct Manager {
    /// The tracee's process id.
    pub pid: usize,
    /// The post-trap instruction pointer of the most recent stop, if the
    /// tracee is stopped.
    pub pc: Option<u64>,
    /// Breakpoints keyed by their post-trap address (`addr + 1`).
    pub breakpoints: HashMap<u64, Breakpoint>,
}

impl Manager {
    /// An empty table for the given tracee.
    pub fn new(pid: usize, pc: Option<u64>) -> (r: Self)
        ensures
            r.pid == pid,
            r.pc == pc,
            r.breakpoints@ == Map::<u64, Breakpoint>::empty(),
    {
        Manager { pid, pc, breakpoints: HashMap::new() }
    }

    /// Installs a breakpoint at `addr` and records it under the post-trap
    /// key `addr + 1`. Refuses an address that already has one; fails
    /// when the tracee cannot be reached or the trap cannot be armed, and
    /// then leaves the table unchanged.
    pub fn set(&mut self, addr: u64) -> (r: Result<(), DebugError>)
        requires
            addr < u64::MAX,
        ensures
            final(self).pid == old(self).pid,
            final(self).pc == old(self).pc,
            old(self).breakpoints@.contains_key((addr + 1) as u64) ==> (r matches Err(_)
                && final(self).breakpoints@ == old(self).breakpoints@),
            r matches Err(_) ==> final(self).breakpoints@ == old(self).breakpoints@,
            r matches Ok(_) ==> {
                &&& !old(self).breakpoints@.contains_key((addr + 1) as u64)
                &&& final(self).breakpoints@.contains_key((addr + 1) as u64)
                &&& final(self).breakpoints@[(addr + 1) as u64].addr == addr
                &&& final(self).breakpoints@[(addr + 1) as u64].enabled
                &&& !final(self).breakpoints@[(addr + 1) as u64].temporary
                &&& final(self).breakpoints@ == old(self).breakpoints@.insert(
                    (addr + 1) as u64,
                    final(self).breakpoints@[(addr + 1) as u64],
                )
            },
    {
        if self.breakpoints.contains_key(&(addr + 1)) {
            return Err(DebugError::Error("breakpoint already exists at given address"));
        }
        if self.pid > i32::MAX as usize {
            return Err(DebugError::Error("process id out of range"));
        }
        let mut name = "breakpoint ".to_owned();
        name.append(dec_string(self.breakpoints.len() as u64).as_str());
        let bp = match Breakpoint::new(name, self.pid as i32, addr) {
            Ok(bp) => bp,
            Err(e) => { return Err(e) },
        };
        self.breakpoints.insert(addr + 1, bp);
        Ok(())
    }

    /// The breakpoint armed at `addr`, if the table holds one.
    pub fn at(&self, addr: u64) -> (r: Option<&Breakpoint>)
        ensures
            r matches Some(bp) ==> addr < u64::MAX && self.breakpoints@.contains_key(
                (addr + 1) as u64,
            ) && *bp == self.breakpoints@[(addr + 1) as u64],
            r is None ==> addr == u64::MAX || !self.breakpoints@.contains_key((addr + 1) as u64),
    {
        if addr == u64::MAX {
            return None;
        }
        self.breakpoints.get(&(addr + 1))
    }

    /// Exclusive access to the breakpoint armed at `addr`, if the table
    /// holds one: the table afterwards holds whatever the caller made of
    /// the entry.
    pub fn at_mut(&mut self, addr: u64) -> (r: Option<&mut Breakpoint>)
        ensures
            final(self).pid == old(self).pid,
            final(self).pc == old(self).pc,
            r matches Some(bp) ==> {
                &&& addr < u64::MAX
                &&& old(self).breakpoints@.contains_key((addr + 1) as u64)
                &&& *bp == old(self).breakpoints@[(addr + 1) as u64]
                &&& final(self).breakpoints@ == old(self).breakpoints@.insert(
                    (addr + 1) as u64,
                    *final(bp),
                )
            },
            r is None ==> (addr == u64::MAX || !old(self).breakpoints@.contains_key(
                (addr + 1) as u64,
            )) && final(self).breakpoints@ == old(self).breakpoints@,
    {
        if addr == u64::MAX {
            return None;
        }
        let ghost old_map = self.breakpoints@;
        match self.breakpoints.entry(addr + 1) {
            Entry::Occupied(e) => Some(e.into_mut()),
            Entry::Vacant(_) => {
                proof {
                    assert(old_map.remove((addr + 1) as u64) =~= old_map);
                }
                None
            },
        }
    }

    /// The breakpoint whose trap caused the current stop: the table entry
    /// at the current post-trap instruction pointer. Fails when the
    /// tracee is not stopped, or no breakpoint owns the stop address.
    pub fn current(&self) -> (r: Result<Option<&Breakpoint>, DebugError>)
        ensures
            r matches Ok(b) ==> {
                &&& b matches Some(bp)
                &&& self.pc matches Some(pc)
                &&& pc >= 1
                &&& self.breakpoints@.contains_key(pc)
                &&& *bp == self.breakpoints@[pc]
            },
            self.pc matches Some(pc) ==> (pc >= 1 && self.breakpoints@.contains_key(pc)) ==> (r
                matches Ok(b) && b matches Some(bp) && *bp == self.breakpoints@[pc]),
            self.pc is None ==> r matches Err(_),
            self.pc == Some(0u64) ==> r matches Err(_),
            (self.pc matches Some(pc) && pc >= 1 && !self.breakpoints@.contains_key(pc))
                ==> r matches Err(_),
    {
        if let Some(pc) = self.pc {
            if pc == 0 {
                return Err(DebugError::NoBreakpoint);
            }
            match self.at(pc - 1) {
                Some(bp) => Ok(Some(bp)),
                None => Err(DebugError::NoBreakpoint),
            }
        } else {
            Err(DebugError::Error("program is not currently running"))
        }
    }

    /// Exclusive access to the breakpoint whose trap caused the current
    /// stop. Fails when the tracee is not stopped, or no breakpoint owns
    /// the stop address, and then leaves the table unchanged.
    pub fn current_mut(&mut self) -> (r: Result<Option<&mut Breakpoint>, DebugError>)
        ensures
            final(self).pid == old(self).pid,
            final(self).pc == old(self).pc,
            r matches Ok(b) ==> {
                &&& b matches Some(bp)
                &&& old(self).pc matches Some(pc)
                &&& pc >= 1
                &&& old(self).breakpoints@.contains_key(pc)
                &&& *bp == old(self).breakpoints@[pc]
                &&& final(self).breakpoints@ == old(self).breakpoints@.insert(pc, *final(bp))
            },
            r matches Err(_) ==> final(self).breakpoints@ == old(self).breakpoints@,
            old(self).pc is None ==> r matches Err(_),
            old(self).pc == Some(0u64) ==> r matches Err(_),
            old(self).pc matches Some(pc) ==> (pc >= 1 && old(self).breakpoints@.contains_key(
                pc)) ==> r matches Ok(_),
    {
        let pc = match self.pc {
            Some(pc) => pc,
            None => { return Err(DebugError::Error("program is not currently running")) },
        };
        if pc == 0 {
            return Err(DebugError::NoBreakpoint);
        }
        match self.at_mut(pc - 1) {
            Some(bp) => Ok(Some(bp)),
            None => Err(DebugError::NoBreakpoint),
        }
    }
}

} // verus!
