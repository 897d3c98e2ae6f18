//! The debugging session: a tracee, its breakpoint table, and the
//! phantom-call stack, driven stop by stop.
//!
//! The table is keyed by post-trap instruction pointer: a breakpoint armed
//! at `addr` stops the CPU at `addr + 1`, and every lookup after a stop
//! goes by that address ([`lemma_post_trap_key`]). Resuming from a known
//! breakpoint runs the four-step resume protocol; a stop at a phantom
//! exit first unwinds the topmost phantom frame. Callbacks are the host
//! program's affair: it observes each stop this module reports and may
//! re-enter [`Debugger::cont`].

use vstd::prelude::*;

use std::collections::HashMap;
use std::collections::hash_map::Entry;

use crate::breakpoint::Breakpoint;
use crate::error::DebugError;
use crate::phantom::PhantomManager;
use crate::process::Process;
use crate::registers::{Register, x86_64_Registers};
use crate::status::Status;

verus! {

broadcast use vstd::std_specs::hash::group_hash_axioms;

/// Log nothing.
pub const LOG_SILENT: u32 = 0;

/// Log breakpoint hits.
pub const LOG_BREAKPOINTS: u32 = 1;

/// Log driver commands.
pub const LOG_COMMANDS: u32 = 2;

/// Post-trap keying: a breakpoint installed at `addr` and recorded under
/// `addr + 1` is found again by looking up the post-trap instruction
/// pointer of the stop it causes, and the entry is that breakpoint.
pub proof fn lemma_post_trap_key(t: Map<u64, Breakpoint>, bp: Breakpoint, addr: u64)
    requires
        addr < u64::MAX,
        bp.addr == addr,
    ensures
        t.insert((addr + 1) as u64, bp).contains_key((addr + 1) as u64),
        t.insert((addr + 1) as u64, bp)[(addr + 1) as u64].addr == addr,
{
}

/// One debugging session over one tracee.
pub struct Debugger {
    /// The tracee.
    pub process: Process,
    /// Breakpoints keyed by their post-trap address (`addr + 1`).
    pub breakpoints: HashMap<u64, Breakpoint>,
    /// The traced binary's path, as the host program named it.
    pub file: String,
    /// The argument strings the tracee was started with.
    pub args: Vec<String>,
    /// The post-trap instruction pointer of the most recent stop; `None`
    /// before the first run and after the tracee is gone.
    pub pc: Option<u64>,
    /// Which events the host program wants reported.
    pub log: u32,
    /// The stack of active phantom calls.
    pub phantom_mgr: PhantomManager,
}

impl Debugger {
    /// Whether the session currently stands at a known breakpoint: the
    /// tracee is stopped and the table entry at the stop's post-trap
    /// address is armed or one-shot.
    pub open spec fn spec_current_key(&self) -> Option<u64> {
        match self.pc {
            Some(pc) => if self.breakpoints@.contains_key(pc) && (self.breakpoints@[pc].enabled
                || self.breakpoints@[pc].temporary) {
                Some(pc)
            } else {
                None
            },
            None => None,
        }
    }

    /// Adopts an already spawned-and-stopped tracee: opens its memory
    /// image, reads its entry instruction pointer, and starts with an
    /// empty breakpoint table and phantom stack.
    pub fn new(file: String, args: Vec<String>, pid: i32) -> (r: Result<Debugger, DebugError>)
        ensures
            r matches Ok(d) ==> {
                &&& d.process.pid == pid
                &&& d.breakpoints@ == Map::<u64, Breakpoint>::empty()
                &&& d.phantom_mgr.stack@.len() == 0
                &&& d.pc is Some
                &&& d.file@ == file@
                &&& d.args == args
                &&& d.log == LOG_SILENT
            },
    {
        let process = match Process::new(pid) {
            Ok(p) => p,
            Err(e) => { return Err(e) },
        };
        let regs = match process.getregs() {
            Ok(regs) => regs,
            Err(e) => { return Err(e) },
        };
        Ok(
            Debugger {
                process,
                breakpoints: HashMap::new(),
                file,
                args,
                pc: Some(regs.ip()),
                log: LOG_SILENT,
                phantom_mgr: PhantomManager::new(pid),
            },
        )
    }

    /// Unwinds the topmost phantom frame when the stop happened at one of
    /// its exits, recording the instruction pointer the unwind ends at.
    fn after_stop(&mut self) -> (r: Result<(), DebugError>)
        ensures
            final(self).phantom_mgr.stack@.len() <= old(self).phantom_mgr.stack@.len(),
            final(self).phantom_mgr.stack@.len() + 1 >= old(self).phantom_mgr.stack@.len(),
            final(self).breakpoints@ == old(self).breakpoints@,
            final(self).file == old(self).file,
            final(self).args == old(self).args,
            final(self).log == old(self).log,
            old(self).pc is Some ==> final(self).pc is Some,
            r matches Ok(_) ==> (crate::status::spec_stopped(old(self).process.status.raw())
                ==> crate::status::spec_stopped(final(self).process.status.raw())),
            r matches Err(e) ==> ((e matches DebugError::Status(s)
                && !crate::status::spec_stopped(s.raw())) || e matches DebugError::PTrace(_) || e
                matches DebugError::Error(_)),
    {
        if self.phantom_mgr.is_exit(&self.process) {
            match self.phantom_mgr.clean(&mut self.process) {
                Ok(pc) => {
                    self.pc = Some(pc);
                },
                Err(e) => { return Err(e) },
            }
        }
        Ok(())
    }

    /// First resume: continues the freshly spawned tracee and waits. A
    /// clean exit without any stop hands the binary's path back with the
    /// session no longer running; a stop records the stop's post-trap
    /// instruction pointer.
    pub fn run(&mut self) -> (r: Result<String, DebugError>)
        ensures
            r matches Ok(s) ==> s@ == old(self).file@,
            final(self).breakpoints@ == old(self).breakpoints@,
            r matches Ok(_) ==> (final(self).pc is None <==> crate::status::spec_exited(
                final(self).process.status.raw(),
            )),
            r matches Err(e) ==> (e matches DebugError::Status(s)
                ==> !crate::status::spec_stopped(s.raw())),
    {
        match self.process.cont() {
            Ok(()) => {},
            Err(e) => { return Err(e) },
        }
        match self.process.wait_stop() {
            Ok(pc) => {
                self.pc = Some(pc);
            },
            Err(DebugError::Status(stat)) => {
                if stat.exited() {
                    self.pc = None;
                    return Ok(clone_string(&self.file));
                } else {
                    return Err(DebugError::Status(stat));
                }
            },
            Err(e) => { return Err(e) },
        }
        match self.after_stop() {
            Ok(()) => {},
            Err(e) => { return Err(e) },
        }
        proof {
            crate::status::lemma_status_kinds(self.process.status.raw());
        }
        Ok(clone_string(&self.file))
    }

    /// Installs a breakpoint at `addr` and records it under the post-trap
    /// key `addr + 1`. An address that already has a table entry is
    /// refused, so no site carries two breakpoints.
    pub fn breakpoint(&mut self, addr: u64) -> (r: Result<(), DebugError>)
        requires
            addr < u64::MAX,
        ensures
            final(self).pc == old(self).pc,
            final(self).process == old(self).process,
            r matches Err(_) ==> final(self).breakpoints@ == old(self).breakpoints@,
            old(self).breakpoints@.contains_key((addr + 1) as u64) ==> r matches Err(_),
            r matches Ok(_) ==> {
                &&& !old(self).breakpoints@.contains_key((addr + 1) as u64)
                &&& final(self).breakpoints@.contains_key((addr + 1) as u64)
                &&& final(self).breakpoints@[(addr + 1) as u64].addr == addr
                &&& final(self).breakpoints@[(addr + 1) as u64].enabled
                &&& !final(self).breakpoints@[(addr + 1) as u64].temporary
                &&& final(self).breakpoints@ == old(self).breakpoints@.insert(
                    (addr + 1) as u64,
                    final(self).breakpoints@[(addr + 1) as u64],
                )
            },
    {
        if self.breakpoints.contains_key(&(addr + 1)) {
            return Err(DebugError::Error("breakpoint already exists at given address"));
        }
        let name = crate::manager::dec_string(self.breakpoints.len() as u64);
        let bp = match Breakpoint::new(name, self.process.pid, addr) {
            Ok(bp) => bp,
            Err(e) => { return Err(e) },
        };
        self.breakpoints.insert(addr + 1, bp);
        Ok(())
    }

    /// Installs a one-shot breakpoint at `addr`: it stays in the table
    /// under `addr + 1` to be recognized on its single hit, after which
    /// the resume protocol consumes it instead of re-arming it. An
    /// address that already has a table entry is refused.
    pub fn tmp_breakpoint(&mut self, addr: u64) -> (r: Result<(), DebugError>)
        requires
            addr < u64::MAX,
        ensures
            final(self).pc == old(self).pc,
            final(self).process == old(self).process,
            r matches Err(_) ==> final(self).breakpoints@ == old(self).breakpoints@,
            old(self).breakpoints@.contains_key((addr + 1) as u64) ==> r matches Err(_),
            r matches Ok(_) ==> {
                &&& !old(self).breakpoints@.contains_key((addr + 1) as u64)
                &&& final(self).breakpoints@.contains_key((addr + 1) as u64)
                &&& final(self).breakpoints@[(addr + 1) as u64].addr == addr
                &&& final(self).breakpoints@[(addr + 1) as u64].temporary
                &&& final(self).breakpoints@ == old(self).breakpoints@.insert(
                    (addr + 1) as u64,
                    final(self).breakpoints@[(addr + 1) as u64],
                )
            },
    {
        if self.breakpoints.contains_key(&(addr + 1)) {
            return Err(DebugError::Error("breakpoint already exists at given address"));
        }
        let name = crate::manager::dec_string(self.breakpoints.len() as u64);
        let mut bp = match Breakpoint::new(name, self.process.pid, addr) {
            Ok(bp) => bp,
            Err(e) => { return Err(e) },
        };
        bp.temporary(true);
        self.breakpoints.insert(addr + 1, bp);
        Ok(())
    }

    /// Interprets a wait status that interrupted a resume: a clean exit
    /// ends the session with no stop to report; SIGTRAP away from every
    /// known breakpoint is [`DebugError::SpuriousTrap`]; anything else is
    /// the status itself.
    fn handle_status(&mut self, status: Status) -> (r: Result<Option<u64>, DebugError>)
        ensures
            r matches Ok(p) ==> p is None && final(self).pc is None,
            final(self).breakpoints@ == old(self).breakpoints@,
            final(self).phantom_mgr.stack@ == old(self).phantom_mgr.stack@,
            final(self).process == old(self).process,
            crate::status::spec_exited(status.raw()) ==> (r matches Ok(p) && p is None
                && final(self).pc is None),
            (!crate::status::spec_exited(status.raw()) && crate::status::spec_trapped(
                status.raw(),
            )) ==> (r matches Err(e) && e matches DebugError::SpuriousTrap && *final(self)
                == *old(self)),
            (!crate::status::spec_exited(status.raw()) && !crate::status::spec_trapped(
                status.raw(),
            )) ==> (r matches Err(e) && e matches DebugError::Status(s) && s == status && *final(
                self) == *old(self)),
    {
        if status.exited() {
            self.pc = None;
            Ok(None)
        } else if status.trapped() {
            Err(DebugError::SpuriousTrap)
        } else {
            Err(DebugError::Status(status))
        }
    }

    /// The central driver. At a known breakpoint, runs the four-step
    /// resume protocol; elsewhere, continues the tracee raw and waits.
    /// Hands back the post-trap instruction pointer of the next stop, or
    /// `None` when the tracee exited. The table keeps its keys.
    pub fn cont(&mut self) -> (r: Result<Option<u64>, DebugError>)
        ensures
            final(self).breakpoints@.dom() == old(self).breakpoints@.dom(),
            r matches Ok(p) ==> p == final(self).pc,
            r matches Ok(p) ==> (p is None <==> crate::status::spec_exited(
                final(self).process.status.raw(),
            )),
            r matches Err(e) ==> (e matches DebugError::SpuriousTrap
                ==> !crate::status::spec_exited(final(self).process.status.raw())
                    && crate::status::spec_trapped(final(self).process.status.raw())),
            r matches Err(e) ==> !(e matches DebugError::NoBreakpoint),
    {
        let key = match self.current_key() {
            Some(key) => key,
            None => {
                // Not stopped at a known breakpoint: raw continue.
                match self.process.cont() {
                    Ok(()) => {},
                    Err(e) => { return Err(e) },
                }
                let ip = match self.process.wait_stop() {
                    Ok(ip) => ip,
                    Err(DebugError::Status(stat)) => { return self.handle_status(stat) },
                    Err(e) => { return Err(e) },
                };
                self.pc = Some(ip);
                match self.after_stop() {
                    Ok(()) => {},
                    Err(e) => { return Err(e) },
                }
                proof {
                    crate::status::lemma_status_kinds(self.process.status.raw());
                }
                return Ok(self.pc);
            },
        };
        let mut bp = match self.breakpoints.remove(&key) {
            Some(bp) => bp,
            None => { return Err(DebugError::NoBreakpoint) },
        };
        let res = bp.cont();
        // The resume drove the tracee through the breakpoint's own
        // handle; adopt the status it observed as the session's.
        self.process.status = bp.process.status;
        self.breakpoints.insert(key, bp);
        proof {
            assert(self.breakpoints@.dom() =~= old(self).breakpoints@.dom());
        }
        match res {
            Ok(pc) => {
                self.pc = Some(pc);
                match self.after_stop() {
                    Ok(()) => {},
                    Err(e) => { return Err(e) },
                }
                proof {
                    crate::status::lemma_status_kinds(self.process.status.raw());
                }
                Ok(self.pc)
            },
            Err(DebugError::Status(stat)) => self.handle_status(stat),
            Err(e) => Err(e),
        }
    }

    /// The table key of the breakpoint the session currently stands at,
    /// by [`Debugger::spec_current_key`].
    fn current_key(&self) -> (r: Option<u64>)
        ensures
            r == self.spec_current_key(),
    {
        let pc = match self.pc {
            Some(pc) => pc,
            None => { return None },
        };
        match self.breakpoints.get(&pc) {
            Some(bp) => if bp.is_enabled() || bp.is_temporary() {
                Some(pc)
            } else {
                None
            },
            None => None,
        }
    }

    /// Steps the tracee one instruction and waits for the resulting
    /// stop, recording its instruction pointer.
    pub fn single_step(&mut self) -> (r: Result<Option<u64>, DebugError>)
        ensures
            final(self).breakpoints@ == old(self).breakpoints@,
            r matches Ok(p) ==> p is Some && p == final(self).pc,
    {
        match self.process.step() {
            Ok(()) => {},
            Err(e) => { return Err(e) },
        }
        let ip = match self.process.wait_stop() {
            Ok(ip) => ip,
            Err(e) => { return Err(e) },
        };
        self.pc = Some(ip);
        match self.after_stop() {
            Ok(()) => {},
            Err(e) => { return Err(e) },
        }
        Ok(self.pc)
    }

    /// Synthesizes a call to `addr` in the tracee: marshals `args` per
    /// the calling convention, snapshots the registers, pushes a phantom
    /// frame whose one-shot breakpoints sit at `exits`, writes the
    /// argument registers (control registers masked), and redirects the
    /// stopped tracee into the callee. Requires standing at a known
    /// breakpoint.
    pub fn phantom_call(&mut self, addr: u64, args: Vec<u64>, exits: Vec<u64>) -> (r: Result<
        Option<u64>,
        DebugError,
    >)
        ensures
            final(self).breakpoints@.dom() == old(self).breakpoints@.dom(),
            final(self).phantom_mgr.stack@.len() >= old(self).phantom_mgr.stack@.len(),
            r matches Ok(p) ==> p is Some && p == final(self).pc,
            old(self).spec_current_key() is None ==> r matches Err(_),
            r matches Err(e) ==> (e matches DebugError::NoBreakpoint ==> old(
                self).spec_current_key() is None),
    {
        let arg_regs = match x86_64_Registers::from_process(&self.process, &args) {
            Ok(regs) => regs,
            Err(e) => { return Err(e) },
        };
        let reset = match self.process.getregs() {
            Ok(regs) => regs,
            Err(e) => { return Err(e) },
        };
        match self.phantom_mgr.push(reset, exits) {
            Ok(()) => {},
            Err(e) => { return Err(e) },
        }
        match self.process.setregs_user(&arg_regs) {
            Ok(()) => {},
            Err(e) => { return Err(e) },
        }
        let key = match self.current_key() {
            Some(key) => key,
            None => { return Err(DebugError::NoBreakpoint) },
        };
        let mut bp = match self.breakpoints.remove(&key) {
            Some(bp) => bp,
            None => { return Err(DebugError::NoBreakpoint) },
        };
        let res = bp.phantom_call(addr);
        self.breakpoints.insert(key, bp);
        proof {
            assert(self.breakpoints@.dom() =~= old(self).breakpoints@.dom());
        }
        let pc = match res {
            Ok(pc) => pc,
            Err(e) => { return Err(e) },
        };
        self.pc = Some(pc);
        match self.after_stop() {
            Ok(()) => {},
            Err(e) => { return Err(e) },
        }
        Ok(self.pc)
    }

    /// Whether the session currently stands at a known breakpoint.
    pub fn at_breakpoint(&self) -> (r: bool)
        ensures
            r == (self.spec_current_key() is Some),
    {
        match self.current_key() {
            Some(_) => true,
            None => false,
        }
    }

    /// The breakpoint whose trap caused the current stop. Fails when the
    /// session is not running or no armed or one-shot breakpoint owns
    /// the stop address.
    pub fn current_breakpoint(&self) -> (r: Result<&Breakpoint, DebugError>)
        ensures
            r matches Ok(bp) ==> {
                &&& self.spec_current_key() matches Some(pc)
                &&& self.breakpoints@.contains_key(pc)
                &&& *bp == self.breakpoints@[pc]
            },
            self.spec_current_key() matches Some(pc) ==> (r matches Ok(bp) && *bp
                == self.breakpoints@[pc]),
            self.spec_current_key() is None ==> r matches Err(_),
    {
        let pc = match self.pc {
            Some(pc) => pc,
            None => { return Err(DebugError::Error("program is not currently running")) },
        };
        match self.breakpoint_at(pc) {
            Some(bp) => Ok(bp),
            None => Err(DebugError::NoBreakpoint),
        }
    }

    /// The table entry whose post-trap address is `addr`, provided it is
    /// armed or one-shot: a disarmed breakpoint matches only while it
    /// waits to be consumed.
    pub fn breakpoint_at(&self, addr: u64) -> (r: Option<&Breakpoint>)
        ensures
            r matches Some(bp) ==> self.breakpoints@.contains_key(addr) && *bp
                == self.breakpoints@[addr] && (bp.enabled || bp.temporary),
            r is None ==> !self.breakpoints@.contains_key(addr) || (!self.breakpoints@[addr].enabled
                && !self.breakpoints@[addr].temporary),
    {
        match self.breakpoints.get(&addr) {
            Some(bp) => if bp.is_enabled() || bp.is_temporary() {
                Some(bp)
            } else {
                None
            },
            None => None,
        }
    }

    /// Exclusive access to the table entry whose post-trap address is
    /// `addr`, provided it is armed: the table afterwards holds whatever
    /// the caller made of the entry.
    pub fn breakpoint_at_mut(&mut self, addr: u64) -> (r: Option<&mut Breakpoint>)
        ensures
            final(self).pc == old(self).pc,
            final(self).process == old(self).process,
            final(self).phantom_mgr.stack@ == old(self).phantom_mgr.stack@,
            r matches Some(bp) ==> {
                &&& old(self).breakpoints@.contains_key(addr)
                &&& *bp == old(self).breakpoints@[addr]
                &&& bp.enabled
                &&& final(self).breakpoints@ == old(self).breakpoints@.insert(addr, *final(bp))
            },
            r is None ==> final(self).breakpoints@ == old(self).breakpoints@ && (!old(
                self,
            ).breakpoints@.contains_key(addr) || !old(self).breakpoints@[addr].enabled),
    {
        let ghost old_map = self.breakpoints@;
        match self.breakpoints.entry(addr) {
            Entry::Occupied(e) => {
                if e.get().is_enabled() {
                    Some(e.into_mut())
                } else {
                    proof {
                        assert(old_map.insert(addr, old_map[addr]) =~= old_map);
                    }
                    None
                }
            },
            Entry::Vacant(_) => {
                proof {
                    assert(old_map.remove(addr) =~= old_map);
                }
                None
            },
        }
    }

    /// Exclusive access to the breakpoint whose trap caused the current
    /// stop. Fails when the session is not running or no armed
    /// breakpoint owns the stop address, and then leaves the table
    /// unchanged.
    pub fn current_breakpoint_mut(&mut self) -> (r: Result<&mut Breakpoint, DebugError>)
        ensures
            final(self).pc == old(self).pc,
            final(self).process == old(self).process,
            r matches Ok(bp) ==> {
                &&& old(self).pc matches Some(pc)
                &&& old(self).breakpoints@.contains_key(pc)
                &&& *bp == old(self).breakpoints@[pc]
                &&& final(self).breakpoints@ == old(self).breakpoints@.insert(pc, *final(bp))
            },
            r matches Err(_) ==> final(self).breakpoints@ == old(self).breakpoints@,
            old(self).pc is None ==> r matches Err(_),
            old(self).pc matches Some(pc) ==> (old(self).breakpoints@.contains_key(pc) && old(
                self).breakpoints@[pc].enabled) ==> r matches Ok(_),
    {
        let pc = match self.pc {
            Some(pc) => pc,
            None => { return Err(DebugError::Error("program is not currently running")) },
        };
        match self.breakpoint_at_mut(pc) {
            Some(bp) => Ok(bp),
            None => Err(DebugError::NoBreakpoint),
        }
    }
}

/// An owned copy of a string.
fn clone_string(s: &String) -> (r: String)
    ensures
        r@ == s@,
{
    s.clone()
}

} // verus!
