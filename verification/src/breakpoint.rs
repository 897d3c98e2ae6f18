//! A single software breakpoint: one address in the tracee whose
//! instruction byte is swapped for the trap opcode.
//!
//! Installing reads the word at the address, stores it as `restore`, and
//! rewrites its low byte with the trap opcode; the CPU then stops at
//! `addr + 1` after executing the one-byte trap. Resuming from a hit is the
//! four-step protocol [`Breakpoint::cont`]: restore the byte, rewind the
//! instruction pointer, single-step, re-arm, continue.
//! [`lemma_breakpoint_round_trip`] states the round-trip law: installing
//! and disarming leaves the word at the address exactly as it was.

use vstd::prelude::*;

use crate::error::DebugError;
use crate::process::{spec_merge_bits, Process};
use crate::registers::{Register, x86_64_Registers};

verus! {

/// The one-byte trap opcode of the target ISA (INT3 on x86-64).
pub const TRAP_OPCODE: u64 = 0xcc;

/// How many bits of the word the trap opcode replaces.
pub const TRAP_BITS: u64 = 8;

/// How far past the trap the CPU stops: the post-trap instruction
/// pointer is `addr + TRAP_DELTA`.
pub const TRAP_DELTA: u64 = 1;

/// A software breakpoint armed (or disarmable) in the tracee.
#[derive(Debug, Clone)]
pub struct Breakpoint {
    /// The address whose instruction byte is replaced.
    pub addr: u64,
    /// A human-readable label; not required to be unique.
    pub name: String,
    /// Whether the trap byte is currently present in the tracee.
    pub enabled: bool,
    /// Whether the breakpoint is one-shot: consumed on its first hit.
    pub temporary: bool,
    /// The tracee the trap lives in.
    pub process: Process,
    /// The original word whose low byte the trap opcode replaced.
    pub restore: u64,
}

impl PartialEq for Breakpoint {
    /// Two breakpoints are the same iff they share tracee, address and
    /// name.
    fn eq(&self, other: &Breakpoint) -> bool {
        self.addr == other.addr && self.name == other.name && self.process.pid
            == other.process.pid
    }
}

impl vstd::std_specs::cmp::PartialEqSpecImpl for Breakpoint {
    open spec fn obeys_eq_spec() -> bool {
        true
    }

    open spec fn eq_spec(&self, other: &Breakpoint) -> bool {
        self.addr == other.addr && self.name@ == other.name@ && self.process.pid
            == other.process.pid
    }
}

impl Eq for Breakpoint {

}

/// The word an installed breakpoint leaves at its address: the original
/// word with the trap opcode merged into its low byte.
pub open spec fn spec_trapped_word(w: u64) -> u64 {
    spec_merge_bits(w, TRAP_OPCODE as u64, TRAP_BITS as u64)
}

/// The breakpoint round-trip law. Over a word-addressed model of the
/// tracee's memory: installing a breakpoint at `a` (merging the trap
/// opcode into the word's low byte) and then disarming it (writing the
/// observed original word back) leaves the memory exactly as it was.
/// While installed, the low byte at `a` is the trap opcode and everything
/// above it is the original word's.
pub proof fn lemma_breakpoint_round_trip(mem: Map<u64, u64>, a: u64)
    requires
        mem.dom().contains(a),
    ensures
        mem.insert(a, spec_trapped_word(mem[a])).insert(a, mem[a]) == mem,
        spec_trapped_word(mem[a]) & 0xff == TRAP_OPCODE,
        spec_trapped_word(mem[a]) >> 8 == mem[a] >> 8,
{
    let w = mem[a];
    crate::process::lemma_merge_byte(w, TRAP_OPCODE as u64);
    assert(TRAP_OPCODE as u64 & 0xff == 0xcc) by (bit_vector);
    assert(mem.insert(a, spec_trapped_word(w)).insert(a, w) =~= mem);
}

impl Breakpoint {
    /// Installs a breakpoint at `addr` in the process `pid`: opens the
    /// tracee, reads the original word, and arms the trap byte. The
    /// returned breakpoint is enabled, not temporary, and remembers the
    /// original word.
    pub fn new(name: String, pid: i32, addr: u64) -> (r: Result<Breakpoint, DebugError>)
        ensures
            r matches Ok(bp) ==> {
                &&& bp.addr == addr
                &&& bp.name@ == name@
                &&& bp.enabled
                &&& !bp.temporary
                &&& bp.process.pid == pid
            },
            r matches Err(e) ==> (e matches DebugError::IOError(_) || e
                matches DebugError::Unmapped),
    {
        let process = match Process::new(pid) {
            Ok(p) => p,
            Err(e) => { return Err(e) },
        };
        let mut bp = Breakpoint {
            process,
            addr,
            restore: 0,
            enabled: true,
            temporary: false,
            name,
        };
        let data = match bp.trap() {
            Ok(data) => data,
            Err(e) => { return Err(e) },
        };
        bp.restore = data;
        Ok(bp)
    }

    /// Ends a chain of builder calls with a shared borrow.
    pub fn finish(&mut self) -> (r: &Breakpoint)
        ensures
            *final(self) == *old(self),
            *r == *old(self),
    {
        self
    }

    /// Relabels the breakpoint.
    pub fn name(&mut self, name: &'static str) -> (r: &mut Breakpoint)
        ensures
            r.name@ == name@,
            r.addr == old(self).addr,
            r.enabled == old(self).enabled,
            r.temporary == old(self).temporary,
            r.process == old(self).process,
            r.restore == old(self).restore,
            *final(self) == *final(r),
    {
        self.name = name.to_owned();
        self
    }

    /// Reads the word at the breakpoint's address and arms the trap byte
    /// over it. Hands back the word as it was before the trap byte was
    /// merged in.
    pub fn trap(&mut self) -> (r: Result<u64, DebugError>)
        ensures
            final(self).addr == old(self).addr,
            final(self).name == old(self).name,
            final(self).temporary == old(self).temporary,
            final(self).restore == old(self).restore,
            final(self).process == old(self).process,
            r matches Ok(_) ==> final(self).enabled,
            r matches Err(e) ==> final(self).enabled == old(self).enabled && (e
                matches DebugError::Unmapped || e matches DebugError::IOError(_)),
    {
        let data = match self.process.peek(self.addr) {
            Ok(data) => data,
            Err(e) => { return Err(e) },
        };
        match self.process.poke_bits(self.addr, TRAP_OPCODE, TRAP_BITS) {
            Ok(()) => {},
            Err(e) => { return Err(e) },
        }
        self.enabled = true;
        Ok(data)
    }

    /// Whether the trap byte is currently present in the tracee.
    pub fn is_enabled(&self) -> (r: bool)
        ensures
            r == self.enabled,
    {
        self.enabled
    }

    /// Whether the breakpoint is one-shot.
    pub fn is_temporary(&self) -> (r: bool)
        ensures
            r == self.temporary,
    {
        self.temporary
    }

    /// Arms or disarms the trap byte: arming re-reads and re-traps the
    /// word, disarming writes the original word back.
    pub fn enabled(&mut self, e: bool) -> (r: Result<&mut Breakpoint, DebugError>)
        ensures
            r matches Ok(bp) ==> {
                &&& bp.addr == old(self).addr
                &&& bp.name == old(self).name
                &&& bp.temporary == old(self).temporary
                &&& bp.restore == old(self).restore
                &&& bp.process == old(self).process
                &&& bp.enabled == e
                &&& *final(self) == *final(bp)
            },
            r matches Err(_) ==> {
                &&& final(self).addr == old(self).addr
                &&& final(self).name == old(self).name
                &&& final(self).temporary == old(self).temporary
                &&& final(self).restore == old(self).restore
                &&& final(self).process == old(self).process
                &&& final(self).enabled == old(self).enabled
            },
    {
        if e {
            match self.trap() {
                Ok(_) => {},
                Err(err) => { return Err(err) },
            }
        } else {
            match self.process.poke(self.addr, self.restore) {
                Ok(()) => {},
                Err(err) => { return Err(err) },
            }
        }
        self.enabled = e;
        Ok(self)
    }

    /// Marks the breakpoint one-shot (or permanent again). The armed
    /// state is untouched: `enabled` tracks only whether the trap byte is
    /// present in the tracee, and a one-shot hit clears it during the
    /// resume that consumes the breakpoint.
    pub fn temporary(&mut self, e: bool) -> (r: &mut Breakpoint)
        ensures
            r.temporary == e,
            r.addr == old(self).addr,
            r.name == old(self).name,
            r.restore == old(self).restore,
            r.process == old(self).process,
            r.enabled == old(self).enabled,
            *final(self) == *final(r),
    {
        self.temporary = e;
        self
    }

    /// Disarms the trap and rewinds the tracee's instruction pointer to
    /// the breakpoint's address, so the original instruction replays.
    /// Does not step. Hands back the breakpoint's address.
    pub fn restore(&mut self) -> (r: Result<u64, DebugError>)
        ensures
            final(self).addr == old(self).addr,
            final(self).name == old(self).name,
            final(self).temporary == old(self).temporary,
            final(self).restore == old(self).restore,
            final(self).process == old(self).process,
            r matches Ok(a) ==> !final(self).enabled && a == old(self).addr,
            final(self).enabled ==> old(self).enabled,
            r matches Err(e) ==> (e matches DebugError::Unmapped || e matches DebugError::IOError(
                _,
            ) || e matches DebugError::PTrace(_)),
    {
        match self.process.poke(self.addr, self.restore) {
            Ok(()) => {},
            Err(e) => { return Err(e) },
        }
        // The original byte is back in the tracee: the site is disarmed
        // even if the instruction-pointer rewind below fails.
        self.enabled = false;
        let addr = self.addr;
        match self.set_ip(addr) {
            Ok(_) => {},
            Err(e) => { return Err(e) },
        }
        Ok(self.addr)
    }

    /// The resume protocol: restore the original byte and rewind; unless
    /// the breakpoint is one-shot, single-step over the restored
    /// instruction, wait for the step's stop, and re-arm the trap; then
    /// continue the tracee and wait. Hands back the instruction pointer
    /// of the next stop. A one-shot breakpoint is left consumed
    /// (disarmed); any other ends armed again.
    pub fn cont(&mut self) -> (r: Result<u64, DebugError>)
        ensures
            final(self).addr == old(self).addr,
            final(self).name == old(self).name,
            final(self).temporary == old(self).temporary,
            final(self).restore == old(self).restore,
            r matches Ok(_) ==> final(self).enabled == !old(self).temporary
                && crate::status::spec_stopped(final(self).process.status.raw()),
            r matches Err(e) ==> ((e matches DebugError::Status(s) && s
                == final(self).process.status && !crate::status::spec_stopped(s.raw())) || e
                matches DebugError::PTrace(_) || e matches DebugError::Unmapped || e
                matches DebugError::IOError(_)),
    {
        match self.restore() {
            Ok(_) => {},
            Err(e) => { return Err(e) },
        }
        if !self.temporary {
            match self.process.step() {
                Ok(()) => {},
                Err(e) => { return Err(e) },
            }
            match self.process.wait_stop() {
                Ok(_) => {},
                Err(e) => { return Err(e) },
            }
            match self.trap() {
                Ok(_) => {},
                Err(e) => { return Err(e) },
            }
        }
        match self.process.cont() {
            Ok(()) => {},
            Err(e) => { return Err(e) },
        }
        self.process.wait_stop()
    }

    /// Disarms the trap and points the tracee at `addr` without
    /// continuing. Once the original word is back the site is no longer
    /// armed.
    pub fn restore_to(&mut self, addr: u64) -> (r: Result<u64, DebugError>)
        ensures
            final(self).addr == old(self).addr,
            final(self).name == old(self).name,
            final(self).temporary == old(self).temporary,
            final(self).restore == old(self).restore,
            final(self).process == old(self).process,
            r matches Ok(a) ==> !final(self).enabled && a == addr,
            final(self).enabled ==> old(self).enabled,
            r matches Err(e) ==> (e matches DebugError::Unmapped || e matches DebugError::IOError(
                _,
            ) || e matches DebugError::PTrace(_)),
    {
        match self.process.poke(self.addr, self.restore) {
            Ok(()) => {},
            Err(e) => { return Err(e) },
        }
        self.enabled = false;
        match self.set_ip(addr) {
            Ok(_) => {},
            Err(e) => { return Err(e) },
        }
        Ok(addr)
    }

    /// Disarms the trap, points the tracee at `addr`, and continues it
    /// without single-stepping.
    pub fn jump_to(&mut self, addr: u64) -> (r: Result<u64, DebugError>)
        ensures
            final(self).addr == old(self).addr,
            final(self).name == old(self).name,
            final(self).temporary == old(self).temporary,
            final(self).restore == old(self).restore,
            final(self).process == old(self).process,
            r matches Ok(a) ==> !final(self).enabled && a == addr,
            final(self).enabled ==> old(self).enabled,
            r matches Err(e) ==> (e matches DebugError::Unmapped || e matches DebugError::IOError(
                _,
            ) || e matches DebugError::PTrace(_)),
    {
        match self.restore_to(addr) {
            Ok(_) => {},
            Err(e) => { return Err(e) },
        }
        match self.process.cont() {
            Ok(()) => {},
            Err(e) => { return Err(e) },
        }
        Ok(addr)
    }

    /// Redirects the tracee into `addr` and continues, waiting for the
    /// next stop — the entry jump of a phantom call. The caller is
    /// responsible for having saved registers and installed exit
    /// breakpoints first.
    pub fn phantom_call(&mut self, addr: u64) -> (r: Result<u64, DebugError>)
        ensures
            final(self).addr == old(self).addr,
            final(self).name == old(self).name,
            final(self).enabled == old(self).enabled,
            final(self).temporary == old(self).temporary,
            final(self).restore == old(self).restore,
            r matches Ok(_) ==> crate::status::spec_stopped(final(self).process.status.raw()),
            r matches Err(e) ==> ((e matches DebugError::Status(s) && s
                == final(self).process.status && !crate::status::spec_stopped(s.raw())) || e
                matches DebugError::PTrace(_)),
    {
        match self.set_ip(addr) {
            Ok(_) => {},
            Err(e) => { return Err(e) },
        }
        match self.process.cont() {
            Ok(()) => {},
            Err(e) => { return Err(e) },
        }
        self.process.wait_stop()
    }

    /// Writes `addr` into the tracee's instruction pointer.
    fn set_ip(&self, addr: u64) -> (r: Result<u64, DebugError>)
        ensures
            r matches Ok(ip) ==> ip == addr,
            r matches Err(e) ==> e matches DebugError::PTrace(_),
    {
        let mut regs = match self.process.getregs() {
            Ok(regs) => regs,
            Err(e) => { return Err(e) },
        };
        regs.set_ip(addr);
        match self.process.setregs(&regs) {
            Ok(()) => {},
            Err(e) => { return Err(e) },
        }
        Ok(regs.ip())
    }
}

} // verus!
