//! The phantom-call stack: synthesized activations in the tracee.
//!
//! Each [`PhantomCall`] frame pairs the register snapshot taken before the
//! call was synthesized with the one-shot exit breakpoints that catch the
//! callee's return. Frames unwind in strict LIFO order; cleaning the top
//! frame writes the snapshot back with the instruction pointer rewound one
//! byte, so the trapped instruction at the user's return point replays and
//! the session resumes as if the call never happened.
//! [`lemma_phantom_transparency`] and [`lemma_phantom_stack_unwinds`] state
//! those two laws.

use vstd::prelude::*;

use crate::breakpoint::Breakpoint;
use crate::error::DebugError;
use crate::process::Process;
use crate::registers::{Register, x86_64_Registers};

verus! {

/// One synthesized activation: the registers to restore and the one-shot
/// breakpoints at the callee's exit sites.
#[derive(Debug, Clone)]
pub struct PhantomCall {
    /// The full register snapshot taken before the call was synthesized.
    pub restore: x86_64_Registers,
    /// The one-shot breakpoints at the callee's legitimate exits.
    pub exits: Vec<Breakpoint>,
}

/// The LIFO of active synthesized calls of one tracee.
pub struct PhantomManager {
    /// Active frames, innermost last.
    pub stack: Vec<PhantomCall>,
    /// The tracee the frames belong to.
    pub pid: i32,
}

/// The register set written back when a phantom frame is cleaned: the
/// snapshot with the instruction pointer rewound one byte, so the trapped
/// instruction replays.
pub open spec fn spec_rewound(regs: x86_64_Registers) -> x86_64_Registers {
    regs.with_ip((regs.spec_ip() - 1) as u64)
}

/// Phantom-call transparency, on the register file: the set written back
/// on cleanup equals the snapshot taken before the call in every register,
/// except that the instruction pointer is rewound by one byte to replay
/// the trapped instruction.
pub proof fn lemma_phantom_transparency(regs: x86_64_Registers)
    requires
        regs.rip >= 1,
    ensures
        spec_rewound(regs) == (x86_64_Registers { rip: (regs.rip - 1) as u64, ..regs }),
        spec_rewound(regs).rsp == regs.rsp,
        spec_rewound(regs).rbp == regs.rbp,
        spec_rewound(regs).rax == regs.rax,
        spec_rewound(regs).rdi == regs.rdi,
        spec_rewound(regs).rsi == regs.rsi,
        spec_rewound(regs).rip == regs.rip - 1,
{
}

/// The stack after `n` frames have been cleaned.
pub open spec fn spec_popped_n(s: Seq<PhantomCall>, n: nat) -> Seq<PhantomCall>
    decreases n,
{
    if n == 0 {
        s
    } else {
        spec_popped_n(s.drop_last(), (n - 1) as nat)
    }
}

/// Phantom-stack LIFO discipline: frames pushed on top of a stack come
/// back off in reverse push order — after all of them are popped the
/// stack is as it was, and the last frame to leave is the first that was
/// pushed.
pub proof fn lemma_phantom_stack_unwinds(s: Seq<PhantomCall>, fs: Seq<PhantomCall>)
    ensures
        spec_popped_n(s + fs, fs.len()) == s,
        fs.len() > 0 ==> spec_popped_n(s + fs, (fs.len() - 1) as nat) == s + fs.subrange(0, 1)
            && spec_popped_n(s + fs, (fs.len() - 1) as nat).last() == fs[0],
    decreases fs.len(),
{
    if fs.len() == 0 {
        assert(s + fs =~= s);
    } else {
        let shorter = fs.drop_last();
        assert((s + fs).drop_last() =~= s + shorter);
        lemma_phantom_stack_unwinds(s, shorter);
        if fs.len() == 1 {
            assert(s + fs.subrange(0, 1) =~= s + fs);
        } else {
            assert(shorter.subrange(0, 1) =~= fs.subrange(0, 1));
            assert((s + fs.subrange(0, 1)).last() == fs[0]);
        }
    }
}

impl PhantomManager {
    /// An empty phantom stack for the given tracee.
    pub fn new(pid: i32) -> (r: Self)
        ensures
            r.stack@.len() == 0,
            r.pid == pid,
    {
        PhantomManager { stack: Vec::new(), pid }
    }

    /// Installs a one-shot exit breakpoint at every address in `exits`
    /// and pushes a frame holding them and the register snapshot. On
    /// failure to install an exit the stack is left as it was.
    pub fn push(&mut self, restore: x86_64_Registers, exits: Vec<u64>) -> (r: Result<
        (),
        DebugError,
    >)
        ensures
            final(self).pid == old(self).pid,
            r matches Ok(_) ==> {
                &&& final(self).stack@.len() == old(self).stack@.len() + 1
                &&& final(self).stack@.drop_last() == old(self).stack@
                &&& final(self).stack@.last().restore == restore
                &&& final(self).stack@.last().exits@.len() == exits@.len()
                &&& forall|i: int|
                    0 <= i < exits@.len() ==> {
                        &&& (#[trigger] final(self).stack@.last().exits@[i]).addr == exits@[i]
                        &&& final(self).stack@.last().exits@[i].temporary
                    }
            },
            r matches Err(e) ==> final(self).stack@ == old(self).stack@ && (e
                matches DebugError::IOError(_) || e matches DebugError::Unmapped),
    {
        let mut breakpoints: Vec<Breakpoint> = Vec::new();
        let mut i: usize = 0;
        while i < exits.len()
            invariant
                i <= exits@.len(),
                breakpoints@.len() == i,
                forall|j: int|
                    0 <= j < i ==> {
                        &&& (#[trigger] breakpoints@[j]).addr == exits@[j]
                        &&& breakpoints@[j].temporary
                    },
            decreases exits@.len() - i,
        {
            let mut bp = match Breakpoint::new(
                "<phantom_call_cleanup>".to_owned(),
                self.pid,
                exits[i],
            ) {
                Ok(bp) => bp,
                Err(e) => { return Err(e) },
            };
            bp.temporary(true);
            breakpoints.push(bp);
            i = i + 1;
        }
        let call = PhantomCall { exits: breakpoints, restore };
        self.stack.push(call);
        proof {
            assert(final(self).stack@.drop_last() =~= old(self).stack@);
        }
        Ok(())
    }

    /// Whether `ip` is the post-trap instruction pointer of one of the
    /// topmost frame's exits.
    pub open spec fn spec_is_exit_at(&self, ip: u64) -> bool {
        self.stack@.len() > 0 && ip >= 1 && exists|i: int|
            0 <= i < self.stack@.last().exits@.len() && (#[trigger] self.stack@.last().exits@[
                i]).addr == ip - 1
    }

    /// True iff the stack is non-empty and `ip` is the post-trap
    /// instruction pointer of one of the topmost frame's exits.
    pub fn is_exit_at(&self, ip: u64) -> (r: bool)
        ensures
            r == self.spec_is_exit_at(ip),
    {
        if self.stack.len() == 0 || ip == 0 {
            return false;
        }
        let call = &self.stack[self.stack.len() - 1];
        let pc = ip - 1;
        let mut i: usize = 0;
        while i < call.exits.len()
            invariant
                i <= call.exits@.len(),
                self.stack@.len() > 0,
                ip >= 1,
                *call == self.stack@.last(),
                pc == ip - 1,
                forall|j: int| 0 <= j < i ==> (#[trigger] call.exits@[j]).addr != pc,
            decreases call.exits@.len() - i,
        {
            if call.exits[i].addr == pc {
                proof {
                    assert((self.stack@.last().exits@[i as int]).addr == ip - 1);
                }
                return true;
            }
            i = i + 1;
        }
        false
    }

    /// True iff the tracee currently stands at an exit of the topmost
    /// frame: its instruction pointer, read back from the kernel, is one
    /// past some exit address. With no frame pushed, or when the
    /// registers cannot be read, this is false.
    pub fn is_exit(&self, process: &Process) -> (r: bool)
        ensures
            r ==> self.stack@.len() > 0,
    {
        if self.stack.len() == 0 {
            return false;
        }
        match process.getregs() {
            Ok(regs) => self.is_exit_at(regs.ip()),
            Err(_) => false,
        }
    }

    /// Pops the topmost frame and restores its register snapshot with
    /// the instruction pointer rewound one byte, then disarms the frame's
    /// remaining one-shot exit breakpoints, continues the tracee and
    /// waits for its next stop. Until the snapshot is written back the
    /// stack is left as it was; once it is, the frame is consumed.
    pub fn clean(&mut self, process: &mut Process) -> (r: Result<u64, DebugError>)
        ensures
            final(self).pid == old(self).pid,
            final(self).stack@.len() <= old(self).stack@.len(),
            final(self).stack@ == old(self).stack@ || (old(self).stack@.len() > 0 && final(
                self).stack@ == old(self).stack@.drop_last()),
            r matches Ok(_) ==> {
                &&& old(self).stack@.len() > 0
                &&& final(self).stack@ == old(self).stack@.drop_last()
                &&& crate::status::spec_stopped(final(process).status.raw())
            },
            r matches Err(e) ==> ((e matches DebugError::Status(s)
                && !crate::status::spec_stopped(s.raw())) || e matches DebugError::PTrace(_) || e
                matches DebugError::Error(_)),
    {
        if !self.is_exit(process) {
            return Err(DebugError::Error("not at exit for phantom call"));
        }
        let call = match self.stack.pop() {
            Some(call) => call,
            None => { return Err(DebugError::Error("not at exit for phantom call")) },
        };
        let mut regs = call.restore;
        let ip = regs.ip();
        if ip == 0 {
            self.stack.push(call);
            proof {
                assert(self.stack@ =~= old(self).stack@);
            }
            return Err(DebugError::Error("saved instruction pointer cannot rewind"));
        }
        regs.set_ip(ip - 1);
        proof {
            assert(regs == spec_rewound(call.restore));
        }
        match process.setregs(&regs) {
            Ok(()) => {},
            Err(e) => {
                self.stack.push(call);
                proof {
                    assert(self.stack@ =~= old(self).stack@);
                }
                return Err(e);
            },
        }
        // The snapshot is installed: the frame is consumed. Take its
        // still-armed exit traps out of the tracee, best effort, so no
        // trap byte survives the phantom call.
        let mut exits = call.exits;
        loop
            invariant_except_break
                true,
            decreases exits@.len(),
        {
            let mut bp = match exits.pop() {
                Some(bp) => bp,
                None => { break },
            };
            if bp.is_enabled() {
                let _ = bp.enabled(false);
            }
        }
        match process.cont() {
            Ok(()) => {},
            Err(e) => { return Err(e) },
        }
        process.wait_stop()
    }
}

} // verus!
