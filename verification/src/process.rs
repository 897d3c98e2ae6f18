//! The tracee as seen through the kernel: trace syscalls, waits, and
//! word-granular access to its memory image.
//!
//! A [`Process`] couples the tracee's pid with an open handle to its
//! `/proc` memory image and the most recently observed wait status. The
//! syscalls themselves sit behind trusted wrappers around the `nix` crate;
//! everything the engine decides from their results — read-modify-write of
//! sub-word bit fields, stack pushes, wait-status interpretation — is
//! verified.

use vstd::prelude::*;

use crate::error::DebugError;
use crate::registers::{Register, x86_64_Registers};
use crate::status::{Status, WaitEvent};

verus! {

use nix::sys::ptrace::getregs;
use nix::sys::ptrace::setregs;
use nix::libc::user_regs_struct;
use nix::unistd::Pid;
use nix::sys::wait::WaitStatus;

/// Relies on nix::fcntl::open: opens this pid's `/proc` memory image
/// (read-write) when `mem` is set, else its mapping table (read-only).
/// open(2) hands back a non-negative descriptor on success; the error is
/// the raw errno.
#[verifier::external_body]
pub(crate) fn proc_open(pid: i32, mem: bool) -> (r: Result<i32, i32>)
    ensures
        r matches Ok(fd) ==> fd >= 0,
{
    let path = if mem {
        format!("/proc/{}/mem", pid)
    } else {
        format!("/proc/{}/maps", pid)
    };
    let flag = if mem {
        nix::fcntl::OFlag::O_RDWR
    } else {
        nix::fcntl::OFlag::O_RDONLY
    };
    nix::fcntl::open(path.as_str(), flag, nix::sys::stat::Mode::empty()).map_err(|e| e as i32)
}

/// Relies on nix::unistd::read: reads at most `cap` bytes from the
/// descriptor at its current offset; read(2) returns no more bytes than
/// asked for.
#[verifier::external_body]
pub(crate) fn fd_read(fd: i32, cap: usize) -> (r: Result<Vec<u8>, i32>)
    ensures
        r matches Ok(v) ==> v@.len() <= cap,
{
    let mut buf: Vec<u8> = vec![0u8; cap];
    match nix::unistd::read(fd, &mut buf) {
        Ok(n) => {
            buf.truncate(n);
            Ok(buf)
        },
        Err(e) => Err(e as i32),
    }
}

/// Relies on nix::unistd::close: releases a descriptor; any error is
/// discarded, as close-path failures are.
#[verifier::external_body]
pub(crate) fn fd_close(fd: i32) {
    let _ = nix::unistd::close(fd);
}

/// Relies on nix::sys::uio::pread: reads at most `cap` bytes from the
/// descriptor at the given offset; pread(2) returns no more bytes than
/// asked for.
#[verifier::external_body]
pub(crate) fn fd_pread(fd: i32, cap: usize, offset: u64) -> (r: Result<Vec<u8>, i32>)
    requires
        offset <= i64::MAX as u64,
    ensures
        r matches Ok(v) ==> v@.len() <= cap,
{
    let mut buf: Vec<u8> = vec![0u8; cap];
    match nix::sys::uio::pread(fd, &mut buf, offset as i64) {
        Ok(n) => {
            buf.truncate(n);
            Ok(buf)
        },
        Err(e) => Err(e as i32),
    }
}

/// Relies on nix::sys::uio::pwrite: writes the buffer to the descriptor
/// at the given offset; pwrite(2) reports no more bytes written than
/// handed in.
#[verifier::external_body]
pub(crate) fn fd_pwrite(fd: i32, data: &[u8], offset: u64) -> (r: Result<usize, i32>)
    requires
        offset <= i64::MAX as u64,
    ensures
        r matches Ok(n) ==> n <= data@.len(),
{
    match nix::sys::uio::pwrite(fd, data, offset as i64) {
        Ok(n) => Ok(n),
        Err(e) => Err(e as i32),
    }
}

/// Relies on nix::sys::ptrace::cont: resumes the stopped tracee without
/// delivering a signal.
#[verifier::external_body]
pub(crate) fn trace_cont(pid: i32) -> (r: Result<(), i32>) {
    nix::sys::ptrace::cont(Pid::from_raw(pid), None).map_err(|e| e as i32)
}

/// Relies on nix::sys::ptrace::step: lets the stopped tracee execute one
/// instruction, after which it stops again with SIGTRAP.
#[verifier::external_body]
pub(crate) fn trace_step(pid: i32) -> (r: Result<(), i32>) {
    nix::sys::ptrace::step(Pid::from_raw(pid), None).map_err(|e| e as i32)
}

/// Relies on nix::sys::ptrace::attach: attaches to the process and stops
/// it.
#[verifier::external_body]
pub(crate) fn trace_attach(pid: i32) -> (r: Result<(), i32>) {
    nix::sys::ptrace::attach(Pid::from_raw(pid)).map_err(|e| e as i32)
}

/// Relies on nix::sys::ptrace::detach: releases the tracee and lets it
/// run freely.
#[verifier::external_body]
pub(crate) fn trace_detach(pid: i32) -> (r: Result<(), i32>) {
    nix::sys::ptrace::detach(Pid::from_raw(pid), None).map_err(|e| e as i32)
}

/// Relies on nix::sys::ptrace::getregs: fetches the tracee's user
/// registers; the fields are carried over one for one.
#[verifier::external_body]
pub(crate) fn trace_getregs(pid: i32) -> (r: Result<x86_64_Registers, i32>) {
    let u = getregs(Pid::from_raw(pid)).map_err(|e| e as i32)?;
    Ok(x86_64_Registers {
        r15: u.r15, r14: u.r14, r13: u.r13, r12: u.r12, rbp: u.rbp, rbx: u.rbx,
        r11: u.r11, r10: u.r10, r9: u.r9, r8: u.r8, rax: u.rax, rcx: u.rcx,
        rdx: u.rdx, rsi: u.rsi, rdi: u.rdi, orig_rax: u.orig_rax, rip: u.rip,
        cs: u.cs, eflags: u.eflags, rsp: u.rsp, ss: u.ss, fs_base: u.fs_base,
        gs_base: u.gs_base, ds: u.ds, es: u.es, fs: u.fs, gs: u.gs,
    })
}

/// Relies on nix::sys::ptrace::setregs: writes the tracee's user
/// registers; the fields are carried over one for one.
#[verifier::external_body]
pub(crate) fn trace_setregs(pid: i32, regs: &x86_64_Registers) -> (r: Result<(), i32>) {
    let u = user_regs_struct {
        r15: regs.r15, r14: regs.r14, r13: regs.r13, r12: regs.r12, rbp: regs.rbp,
        rbx: regs.rbx, r11: regs.r11, r10: regs.r10, r9: regs.r9, r8: regs.r8,
        rax: regs.rax, rcx: regs.rcx, rdx: regs.rdx, rsi: regs.rsi, rdi: regs.rdi,
        orig_rax: regs.orig_rax, rip: regs.rip, cs: regs.cs, eflags: regs.eflags,
        rsp: regs.rsp, ss: regs.ss, fs_base: regs.fs_base, gs_base: regs.gs_base,
        ds: regs.ds, es: regs.es, fs: regs.fs, gs: regs.gs,
    };
    setregs(Pid::from_raw(pid), u).map_err(|e| e as i32)
}

/// Relies on nix::sys::wait::waitpid: blocks until the child changes
/// state and hands the decoded outcome over. Signal stops and trace-event
/// stops both come back as [`WaitEvent::Stopped`] with their signal; the
/// signal numbers of the decoded signal enum lie strictly between 0 and
/// 0x7f.
#[verifier::external_body]
pub(crate) fn wait_event(pid: i32) -> (r: Result<WaitEvent, i32>)
    ensures
        r matches Ok(ev) ==> (ev matches WaitEvent::Stopped(sig) ==> 0 < sig < 0x7f),
        r matches Ok(ev) ==> (ev matches WaitEvent::Signaled(sig, dumped) ==> 0 < sig < 0x7f),
{
    match nix::sys::wait::waitpid(Pid::from_raw(pid), None) {
        Ok(WaitStatus::Stopped(_, sig)) => Ok(WaitEvent::Stopped(sig as i32)),
        Ok(WaitStatus::Exited(_, code)) => Ok(WaitEvent::Exited(code)),
        Ok(WaitStatus::Signaled(_, sig, dumped)) => Ok(WaitEvent::Signaled(sig as i32, dumped)),
        Ok(WaitStatus::PtraceEvent(_, sig, _)) => Ok(WaitEvent::Stopped(sig as i32)),
        Ok(_) => Ok(WaitEvent::Other),
        Err(e) => Err(e as i32),
    }
}

/// The low `nbits` bits set.
pub open spec fn spec_bit_mask(nbits: u64) -> u64
    recommends
        0 < nbits < 64,
{
    ((1u64 << nbits) - 1) as u64
}

/// `old` with its low `nbits` bits replaced by those of `value`.
pub open spec fn spec_merge_bits(old: u64, value: u64, nbits: u64) -> u64 {
    (old & !spec_bit_mask(nbits)) | (value & spec_bit_mask(nbits))
}

/// Merging a byte touches nothing above it: the upper bits of the word
/// survive, and the low byte becomes the merged value's low byte.
pub proof fn lemma_merge_byte(w: u64, v: u64)
    ensures
        spec_merge_bits(w, v, 8) >> 8 == w >> 8,
        spec_merge_bits(w, v, 8) & 0xff == v & 0xff,
{
    assert((w & !(((1u64 << 8) - 1) as u64) | (v & (((1u64 << 8) - 1) as u64))) >> 8 == w >> 8)
        by (bit_vector);
    assert((w & !(((1u64 << 8) - 1) as u64) | (v & (((1u64 << 8) - 1) as u64))) & 0xff == v & 0xff)
        by (bit_vector);
}

/// Replaces the low `nbits` bits of `old` with those of `value`.
pub fn merge_bits(old: u64, value: u64, nbits: u64) -> (r: u64)
    requires
        0 < nbits < 64,
    ensures
        r == spec_merge_bits(old, value, nbits),
{
    let shifted: u64 = 1u64 << nbits;
    proof {
        assert(nbits < 64 ==> (1u64 << nbits) >= 1) by (bit_vector);
    }
    let mask: u64 = shifted - 1;
    (old & !mask) | (value & mask)
}

/// A handle on the tracee: its pid, the open `/proc` memory image, and
/// the last wait status the engine observed.
#[derive(Debug, Clone, Copy)]
pub struct Process {
    /// The tracee's process id.
    pub pid: i32,
    /// The most recently observed wait status.
    pub status: Status,
    /// The descriptor of the tracee's open memory image.
    pub mem_fd: i32,
}

impl Process {
    /// Opens a handle on the tracee's memory image. Fails with an I/O
    /// error when the pid has no `/proc` entry or it cannot be opened.
    pub fn new(pid: i32) -> (r: Result<Process, DebugError>)
        ensures
            r matches Ok(p) ==> p.pid == pid && p.status.raw() == 0,
            r matches Err(e) ==> e matches DebugError::IOError(_),
    {
        match proc_open(pid, true) {
            Ok(fd) => Ok(Process { pid, status: Status::new(0), mem_fd: fd }),
            Err(e) => Err(DebugError::IOError(e)),
        }
    }

    /// The last wait status the engine observed of this tracee.
    pub fn status(&self) -> (r: Status)
        ensures
            r == self.status,
    {
        self.status
    }

    /// Waits for the tracee to change state and records the decoded
    /// status. A wait that cannot be decoded is recorded as a plain exit.
    pub fn wait(&mut self) -> (r: Status)
        ensures
            final(self).pid == old(self).pid,
            final(self).mem_fd == old(self).mem_fd,
            r == final(self).status,
    {
        let ev = match wait_event(self.pid) {
            Ok(ev) => ev,
            Err(_) => WaitEvent::Other,
        };
        self.status = Status::from_event(ev);
        self.status
    }

    /// Waits for the tracee and, when it stopped, hands back its
    /// instruction pointer. A wait that did not end in a stop is the
    /// error [`DebugError::Status`] carrying that status.
    pub fn wait_stop(&mut self) -> (r: Result<u64, DebugError>)
        ensures
            final(self).pid == old(self).pid,
            final(self).mem_fd == old(self).mem_fd,
            r matches Ok(ip) ==> crate::status::spec_stopped(final(self).status.raw()),
            r matches Err(e) ==> ((e matches DebugError::Status(s) && s == final(self).status
                && !crate::status::spec_stopped(s.raw())) || e matches DebugError::PTrace(_)),
    {
        let stat = self.wait();
        if stat.stopped() {
            match self.getregs() {
                Ok(regs) => Ok(regs.ip()),
                Err(e) => Err(e),
            }
        } else {
            Err(DebugError::Status(stat))
        }
    }

    /// Fetches the tracee's registers.
    pub fn getregs(&self) -> (r: Result<x86_64_Registers, DebugError>)
        ensures
            r matches Err(e) ==> e matches DebugError::PTrace(_),
    {
        match trace_getregs(self.pid) {
            Ok(regs) => Ok(regs),
            Err(e) => Err(DebugError::PTrace(e)),
        }
    }

    /// Writes the tracee's registers.
    pub fn setregs(&self, regs: &x86_64_Registers) -> (r: Result<(), DebugError>)
        ensures
            r matches Err(e) ==> e matches DebugError::PTrace(_),
    {
        match trace_setregs(self.pid, regs) {
            Ok(()) => Ok(()),
            Err(e) => Err(DebugError::PTrace(e)),
        }
    }

    /// Writes `regs` into the tracee with its control and frame registers
    /// masked back to their current values, so user-supplied argument
    /// registers cannot disturb control flow.
    pub fn setregs_user(&self, regs: &x86_64_Registers) -> (r: Result<(), DebugError>)
        ensures
            r matches Err(e) ==> e matches DebugError::PTrace(_),
    {
        let current = match self.getregs() {
            Ok(c) => c,
            Err(e) => { return Err(e) },
        };
        self.setregs(&current.mask(*regs))
    }

    /// Resumes the tracee.
    pub fn cont(&self) -> (r: Result<(), DebugError>)
        ensures
            r matches Err(e) ==> e matches DebugError::PTrace(_),
    {
        match trace_cont(self.pid) {
            Ok(()) => Ok(()),
            Err(e) => Err(DebugError::PTrace(e)),
        }
    }

    /// Lets the tracee execute a single instruction.
    pub fn step(&self) -> (r: Result<(), DebugError>)
        ensures
            r matches Err(e) ==> e matches DebugError::PTrace(_),
    {
        match trace_step(self.pid) {
            Ok(()) => Ok(()),
            Err(e) => Err(DebugError::PTrace(e)),
        }
    }

    /// Attaches to the process and stops it.
    pub fn attach(&self) -> (r: Result<(), DebugError>)
        ensures
            r matches Err(e) ==> e matches DebugError::PTrace(_),
    {
        match trace_attach(self.pid) {
            Ok(()) => Ok(()),
            Err(e) => Err(DebugError::PTrace(e)),
        }
    }

    /// Releases the tracee.
    pub fn detach(&self) -> (r: Result<(), DebugError>)
        ensures
            r matches Err(e) ==> e matches DebugError::PTrace(_),
    {
        match trace_detach(self.pid) {
            Ok(()) => Ok(()),
            Err(e) => Err(DebugError::PTrace(e)),
        }
    }

    /// Reads the machine word at `addr` in the tracee. An address beyond
    /// the reachable offset range or a short read surfaces as
    /// [`DebugError::Unmapped`].
    pub fn peek(&self, addr: u64) -> (r: Result<u64, DebugError>)
        ensures
            addr > i64::MAX as u64 ==> (r matches Err(e) && e matches DebugError::Unmapped),
            r matches Err(e) ==> (e matches DebugError::Unmapped || e matches DebugError::IOError(
                _,
            )),
    {
        if addr > i64::MAX as u64 {
            return Err(DebugError::Unmapped);
        }
        match fd_pread(self.mem_fd, 8, addr) {
            Ok(buf) => {
                if buf.len() == 8 {
                    Ok(vstd::bytes::u64_from_le_bytes(buf.as_slice()))
                } else {
                    Err(DebugError::Unmapped)
                }
            },
            Err(e) => Err(DebugError::IOError(e)),
        }
    }

    /// Writes the machine word at `addr` in the tracee, in little-endian
    /// byte order. A short write surfaces as [`DebugError::Unmapped`].
    pub fn poke(&self, addr: u64, word: u64) -> (r: Result<(), DebugError>)
        ensures
            addr > i64::MAX as u64 ==> (r matches Err(e) && e matches DebugError::Unmapped),
            r matches Err(e) ==> (e matches DebugError::Unmapped || e matches DebugError::IOError(
                _,
            )),
    {
        if addr > i64::MAX as u64 {
            return Err(DebugError::Unmapped);
        }
        let bytes = vstd::bytes::u64_to_le_bytes(word);
        match fd_pwrite(self.mem_fd, bytes.as_slice(), addr) {
            Ok(n) => {
                if n == 8 {
                    Ok(())
                } else {
                    Err(DebugError::Unmapped)
                }
            },
            Err(e) => Err(DebugError::IOError(e)),
        }
    }

    /// Read-modify-write of the low `nbits` bits of the word at `addr`:
    /// the rest of the word is carried over unchanged, as
    /// [`spec_merge_bits`] states.
    pub fn poke_bits(&self, addr: u64, value: u64, nbits: u64) -> (r: Result<(), DebugError>)
        requires
            0 < nbits < 64,
        ensures
            r matches Err(e) ==> (e matches DebugError::Unmapped || e matches DebugError::IOError(
                _,
            )),
    {
        let old_word = match self.peek(addr) {
            Ok(w) => w,
            Err(e) => { return Err(e) },
        };
        self.poke(addr, merge_bits(old_word, value, nbits))
    }

    /// Reads the word `offset` bytes above the tracee's stack pointer.
    pub fn stack(&self, offset: u64) -> (r: Result<u64, DebugError>) {
        let regs = match self.getregs() {
            Ok(regs) => regs,
            Err(e) => { return Err(e) },
        };
        if regs.sp() > u64::MAX - offset {
            return Err(DebugError::Unmapped);
        }
        self.peek(regs.stack_offset(offset))
    }

    /// Pushes a word onto the tracee's stack: moves the stack pointer one
    /// word down, stores `data` there, and hands back the new stack
    /// pointer.
    pub fn push(&self, data: u64) -> (r: Result<u64, DebugError>)
        ensures
            r matches Err(e) ==> (e matches DebugError::PTrace(_) || e
                matches DebugError::Unmapped || e matches DebugError::IOError(_)),
    {
        let mut regs = match self.getregs() {
            Ok(regs) => regs,
            Err(e) => { return Err(e) },
        };
        let sp = regs.sp();
        if sp < 8 {
            return Err(DebugError::Unmapped);
        }
        let new_sp = sp - 8;
        regs.set_sp(new_sp);
        match self.setregs(&regs) {
            Ok(()) => {},
            Err(e) => { return Err(e) },
        }
        match self.poke(new_sp, data) {
            Ok(()) => Ok(new_sp),
            Err(e) => Err(e),
        }
    }

    /// Reads the word one slot above the tracee's frame base pointer —
    /// where the return address of the current frame sits.
    pub fn retn(&self) -> (r: Result<u64, DebugError>) {
        let regs = match self.getregs() {
            Ok(regs) => regs,
            Err(e) => { return Err(e) },
        };
        if regs.bp() > u64::MAX - 8 {
            return Err(DebugError::Unmapped);
        }
        self.peek(regs.bp() + 8)
    }
}

} // verus!
