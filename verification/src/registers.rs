//! The architectural register file of the tracee.
//!
//! [`x86_64_Registers`] mirrors the kernel's user-register layout as plain
//! 64-bit fields. The [`Register`] trait is the capability set the engine
//! relies on — instruction, stack and base pointer access, control-register
//! masking and stack offsets — so that another ISA only has to supply its own
//! register struct and calling-convention marshaller.

use vstd::prelude::*;

verus! {

use crate::error::DebugError;
use crate::process::Process;

/// Lossless-enough integer conversions the engine needs between the
/// register width and host sizes.
pub trait Cast<T>: Sized {
    /// The mathematical value of the conversion.
    spec fn spec_cast(self) -> T;

    /// Converts, returning exactly [`Cast::spec_cast`].
    fn cast(self) -> (r: T)
        ensures
            r == self.spec_cast(),
    ;
}

impl Cast<usize> for u64 {
    open spec fn spec_cast(self) -> usize {
        self as usize
    }

    fn cast(self) -> usize {
        self as usize
    }
}

impl Cast<u64> for usize {
    open spec fn spec_cast(self) -> u64 {
        self as u64
    }

    fn cast(self) -> u64 {
        self as u64
    }
}

/// The capability set a register file offers the engine: pointer accessors
/// and updates, masking of control registers, and stack addressing.
pub trait Register: Sized {
    /// The instruction pointer.
    spec fn spec_ip(&self) -> u64;

    /// The stack pointer.
    spec fn spec_sp(&self) -> u64;

    /// The frame base pointer.
    spec fn spec_bp(&self) -> u64;

    /// This register set with only the instruction pointer replaced.
    spec fn with_ip(self, ptr: u64) -> Self;

    /// This register set with only the stack pointer replaced.
    spec fn with_sp(self, ptr: u64) -> Self;

    /// This register set with only the frame base pointer replaced.
    spec fn with_bp(self, ptr: u64) -> Self;

    fn ip(&self) -> (r: u64)
        ensures
            r == self.spec_ip(),
    ;

    fn sp(&self) -> (r: u64)
        ensures
            r == self.spec_sp(),
    ;

    fn bp(&self) -> (r: u64)
        ensures
            r == self.spec_bp(),
    ;

    fn set_ip(&mut self, ptr: u64)
        ensures
            *final(self) == old(self).with_ip(ptr),
    ;

    fn set_sp(&mut self, ptr: u64)
        ensures
            *final(self) == old(self).with_sp(ptr),
    ;

    fn set_bp(&mut self, ptr: u64)
        ensures
            *final(self) == old(self).with_bp(ptr),
    ;

    /// `reg` with its control and frame registers forced back to this
    /// set's values — how user-supplied argument registers are written
    /// without disturbing control flow.
    fn mask(&self, reg: Self) -> (r: Self)
        ensures
            r == reg.with_ip(self.spec_ip()).with_sp(self.spec_sp()).with_bp(self.spec_bp()),
    ;

    /// The address `offset` bytes above the stack pointer.
    fn stack_offset(&self, offset: u64) -> (r: u64)
        requires
            self.spec_sp() + offset <= u64::MAX,
        ensures
            r == self.spec_sp() + offset,
    ;

    /// Reinterprets a raw trace-syscall word as a register-width value.
    fn size_from(n: i64) -> (r: u64)
        ensures
            r == n as u64,
    ;
}

/// The x86-64 user register set, in the kernel's layout.
#[derive(Debug, Clone, Copy, PartialEq, Eq, Structural)]
pub struct x86_64_Registers {
    pub r15: u64,
    pub r14: u64,
    pub r13: u64,
    pub r12: u64,
    pub rbp: u64,
    pub rbx: u64,
    pub r11: u64,
    pub r10: u64,
    pub r9: u64,
    pub r8: u64,
    pub rax: u64,
    pub rcx: u64,
    pub rdx: u64,
    pub rsi: u64,
    pub rdi: u64,
    pub orig_rax: u64,
    pub rip: u64,
    pub cs: u64,
    pub eflags: u64,
    pub rsp: u64,
    pub ss: u64,
    pub fs_base: u64,
    pub gs_base: u64,
    pub ds: u64,
    pub es: u64,
    pub fs: u64,
    pub gs: u64,
}

/// The individual registers of the x86-64 register file.
pub enum x86_64_Register {
    r15,
    r14,
    r13,
    r12,
    rbp,
    rbx,
    r11,
    r10,
    r9,
    r8,
    rax,
    rcx,
    rdx,
    rsi,
    rdi,
    orig_rax,
    rip,
    cs,
    eflags,
    rsp,
    ss,
    fs_base,
    gs_base,
    ds,
    es,
    fs,
    gs,
}

impl Register for x86_64_Registers {
    open spec fn spec_ip(&self) -> u64 {
        self.rip
    }

    open spec fn spec_sp(&self) -> u64 {
        self.rsp
    }

    open spec fn spec_bp(&self) -> u64 {
        self.rbp
    }

    open spec fn with_ip(self, ptr: u64) -> Self {
        x86_64_Registers { rip: ptr, ..self }
    }

    open spec fn with_sp(self, ptr: u64) -> Self {
        x86_64_Registers { rsp: ptr, ..self }
    }

    open spec fn with_bp(self, ptr: u64) -> Self {
        x86_64_Registers { rbp: ptr, ..self }
    }

    fn ip(&self) -> u64 {
        self.rip
    }

    fn sp(&self) -> u64 {
        self.rsp
    }

    fn bp(&self) -> u64 {
        self.rbp
    }

    fn set_ip(&mut self, ptr: u64) {
        self.rip = ptr;
    }

    fn set_sp(&mut self, ptr: u64) {
        self.rsp = ptr;
    }

    fn set_bp(&mut self, ptr: u64) {
        self.rbp = ptr;
    }

    fn mask(&self, reg: Self) -> Self {
        let mut reg = reg;
        reg.rip = self.rip;
        reg.rsp = self.rsp;
        reg.rbp = self.rbp;
        reg
    }

    fn stack_offset(&self, offset: u64) -> u64 {
        self.rsp + offset
    }

    fn size_from(n: i64) -> u64 {
        n as u64
    }
}

/// Renders `n` in lower-case hexadecimal, without a prefix.
fn hex_string(n: u64) -> String {
    let mut digits: Vec<u64> = Vec::new();
    let mut rest: u64 = n;
    loop
        invariant_except_break
            true,
        decreases rest,
    {
        digits.push(rest % 16);
        rest = rest / 16;
        if rest == 0 {
            break;
        }
    }
    let mut s = String::new();
    let mut i: usize = digits.len();
    while i > 0
        invariant
            i <= digits@.len(),
        decreases i,
    {
        i = i - 1;
        let d = digits[i];
        s.append(
            if d == 0 {
                "0"
            } else if d == 1 {
                "1"
            } else if d == 2 {
                "2"
            } else if d == 3 {
                "3"
            } else if d == 4 {
                "4"
            } else if d == 5 {
                "5"
            } else if d == 6 {
                "6"
            } else if d == 7 {
                "7"
            } else if d == 8 {
                "8"
            } else if d == 9 {
                "9"
            } else if d == 10 {
                "a"
            } else if d == 11 {
                "b"
            } else if d == 12 {
                "c"
            } else if d == 13 {
                "d"
            } else if d == 14 {
                "e"
            } else {
                "f"
            },
        );
    }
    s
}

impl x86_64_Registers {
    /// A human-readable dump of the control, frame and general-purpose
    /// registers most debugging sessions look at.
    pub fn to_string(&self) -> String {
        let mut s = String::new();
        s.append("	rip: 0x");
        s.append(hex_string(self.rip).as_str());
        s.append("
	rsp: 0x");
        s.append(hex_string(self.rsp).as_str());
        s.append("
	rbp: 0x");
        s.append(hex_string(self.rbp).as_str());
        s.append("
	rax: 0x");
        s.append(hex_string(self.rax).as_str());
        s.append("
	rbx: 0x");
        s.append(hex_string(self.rbx).as_str());
        s.append("
	rcx: 0x");
        s.append(hex_string(self.rcx).as_str());
        s.append("
	rdx: 0x");
        s.append(hex_string(self.rdx).as_str());
        s.append("
	rsi: 0x");
        s.append(hex_string(self.rsi).as_str());
        s.append("
	rdi: 0x");
        s.append(hex_string(self.rdi).as_str());
        s
    }
}

impl Default for x86_64_Registers {
    /// The all-zero register set.
    fn default() -> (r: Self)
        ensures
            r == (x86_64_Registers {
                r15: 0, r14: 0, r13: 0, r12: 0, rbp: 0, rbx: 0, r11: 0, r10: 0,
                r9: 0, r8: 0, rax: 0, rcx: 0, rdx: 0, rsi: 0, rdi: 0, orig_rax: 0,
                rip: 0, cs: 0, eflags: 0, rsp: 0, ss: 0, fs_base: 0, gs_base: 0,
                ds: 0, es: 0, fs: 0, gs: 0,
            }),
    {
        x86_64_Registers {
            r15: 0, r14: 0, r13: 0, r12: 0, rbp: 0, rbx: 0, r11: 0, r10: 0,
            r9: 0, r8: 0, rax: 0, rcx: 0, rdx: 0, rsi: 0, rdi: 0, orig_rax: 0,
            rip: 0, cs: 0, eflags: 0, rsp: 0, ss: 0, fs_base: 0, gs_base: 0,
            ds: 0, es: 0, fs: 0, gs: 0,
        }
    }
}

/// The System-V x86-64 integer argument registers, in passing order:
/// rdi, rsi, rdx, rcx, r8, r9, as far as `args` supplies them. Every other
/// register keeps the value it has in `regs`.
pub open spec fn spec_apply_args(regs: x86_64_Registers, args: Seq<u64>) -> x86_64_Registers {
    x86_64_Registers {
        rdi: if args.len() > 0 { args[0] } else { regs.rdi },
        rsi: if args.len() > 1 { args[1] } else { regs.rsi },
        rdx: if args.len() > 2 { args[2] } else { regs.rdx },
        rcx: if args.len() > 3 { args[3] } else { regs.rcx },
        r8: if args.len() > 4 { args[4] } else { regs.r8 },
        r9: if args.len() > 5 { args[5] } else { regs.r9 },
        ..regs
    }
}

impl x86_64_Registers {
    /// Builds the register set for a synthesized call: fetches the
    /// tracee's current registers, fills the first six System-V integer
    /// argument slots from `args`, and pushes any remaining arguments
    /// onto the tracee's stack, rightmost first.
    pub fn from_process(process: &Process, args: &Vec<u64>) -> (r: Result<
        x86_64_Registers,
        DebugError,
    >)
        ensures
            r matches Ok(regs) ==> exists|base: x86_64_Registers|
                regs == #[trigger] spec_apply_args(base, args@),
            r matches Err(e) ==> (e matches DebugError::PTrace(_) || e
                matches DebugError::Unmapped || e matches DebugError::IOError(_)),
    {
        let base = match process.getregs() {
            Ok(regs) => regs,
            Err(e) => { return Err(e) },
        };
        let regs = base.apply_args(args);
        let mut i: usize = args.len();
        while i > 6
            invariant
                i <= args@.len(),
            decreases i,
        {
            i = i - 1;
            match process.push(args[i]) {
                Ok(_) => {},
                Err(e) => { return Err(e) },
            }
        }
        proof {
            assert(regs == spec_apply_args(base, args@));
        }
        Ok(regs)
    }

    /// Fills the first six integer argument slots of the System-V calling
    /// convention from `args`; arguments beyond the sixth are the caller's
    /// affair (they go onto the tracee's stack).
    pub fn apply_args(&self, args: &Vec<u64>) -> (r: x86_64_Registers)
        ensures
            r == spec_apply_args(*self, args@),
    {
        let mut regs = *self;
        if args.len() > 0 {
            regs.rdi = args[0];
        }
        if args.len() > 1 {
            regs.rsi = args[1];
        }
        if args.len() > 2 {
            regs.rdx = args[2];
        }
        if args.len() > 3 {
            regs.rcx = args[3];
        }
        if args.len() > 4 {
            regs.r8 = args[4];
        }
        if args.len() > 5 {
            regs.r9 = args[5];
        }
        regs
    }
}

} // verus!
