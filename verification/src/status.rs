//! Decoded `waitpid` status words.
//!
//! A [`Status`] keeps the raw status in the layout that the C library uses,
//! and every accessor is proved against the documented bit formulas: a
//! stopped child has `0x7f` in the low byte and its stop signal in the second
//! byte, an exited child has zero in the low seven bits and its exit code in
//! the second byte, and a killed child has its fatal signal in the low seven
//! bits, with bit `0x80` marking a core dump.

use vstd::prelude::*;

verus! {

/// The signal number of SIGTRAP on Linux.
pub const SIGTRAP: i32 = 5;

/// A `waitpid` status word in the C library's layout.
#[derive(Debug, Clone, Copy, PartialEq, Eq, Structural)]
pub struct Status {
    status: i32,
}

/// One decoded outcome of a wait on the tracee, as handed back by the
/// wait wrapper before it is packed into a raw [`Status`] word.
#[derive(Debug, Clone, Copy, PartialEq, Eq, Structural)]
pub enum WaitEvent {
    /// The child stopped under a signal (the usual breakpoint case).
    Stopped(i32),
    /// The child exited with the given code.
    Exited(i32),
    /// The child was terminated by a signal; the flag records a core dump.
    Signaled(i32, bool),
    /// Any outcome the engine does not drive the tracee into.
    Other,
}

/// True of a status word describing a stopped child.
pub open spec fn spec_stopped(s: i32) -> bool {
    s & 0xff == 0x7f
}

/// True of a status word describing a normally exited child.
pub open spec fn spec_exited(s: i32) -> bool {
    s & 0x7f == 0
}

/// True of a status word describing a signal-terminated child: the low
/// seven bits hold the fatal signal, which is neither zero (an exit) nor
/// `0x7f` (a stop).
pub open spec fn spec_signaled(s: i32) -> bool {
    s & 0x7f != 0 && s & 0x7f != 0x7f
}

/// True of a status word whose termination produced a core dump.
pub open spec fn spec_coredumped(s: i32) -> bool {
    s & 0x80 != 0
}

/// The stop signal carried by a stopped status word.
pub open spec fn spec_stopsig(s: i32) -> i32 {
    (s >> 8) & 0xff
}

/// The fatal signal carried by a signal-terminated status word.
pub open spec fn spec_termsig(s: i32) -> i32 {
    s & 0x7f
}

/// True of a status word that carries SIGTRAP: either the fatal signal
/// of a killed child or the stop signal of a stopped one.
pub open spec fn spec_trapped(s: i32) -> bool {
    spec_signaled(s) && spec_termsig(s) == SIGTRAP || !spec_signaled(s) && spec_stopped(s)
        && spec_stopsig(s) == SIGTRAP
}

/// A status word describes at most one of the three outcomes: stopped,
/// exited, signal-terminated.
pub proof fn lemma_status_kinds(s: i32)
    ensures
        spec_stopped(s) ==> !spec_exited(s) && !spec_signaled(s),
        spec_exited(s) ==> !spec_stopped(s) && !spec_signaled(s),
{
    assert(s & 0xff == 0x7f ==> s & 0x7f == 0x7f) by (bit_vector);
}

impl Status {
    /// The raw status word.
    pub closed spec fn raw(&self) -> i32 {
        self.status
    }

    /// Wraps a raw status word.
    pub fn new(sig: i32) -> (r: Self)
        ensures
            r.raw() == sig,
    {
        Status { status: sig }
    }

    /// True while the child is neither stopped nor gone: the engine may
    /// still drive it.
    pub fn running(&self) -> (r: bool)
        ensures
            r == (!spec_stopped(self.raw()) && !spec_exited(self.raw())
                && !spec_signaled(self.raw()) && !spec_coredumped(self.raw())),
    {
        !self.stopped() && !self.exited() && !self.signaled() && !self.coredumped()
    }

    /// True iff the child is stopped under a signal.
    pub fn stopped(&self) -> (r: bool)
        ensures
            r == spec_stopped(self.raw()),
    {
        self.status & 0xff == 0x7f
    }

    /// True iff the terminating signal produced a core dump.
    pub fn coredumped(&self) -> (r: bool)
        ensures
            r == spec_coredumped(self.raw()),
    {
        self.status & 0x80 != 0
    }

    /// True iff the child exited normally.
    pub fn exited(&self) -> (r: bool)
        ensures
            r == spec_exited(self.raw()),
    {
        self.status & 0x7f == 0
    }

    /// True iff the child was terminated by a signal.
    pub fn signaled(&self) -> (r: bool)
        ensures
            r == spec_signaled(self.raw()),
    {
        self.status & 0x7f != 0 && self.status & 0x7f != 0x7f
    }

    /// The stop signal, present exactly when the child is stopped.
    pub fn stopsig(&self) -> (r: Option<i32>)
        ensures
            r == if spec_stopped(self.raw()) {
                Some(spec_stopsig(self.raw()))
            } else {
                Option::<i32>::None
            },
    {
        if self.stopped() {
            Some((self.status >> 8) & 0xff)
        } else {
            None
        }
    }

    /// The fatal signal, present exactly when the child was terminated by
    /// a signal.
    pub fn termsig(&self) -> (r: Option<i32>)
        ensures
            r == if spec_signaled(self.raw()) {
                Some(spec_termsig(self.raw()))
            } else {
                Option::<i32>::None
            },
    {
        if self.signaled() {
            Some(self.status & 0x7f)
        } else {
            None
        }
    }

    /// The signal carried by the status: the fatal signal of a killed
    /// child, else the stop signal of a stopped one.
    pub fn signal(&self) -> (r: Option<i32>)
        ensures
            r == if spec_signaled(self.raw()) {
                Some(spec_termsig(self.raw()))
            } else if spec_stopped(self.raw()) {
                Some(spec_stopsig(self.raw()))
            } else {
                Option::<i32>::None
            },
    {
        if let Some(x) = self.termsig() {
            Some(x)
        } else if let Some(x) = self.stopsig() {
            Some(x)
        } else {
            None
        }
    }

    /// True iff the status carries SIGTRAP, the signal a software
    /// breakpoint raises.
    pub fn trapped(&self) -> (r: bool)
        ensures
            r == spec_trapped(self.raw()),
    {
        self.signal() == Some(SIGTRAP)
    }

    /// Packs a decoded wait outcome back into the raw layout, so that the
    /// bit accessors above read it out again unchanged.
    pub fn from_event(ev: WaitEvent) -> (r: Self)
        ensures
            ev matches WaitEvent::Stopped(sig) ==> 0 < sig < 0x7f ==> {
                &&& spec_stopped(r.raw())
                &&& !spec_exited(r.raw())
                &&& !spec_signaled(r.raw())
                &&& spec_stopsig(r.raw()) == sig
            },
            ev matches WaitEvent::Exited(code) ==> {
                &&& spec_exited(r.raw())
                &&& !spec_stopped(r.raw())
                &&& !spec_signaled(r.raw())
            },
            ev matches WaitEvent::Signaled(sig, dumped) ==> 0 < sig < 0x7f ==> {
                &&& spec_signaled(r.raw())
                &&& !spec_stopped(r.raw())
                &&& !spec_exited(r.raw())
                &&& spec_termsig(r.raw()) == sig
                &&& spec_coredumped(r.raw()) == dumped
            },
            ev == WaitEvent::Other ==> spec_exited(r.raw()),
    {
        match ev {
            WaitEvent::Stopped(sig) => {
                let s: i32 = ((sig & 0xff) << 8) | 0x7f;
                proof {
                    assert(0 < sig < 0x7f ==> {
                        &&& (((sig & 0xff) << 8) | 0x7f) & 0xff == 0x7f
                        &&& ((((sig & 0xff) << 8) | 0x7f) & 0x7f) == 0x7f
                        &&& (((((sig & 0xff) << 8) | 0x7f) >> 8) & 0xff) == sig
                    }) by (bit_vector);
                }
                Status { status: s }
            },
            WaitEvent::Exited(code) => {
                let s: i32 = (code & 0xff) << 8;
                proof {
                    assert({
                        &&& ((code & 0xff) << 8) & 0x7f == 0
                        &&& ((code & 0xff) << 8) & 0xff != 0x7f
                    }) by (bit_vector);
                }
                Status { status: s }
            },
            WaitEvent::Signaled(sig, core) => {
                let dump: i32 = if core { 0x80 } else { 0 };
                let s: i32 = (sig & 0x7f) | dump;
                proof {
                    let d = dump;
                    assert(0 < sig < 0x7f && (d == 0x80 || d == 0) ==> {
                        &&& (((sig & 0x7f) | d) & 0x7f) == sig
                        &&& ((sig & 0x7f) | d) & 0xff != 0x7f
                        &&& (((sig & 0x7f) | d) & 0x80 != 0) == (d == 0x80)
                    }) by (bit_vector);
                }
                Status { status: s }
            },
            WaitEvent::Other => {
                proof {
                    assert(0i32 & 0x7f == 0) by (bit_vector);
                }
                Status { status: 0 }
            },
        }
    }

    /// Blocks until the given child changes state and hands back the
    /// decoded status in the raw layout. A wait that cannot be decoded
    /// comes back as a plain exit.
    pub fn wait(pid: i32) -> (r: Self) {
        let ev = match crate::process::wait_event(pid) {
            Ok(ev) => ev,
            Err(_) => WaitEvent::Other,
        };
        Status::from_event(ev)
    }

    /// The conventional name of the signal the status carries.
    pub fn to_string(&self) -> String {
        let sig = match self.signal() {
            Some(x) => x,
            None => { return "UNKNOWN".to_owned() },
        };
        let name: &str = match sig {
            1 => "SIGHUP",
            2 => "SIGINT",
            3 => "SIGQUIT",
            4 => "SIGILL",
            5 => "SIGTRAP",
            6 => "SIGABRT",
            7 => "SIGBUS",
            8 => "SIGFPE",
            9 => "SIGKILL",
            10 => "SIGUSR1",
            11 => "SIGSEGV",
            12 => "SIGUSR2",
            13 => "SIGPIPE",
            14 => "SIGALRM",
            15 => "SIGTERM",
            16 => "SIGSTKFLT",
            17 => "SIGCHLD",
            18 => "SIGCONT",
            19 => "SIGSTOP",
            20 => "SIGTSTP",
            21 => "SIGTTIN",
            22 => "SIGTTOU",
            23 => "SIGURG",
            24 => "SIGXCPU",
            25 => "SIGXFSZ",
            26 => "SIGVTALRM",
            27 => "SIGPROF",
            28 => "SIGWINCH",
            29 => "SIGIO",
            30 => "SIGPWR",
            31 => "SIGSYS",
            _ => "UNKNOWN",
        };
        name.to_owned()
    }
}

} // verus!
