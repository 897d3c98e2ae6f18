//! Live checks against this very process's `/proc` surface, and the
//! failure paths of the trace primitives.

use ptracer::breakpoint::Breakpoint;
use ptracer::error::DebugError;
use ptracer::manager::Manager;
use ptracer::memory::{Endianness, Memory, MemoryPack};
use ptracer::phantom::{PhantomCall, PhantomManager};
use ptracer::process::Process;
use ptracer::registers::x86_64_Registers;
use ptracer::status::Status;

fn own_pid() -> i32 {
    nix::unistd::getpid().as_raw()
}

#[test]
fn load_own_mapping_table() {
    let mem = Memory::load(own_pid() as usize).unwrap();
    assert!(!mem.maps.is_empty());
    assert!(mem.min() > 0);
    assert!(mem.max() > mem.min());
    // The table is sorted and disjoint.
    for w in mem.maps.windows(2) {
        assert!(w[0].end <= w[1].start);
    }
}

#[test]
fn read_own_memory() {
    let mem = Memory::load(own_pid() as usize).unwrap();
    let first_readable = mem.maps.iter().find(|r| r.permissions.read && r.end > r.start).unwrap();
    let bytes = mem.read(first_readable.start, 16).unwrap();
    assert_eq!(bytes.len(), 16);
}

#[test]
fn search_finds_a_value_in_our_own_memory() {
    let pattern = b"qzXv91utheNy".to_vec();
    let mem = Memory::load(own_pid() as usize).unwrap();
    let found = mem.search(mem.min(), mem.max(), &pattern);
    // The pattern buffer above lives somewhere in our readable memory.
    assert!(!found.is_empty());
    assert!(found.iter().all(|f| f.address == f.region.start + f.offset));
    assert!(found.iter().all(|f| f.region.permissions.read));
    let _keep = pattern;
}

#[test]
fn write_own_memory_round_trips() {
    // Locate a unique buffer of ours by searching, overwrite it through
    // the memory image, and watch the buffer change. A hit is only
    // touched while a fresh read shows it still holds the pattern.
    let buffer = b"Jk3qPzW0meLd".to_vec();
    let mem = Memory::load(own_pid() as usize).unwrap();
    let found = mem.search(mem.min(), mem.max(), &buffer);
    let mut wrote = false;
    for hit in found.iter().filter(|f| f.region.permissions.write) {
        if mem.read(hit.address, 12).ok().as_deref() == Some(&buffer[..]) {
            assert_eq!(mem.write(hit.address, b"rust!").unwrap(), 5);
            wrote = true;
        }
    }
    assert!(wrote);
    assert_eq!(&buffer[..5], b"rust!");
    assert_eq!(&buffer[5..], b"zW0meLd");
}

#[test]
fn poke_and_peek_a_word_round_trips() {
    let buffer = b"Yw8sHqT2vbNc".to_vec();
    let mem = Memory::load(own_pid() as usize).unwrap();
    let process = Process::new(own_pid()).unwrap();
    let found = mem.search(mem.min(), mem.max(), &buffer);
    let mut poked = false;
    for hit in found.iter().filter(|f| f.region.permissions.write) {
        if mem.read(hit.address, 12).ok().as_deref() == Some(&buffer[..]) {
            let original = process.peek(hit.address as u64).unwrap();
            assert_eq!(original.to_le_bytes().to_vec(), buffer[..8].to_vec());
            process.poke(hit.address as u64, 0x4141414141414141).unwrap();
            poked = true;
        }
    }
    assert!(poked);
    assert_eq!(&buffer[..8], b"AAAAAAAA");
    assert_eq!(&buffer[8..], b"vbNc");
}

#[test]
fn search_finds_a_planted_packed_value() {
    // A packed value planted behind a unique marker is found by
    // searching for the marker and the packed bytes together.
    let mut planted = b"Ux5cRq7aLmW3".to_vec();
    planted.extend(
        0xdeadbeef_u32.pack(ptracer::memory::QuerySize::Length, Endianness::LittleEndian),
    );
    let mem = Memory::load(own_pid() as usize).unwrap();
    let found = mem.search(mem.min(), mem.max(), &planted);
    assert!(!found.is_empty());
    assert!(found.iter().any(|f| f.region.permissions.write));
    let _keep = planted;
}

#[test]
fn peek_own_memory() {
    let mem = Memory::load(own_pid() as usize).unwrap();
    let first_readable = mem.maps.iter().find(|r| r.permissions.read && r.end > r.start).unwrap();
    let process = Process::new(own_pid()).unwrap();
    let word = process.peek(first_readable.start as u64).unwrap();
    let bytes = mem.read(first_readable.start, 8).unwrap();
    assert_eq!(word.to_le_bytes().to_vec(), bytes);
}

#[test]
fn absent_process_is_an_io_error() {
    assert!(matches!(Process::new(-1), Err(DebugError::IOError(_))));
    assert!(matches!(Memory::load(0), Err(DebugError::IOError(_))));
}

#[test]
fn breakpoint_on_absent_process_fails() {
    assert!(Breakpoint::new("nowhere".to_string(), -1, 0x1000).is_err());
}

#[test]
fn untraced_process_refuses_getregs() {
    // We are not our own tracer, so register access must fail.
    let process = Process::new(own_pid()).unwrap();
    assert!(matches!(process.getregs(), Err(DebugError::PTrace(_))));
}

#[test]
fn session_needs_a_traced_child() {
    // Our own process is no tracee of ours: adopting it fails at the
    // first register fetch.
    let r = ptracer::debugger::Debugger::new("self".to_string(), vec![], own_pid());
    assert!(matches!(r, Err(DebugError::PTrace(_))));
}

#[test]
fn manager_rejects_out_of_range_pid() {
    let mut mgr = Manager::new(usize::MAX, Some(0x401001));
    assert!(mgr.set(0x400000).is_err());
}

#[test]
fn manager_current_needs_a_running_program() {
    let mgr = Manager::new(1, None);
    assert!(mgr.current().is_err());
    let stopped = Manager::new(1, Some(0x401001));
    assert!(matches!(stopped.current(), Err(DebugError::NoBreakpoint)));
}

#[test]
fn manager_hands_out_exclusive_entries() {
    let process = Process { pid: 3, status: Status::new(0), mem_fd: -1 };
    let bp = Breakpoint {
        addr: 0x401000,
        name: "entry".to_string(),
        enabled: true,
        temporary: false,
        process,
        restore: 0x55,
    };
    let mut table = std::collections::HashMap::new();
    table.insert(0x401001u64, bp);
    let mut mgr = Manager { pid: 3, pc: Some(0x401001), breakpoints: table };

    assert!(mgr.at(0x401000).is_some());
    assert!(mgr.at(0x401005).is_none());
    assert_eq!(mgr.current().unwrap().unwrap().addr, 0x401000);

    {
        let inside = mgr.current_mut().unwrap().unwrap();
        inside.temporary(true);
    }
    let after = mgr.at(0x401000).unwrap();
    assert!(after.is_temporary());
    // The armed state is independent of the one-shot flag.
    assert!(after.is_enabled());

    assert!(mgr.at_mut(0x999).is_none());
}

#[test]
fn session_table_lookup_and_exclusive_access() {
    let process = Process { pid: 5, status: Status::new(0), mem_fd: -1 };
    let bp = Breakpoint {
        addr: 0x400500,
        name: "main".to_string(),
        enabled: true,
        temporary: false,
        process,
        restore: 0x90,
    };
    let mut table = std::collections::HashMap::new();
    table.insert(0x400501u64, bp);
    let mut dbg = ptracer::debugger::Debugger {
        process,
        breakpoints: table,
        file: "target".to_string(),
        args: vec![],
        pc: Some(0x400501),
        log: ptracer::debugger::LOG_SILENT,
        phantom_mgr: PhantomManager::new(5),
    };

    assert!(dbg.at_breakpoint());
    assert_eq!(dbg.current_breakpoint().unwrap().addr, 0x400500);
    assert!(dbg.breakpoint_at(0x400500).is_none());
    assert!(dbg.breakpoint_at(0x400501).is_some());

    {
        let inside = dbg.current_breakpoint_mut().unwrap();
        inside.name("renamed");
    }
    assert_eq!(dbg.current_breakpoint().unwrap().name, "renamed");

    dbg.pc = None;
    assert!(!dbg.at_breakpoint());
    assert!(dbg.current_breakpoint().is_err());
    assert!(dbg.current_breakpoint_mut().is_err());
    assert!(dbg.breakpoint_at_mut(0x999).is_none());
}

#[test]
fn session_refuses_duplicate_breakpoints() {
    let process = Process { pid: 9, status: Status::new(0), mem_fd: -1 };
    let bp = Breakpoint {
        addr: 0x400500,
        name: "first".to_string(),
        enabled: true,
        temporary: false,
        process,
        restore: 0,
    };
    let mut table = std::collections::HashMap::new();
    table.insert(0x400501u64, bp);
    let mut dbg = ptracer::debugger::Debugger {
        process,
        breakpoints: table,
        file: "target".to_string(),
        args: vec![],
        pc: None,
        log: ptracer::debugger::LOG_SILENT,
        phantom_mgr: PhantomManager::new(9),
    };
    assert!(dbg.breakpoint(0x400500).is_err());
    assert!(dbg.tmp_breakpoint(0x400500).is_err());
    assert_eq!(dbg.breakpoints.len(), 1);
}

#[test]
fn failed_disarm_leaves_the_flag_armed() {
    // The flag tracks the byte: when the restoring write cannot reach
    // the tracee, the site still counts as armed.
    let process = Process { pid: 11, status: Status::new(0), mem_fd: -1 };
    let mut bp = Breakpoint {
        addr: 0x400600,
        name: "stuck".to_string(),
        enabled: true,
        temporary: false,
        process,
        restore: 0x90,
    };
    assert!(bp.restore_to(0x400700).is_err());
    assert!(bp.is_enabled());
    assert!(bp.restore().is_err());
    assert!(bp.is_enabled());
}

#[test]
fn phantom_exit_matches_the_topmost_frame() {
    let process = Process { pid: 0, status: Status::new(0), mem_fd: -1 };
    let exit = Breakpoint {
        addr: 0x400100,
        name: "<phantom_call_cleanup>".to_string(),
        enabled: false,
        temporary: true,
        process,
        restore: 0,
    };
    let pm = PhantomManager {
        stack: vec![PhantomCall { restore: x86_64_Registers::default(), exits: vec![exit] }],
        pid: 0,
    };
    assert!(pm.is_exit_at(0x400101));
    assert!(!pm.is_exit_at(0x400100));
    assert!(!pm.is_exit_at(0));
    let empty = PhantomManager::new(0);
    assert!(!empty.is_exit_at(0x400101));
}

#[test]
fn errors_describe_themselves() {
    assert_eq!(DebugError::Unmapped.description(), "address is not mapped in memory");
    assert_eq!(
        DebugError::SpuriousTrap.description(),
        "received SIGTRAP but not at a known breakpoint"
    );
    assert_eq!(DebugError::Error("boom").description(), "boom");
    assert_eq!(
        DebugError::Status(Status::new(0x057f)).description(),
        "SIGTRAP"
    );
}

#[test]
fn breakpoints_compare_by_identity() {
    let process = Process { pid: 7, status: Status::new(0), mem_fd: -1 };
    let a = Breakpoint {
        addr: 0x400100,
        name: "one".to_string(),
        enabled: true,
        temporary: false,
        process,
        restore: 0x1111,
    };
    let mut b = a.clone();
    b.restore = 0x2222;
    b.enabled = false;
    assert_eq!(a, b);
    let mut c = a.clone();
    c.name = "two".to_string();
    assert_ne!(a, c);
}
