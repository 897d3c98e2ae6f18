//! Wait-status decoding against the documented bit layout.

use ptracer::status::{Status, WaitEvent, SIGTRAP};

#[test]
fn stopped_status_carries_stop_signal() {
    // SIGTRAP stop: signal 5 in the second byte, 0x7f in the low byte.
    let s = Status::new(0x057f);
    assert!(s.stopped());
    assert!(!s.exited());
    assert!(!s.signaled());
    assert_eq!(s.stopsig(), Some(5));
    assert_eq!(s.termsig(), None);
    assert_eq!(s.signal(), Some(SIGTRAP));
    assert!(s.trapped());
    assert!(!s.running());
}

#[test]
fn exited_status_has_zero_low_bits() {
    let s = Status::new(0x4200);
    assert!(s.exited());
    assert!(!s.stopped());
    assert!(!s.signaled());
    assert_eq!(s.stopsig(), None);
    assert_eq!(s.termsig(), None);
    assert_eq!(s.signal(), None);
}

#[test]
fn signaled_status_carries_fatal_signal_and_core_flag() {
    // SIGSEGV with a core dump: signal 11 in the low seven bits, bit 0x80.
    let s = Status::new(0x8b);
    assert!(s.signaled());
    assert!(s.coredumped());
    assert!(!s.stopped());
    assert!(!s.exited());
    assert_eq!(s.termsig(), Some(11));
    assert_eq!(s.signal(), Some(11));
}

#[test]
fn fresh_status_counts_as_exited_not_running() {
    let s = Status::new(0);
    assert!(s.exited());
    assert!(!s.running());
}

#[test]
fn packed_stop_event_decodes_back() {
    let s = Status::from_event(WaitEvent::Stopped(SIGTRAP));
    assert!(s.stopped());
    assert_eq!(s.stopsig(), Some(SIGTRAP));
    assert!(s.trapped());
}

#[test]
fn packed_exit_event_decodes_back() {
    let s = Status::from_event(WaitEvent::Exited(3));
    assert!(s.exited());
    assert!(!s.stopped());
    assert!(!s.signaled());
}

#[test]
fn packed_kill_event_decodes_back() {
    let s = Status::from_event(WaitEvent::Signaled(9, true));
    assert!(s.signaled());
    assert!(s.coredumped());
    assert_eq!(s.termsig(), Some(9));
    let quiet = Status::from_event(WaitEvent::Signaled(15, false));
    assert!(quiet.signaled());
    assert!(!quiet.coredumped());
    assert_eq!(quiet.termsig(), Some(15));
}

#[test]
fn undecodable_wait_counts_as_exit() {
    let s = Status::from_event(WaitEvent::Other);
    assert!(s.exited());
    assert!(!s.running());
}

#[test]
fn signal_names() {
    assert_eq!(Status::from_event(WaitEvent::Stopped(5)).to_string(), "SIGTRAP");
    assert_eq!(Status::from_event(WaitEvent::Signaled(11, false)).to_string(), "SIGSEGV");
    assert_eq!(Status::from_event(WaitEvent::Stopped(2)).to_string(), "SIGINT");
    assert_eq!(Status::new(0).to_string(), "UNKNOWN");
}
