//! The register file: accessors, masking, and argument marshalling.

use ptracer::registers::{Cast, Register, x86_64_Registers};

#[test]
fn pointer_accessors_read_and_write() {
    let mut regs = x86_64_Registers::default();
    regs.set_ip(0x400000);
    regs.set_sp(0x7fff0000);
    regs.set_bp(0x7fff0040);
    assert_eq!(regs.ip(), 0x400000);
    assert_eq!(regs.sp(), 0x7fff0000);
    assert_eq!(regs.bp(), 0x7fff0040);
}

#[test]
fn mask_forces_control_registers_back() {
    let mut current = x86_64_Registers::default();
    current.set_ip(0x1111);
    current.set_sp(0x2222);
    current.set_bp(0x3333);
    let mut user = x86_64_Registers::default();
    user.rdi = 0xdead;
    user.set_ip(0x9999);
    user.set_sp(0x8888);
    let masked = current.mask(user);
    assert_eq!(masked.ip(), 0x1111);
    assert_eq!(masked.sp(), 0x2222);
    assert_eq!(masked.bp(), 0x3333);
    assert_eq!(masked.rdi, 0xdead);
}

#[test]
fn stack_offset_adds_to_the_stack_pointer() {
    let mut regs = x86_64_Registers::default();
    regs.set_sp(0x7fff0000);
    assert_eq!(regs.stack_offset(0x10), 0x7fff0010);
}

#[test]
fn apply_args_fills_the_calling_convention() {
    let mut base = x86_64_Registers::default();
    base.rdi = 0xaa;
    base.r9 = 0xbb;
    let filled = base.apply_args(&vec![1, 2, 3]);
    assert_eq!(filled.rdi, 1);
    assert_eq!(filled.rsi, 2);
    assert_eq!(filled.rdx, 3);
    assert_eq!(filled.rcx, 0);
    assert_eq!(filled.r9, 0xbb);
    let six = base.apply_args(&vec![1, 2, 3, 4, 5, 6]);
    assert_eq!(six.rcx, 4);
    assert_eq!(six.r8, 5);
    assert_eq!(six.r9, 6);
}

#[test]
fn register_dump_renders_hex() {
    let mut regs = x86_64_Registers::default();
    regs.set_ip(0x4005d1);
    regs.rax = 0xdeadbeef;
    let dump = regs.to_string();
    assert!(dump.contains("\trip: 0x4005d1\n"));
    assert!(dump.contains("\trax: 0xdeadbeef\n"));
    assert!(dump.contains("\trdi: 0x0"));
}

#[test]
fn casts_between_word_and_host_sizes() {
    let w: u64 = 0x1234;
    let u: usize = w.cast();
    assert_eq!(u, 0x1234usize);
    let back: u64 = u.cast();
    assert_eq!(back, 0x1234u64);
}

#[test]
fn size_from_reinterprets_raw_words() {
    assert_eq!(x86_64_Registers::size_from(-1), u64::MAX);
    assert_eq!(x86_64_Registers::size_from(0x42), 0x42);
}
