//! The numeric packing helpers: widths, byte order, padding, truncation.

use ptracer::memory::{le_bytes_of, Endianness, MemoryPack, QuerySize, WORDSIZE};
use ptracer::process::merge_bits;

#[test]
fn query_sizes_resolve() {
    assert_eq!(QuerySize::Length.size(7), 7);
    assert_eq!(QuerySize::Bytes(3).size(7), 3);
    assert_eq!(QuerySize::Half.size(7), WORDSIZE / 2);
    assert_eq!(QuerySize::Word.size(7), WORDSIZE);
    assert_eq!(QuerySize::Double.size(7), WORDSIZE * 2);
    assert_eq!(QuerySize::Quad.size(7), WORDSIZE * 4);
}

#[test]
fn le_bytes_render_low_bytes_first() {
    assert_eq!(le_bytes_of(0xdeadbeef, 4), vec![0xef, 0xbe, 0xad, 0xde]);
    assert_eq!(le_bytes_of(0x01, 4), vec![1, 0, 0, 0]);
    assert_eq!(le_bytes_of(0xaabb, 1), vec![0xbb]);
    assert_eq!(le_bytes_of(5, 0), Vec::<u8>::new());
}

#[test]
fn pack_u32_at_its_own_width() {
    let bytes = 0xdeadbeef_u32.pack(QuerySize::Length, Endianness::LittleEndian);
    assert_eq!(bytes, vec![0xef, 0xbe, 0xad, 0xde]);
}

#[test]
fn pack_zero_extends_to_wider_size() {
    let bytes = 0x0102_u16.pack(QuerySize::Quad, Endianness::LittleEndian);
    assert_eq!(bytes, vec![2, 1, 0, 0, 0, 0, 0, 0]);
}

#[test]
fn pack_truncates_from_the_high_end() {
    let bytes = 0x1122334455667788_u64.pack(QuerySize::Word, Endianness::LittleEndian);
    assert_eq!(bytes, vec![0x88, 0x77]);
}

#[test]
fn pack_big_endian_reverses() {
    let bytes = 0xdeadbeef_u32.pack(QuerySize::Length, Endianness::BigEndian);
    assert_eq!(bytes, vec![0xde, 0xad, 0xbe, 0xef]);
}

#[test]
fn pack_signed_uses_twos_complement_bytes() {
    let bytes = (-1_i16).pack(QuerySize::Length, Endianness::LittleEndian);
    assert_eq!(bytes, vec![0xff, 0xff]);
}

#[test]
fn pack_str_shorter_is_zero_prefixed() {
    let bytes = "AB".pack(QuerySize::Bytes(4), Endianness::LittleEndian);
    assert_eq!(bytes, vec![0, 0, b'A', b'B']);
}

#[test]
fn pack_str_longer_is_right_truncated() {
    let bytes = "hello".pack(QuerySize::Bytes(3), Endianness::LittleEndian);
    assert_eq!(bytes, b"hel".to_vec());
}

#[test]
fn pack_string_at_own_length() {
    let bytes = String::from("rust!").pack(QuerySize::Length, Endianness::LittleEndian);
    assert_eq!(bytes, b"rust!".to_vec());
}

#[test]
fn merge_bits_replaces_only_the_low_byte() {
    assert_eq!(merge_bits(0x1122334455667788, 0xcc, 8), 0x11223344556677cc);
    assert_eq!(merge_bits(0xffffffffffffffff, 0, 8), 0xffffffffffffff00);
    assert_eq!(merge_bits(0xaabb, 0x11cc, 8), 0xaacc);
}
