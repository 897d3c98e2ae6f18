//! The byte-string search: greedy non-overlapping matches with absolute
//! addresses.

use ptracer::memory::{Memory, MemoryRegion, Permissions};

fn region(start: usize, end: usize) -> MemoryRegion {
    MemoryRegion {
        start,
        end,
        permissions: Permissions { read: true, write: false, execute: false, shared: false },
        pathname: None,
    }
}

#[test]
fn finds_every_disjoint_occurrence() {
    let reg = region(0x1000, 0x1009);
    let bytes = b"abcabcabc".to_vec();
    let found = Memory::get_matches(&reg, b"abc", &bytes);
    let offsets: Vec<usize> = found.iter().map(|f| f.offset).collect();
    assert_eq!(offsets, vec![0, 3, 6]);
    assert_eq!(found[1].address, 0x1003);
    assert_eq!(found[0].region.start, 0x1000);
}

#[test]
fn overlapping_occurrences_collapse_greedily() {
    let reg = region(0, 4);
    let bytes = b"aaaa".to_vec();
    let found = Memory::get_matches(&reg, b"aa", &bytes);
    let offsets: Vec<usize> = found.iter().map(|f| f.offset).collect();
    assert_eq!(offsets, vec![0, 2]);
}

#[test]
fn absent_needle_finds_nothing() {
    let reg = region(0, 5);
    let found = Memory::get_matches(&reg, b"xyz", &b"hello".to_vec());
    assert!(found.is_empty());
}

#[test]
fn empty_needle_matches_nowhere() {
    let reg = region(0, 5);
    let found = Memory::get_matches(&reg, b"", &b"hello".to_vec());
    assert!(found.is_empty());
}

#[test]
fn single_byte_needle() {
    let reg = region(0x40, 0x46);
    let found = Memory::get_matches(&reg, b"l", &b"hello!".to_vec());
    let addresses: Vec<usize> = found.iter().map(|f| f.address).collect();
    assert_eq!(addresses, vec![0x42, 0x43]);
}

#[test]
fn needle_at_the_very_end() {
    let reg = region(0, 6);
    let found = Memory::get_matches(&reg, b"end", &b"theend".to_vec());
    let offsets: Vec<usize> = found.iter().map(|f| f.offset).collect();
    assert_eq!(offsets, vec![3]);
}
