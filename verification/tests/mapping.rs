//! The mapping table: line decoding, permission coalescing, and bounds.

use ptracer::error::DebugError;
use ptracer::memory::{
    parse_line, parse_maps, ChunkPermission, Memory, MemoryRegion, Permissions,
};

fn region(start: usize, end: usize, read: bool, write: bool, execute: bool) -> MemoryRegion {
    MemoryRegion {
        start,
        end,
        permissions: Permissions { read, write, execute, shared: false },
        pathname: None,
    }
}

#[test]
fn parse_line_with_path() {
    let line = b"00400000-00452000 r-xp 00000000 08:02 173521      /usr/bin/dbus-daemon";
    let reg = parse_line(line).unwrap();
    assert_eq!(reg.start, 0x00400000);
    assert_eq!(reg.end, 0x00452000);
    assert!(reg.permissions.read);
    assert!(!reg.permissions.write);
    assert!(reg.permissions.execute);
    assert!(!reg.permissions.shared);
    assert_eq!(reg.pathname, Some(b"/usr/bin/dbus-daemon".to_vec()));
}

#[test]
fn parse_line_stack() {
    let line = b"7ffc04b0f000-7ffc04b30000 rw-p 00000000 00:00 0          [stack]";
    let reg = parse_line(line).unwrap();
    assert_eq!(reg.start, 0x7ffc04b0f000);
    assert_eq!(reg.end, 0x7ffc04b30000);
    assert!(reg.permissions.read);
    assert!(reg.permissions.write);
    assert!(!reg.permissions.execute);
    assert_eq!(reg.pathname, Some(b"[stack]".to_vec()));
}

#[test]
fn parse_line_anonymous_has_no_path() {
    let line = b"7f1234560000-7f1234570000 rw-s 00000000 00:00 0";
    let reg = parse_line(line).unwrap();
    assert!(reg.permissions.shared);
    assert_eq!(reg.pathname, None);
}

#[test]
fn parse_line_rejects_garbage() {
    assert!(matches!(parse_line(b"not a mapping line"), Err(DebugError::Parse)));
    assert!(matches!(parse_line(b""), Err(DebugError::Parse)));
    assert!(matches!(parse_line(b"00400000 r-xp"), Err(DebugError::Parse)));
}

#[test]
fn parse_maps_collects_lines() {
    let table = b"00400000-00452000 r-xp 00000000 08:02 17 /bin/a\n\
00452000-00453000 rw-p 00000000 08:02 17 /bin/a\n";
    let regions = parse_maps(&table.to_vec()).unwrap();
    assert_eq!(regions.len(), 2);
    assert_eq!(regions[0].start, 0x400000);
    assert_eq!(regions[1].end, 0x453000);
    assert!(regions[1].permissions.write);
}

#[test]
fn find_chunk_inside_one_region() {
    let mem = Memory { maps: vec![region(0x1000, 0x2000, true, false, false)], mem_fd: -1 };
    assert!(mem.find_chunk(0x1800, 0x100, ChunkPermission::Read).is_some());
    assert!(mem.find_chunk(0x1800, 0x900, ChunkPermission::Read).is_none());
    assert!(mem.find_chunk(0x1800, 0x100, ChunkPermission::Write).is_none());
    assert!(mem.find_chunk(0x3000, 0x10, ChunkPermission::Read).is_none());
}

#[test]
fn find_chunk_coalesces_adjacent_regions() {
    // Two abutting readable regions act as one window.
    let mem = Memory {
        maps: vec![
            region(0x1000, 0x2000, true, false, true),
            region(0x2000, 0x3000, true, false, false),
        ],
        mem_fd: -1,
    };
    assert!(mem.find_chunk(0x1800, 0x1000, ChunkPermission::Read).is_some());
    // The execute window ends at the first region's end.
    assert!(mem.find_chunk(0x1800, 0x1000, ChunkPermission::Execute).is_none());
    assert!(mem.find_chunk(0x1800, 0x100, ChunkPermission::Execute).is_some());
}

#[test]
fn find_chunk_stops_at_gaps() {
    let mem = Memory {
        maps: vec![
            region(0x1000, 0x2000, true, false, false),
            region(0x2800, 0x3000, true, false, false),
        ],
        mem_fd: -1,
    };
    assert!(mem.find_chunk(0x1800, 0x900, ChunkPermission::Read).is_none());
    assert!(mem.find_chunk(0x1800, 0x800, ChunkPermission::Read).is_some());
}

#[test]
fn unmapped_read_is_rejected() {
    let mem = Memory { maps: vec![], mem_fd: -1 };
    assert!(matches!(mem.read(0x1000, 16), Err(DebugError::Unmapped)));
}

#[test]
fn unmapped_write_is_rejected() {
    let mem = Memory { maps: vec![region(0x1000, 0x2000, true, false, false)], mem_fd: -1 };
    assert!(matches!(mem.write(0x1000, b"abc"), Err(DebugError::Unmapped)));
}

#[test]
fn min_and_max_span_the_table() {
    let mem = Memory {
        maps: vec![
            region(0x1000, 0x2000, true, false, false),
            region(0x2800, 0x3000, true, false, false),
        ],
        mem_fd: -1,
    };
    assert_eq!(mem.min(), 0x1000);
    assert_eq!(mem.max(), 0x3000);
    let empty = Memory { maps: vec![], mem_fd: -1 };
    assert_eq!(empty.min(), 0);
    assert_eq!(empty.max(), 0);
}
