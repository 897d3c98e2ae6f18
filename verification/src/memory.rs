//! The tracee's memory: packing helpers, the mapping table, and
//! permission-checked reads, writes and searches.
//!
//! Values are rendered for searching by [`MemoryPack::pack`], whose result
//! is pinned byte for byte by [`spec_le_bytes`]. The mapping table is a
//! [`Memory`]: a sorted, disjoint sequence of [`MemoryRegion`]s together
//! with a handle to the tracee's memory image. Access validation coalesces
//! adjacent regions that share the requested permission, as
//! [`spec_covered`] states.

use vstd::prelude::*;

use crate::error::DebugError;

verus! {

use vstd::string::StringSliceAdditionalSpecFns;
use vstd::slice::slice_subrange;
use vstd::slice::slice_to_vec;
use vstd::multiset::Multiset;

/// Width in bytes of a target machine word, as the packing sizes count it.
/// The packing widths follow the historical convention where a word is two
/// bytes, a double four and a quad eight.
pub const WORDSIZE: usize = 2;

/// Byte order applied to a packed value.
#[derive(Debug, Clone, Copy, PartialEq, Eq, Structural)]
pub enum Endianness {
    BigEndian,
    LittleEndian,
}

/// The width a value is packed to.
#[derive(Debug, Clone, Copy, PartialEq, Eq, Structural)]
pub enum QuerySize {
    /// The value's own length.
    Length,
    /// An exact byte count.
    Bytes(usize),
    /// Half a word: one byte.
    Half,
    /// One word: two bytes.
    Word,
    /// A double word: four bytes.
    Double,
    /// A quad word: eight bytes.
    Quad,
}

impl QuerySize {
    /// The width in bytes that this size denotes, where [`QuerySize::Length`]
    /// falls back to `default`.
    pub open spec fn spec_size(&self, default: usize) -> usize {
        match self {
            QuerySize::Length => default,
            QuerySize::Bytes(size) => *size,
            QuerySize::Half => (WORDSIZE / 2) as usize,
            QuerySize::Word => WORDSIZE,
            QuerySize::Double => (WORDSIZE * 2) as usize,
            QuerySize::Quad => (WORDSIZE * 4) as usize,
        }
    }

    /// Resolves this size against the packed value's own length.
    pub fn size(&self, default: usize) -> (r: usize)
        ensures
            r == self.spec_size(default),
    {
        match self {
            QuerySize::Length => default,
            QuerySize::Bytes(size) => *size,
            QuerySize::Half => WORDSIZE / 2,
            QuerySize::Word => WORDSIZE,
            QuerySize::Double => WORDSIZE * 2,
            QuerySize::Quad => WORDSIZE * 4,
        }
    }
}

/// The `width` low-order bytes of `v`, least significant first: the result
/// of little-endian rendering with zero-extension past the value's width
/// and truncation from the high end below it.
pub open spec fn spec_le_bytes(v: nat, width: nat) -> Seq<u8>
    decreases width,
{
    if width == 0 {
        Seq::empty()
    } else {
        seq![(v % 256) as u8] + spec_le_bytes(v / 256, (width - 1) as nat)
    }
}

/// Renders the `width` low-order bytes of `v`, least significant first.
pub fn le_bytes_of(v: u64, width: usize) -> (r: Vec<u8>)
    ensures
        r@ == spec_le_bytes(v as nat, width as nat),
    decreases width,
{
    let mut out: Vec<u8> = Vec::new();
    let mut rest: u64 = v;
    let mut i: usize = 0;
    while i < width
        invariant
            i <= width,
            out@.len() == i,
            spec_le_bytes(v as nat, width as nat) == out@ + spec_le_bytes(
                rest as nat,
                (width - i) as nat,
            ),
        decreases width - i,
    {
        proof {
            assert(spec_le_bytes(rest as nat, (width - i) as nat) == seq![(rest as nat % 256) as u8]
                + spec_le_bytes(rest as nat / 256, (width - i - 1) as nat));
        }
        out.push((rest % 256) as u8);
        rest = rest / 256;
        i = i + 1;
        proof {
            assert(spec_le_bytes(v as nat, width as nat) =~= out@ + spec_le_bytes(
                rest as nat,
                (width - i) as nat,
            ));
        }
    }
    out
}

/// What [`MemoryPack::pack`] yields over the packed value's bytes: the
/// little-endian rendering at the resolved width, reversed for big-endian
/// order.
pub open spec fn spec_packed(v: nat, native: usize, size: QuerySize, order: Endianness) -> Seq<
    u8,
> {
    let width = size.spec_size(native);
    if order == Endianness::LittleEndian {
        spec_le_bytes(v, width as nat)
    } else {
        spec_le_bytes(v, width as nat).reverse()
    }
}

/// Renders an integer value of native width `native` (its own byte count)
/// into a padded or truncated buffer of the resolved width.
pub fn pack_int(v: u64, native: usize, size: QuerySize, order: Endianness) -> (r: Vec<u8>)
    ensures
        r@ == spec_packed(v as nat, native, size, order),
{
    let width = size.size(native);
    let mut bytes = le_bytes_of(v, width);
    if order == Endianness::BigEndian {
        let mut rev: Vec<u8> = Vec::new();
        let mut i: usize = bytes.len();
        while i > 0
            invariant
                i <= bytes@.len(),
                rev@ =~= bytes@.subrange(i as int, bytes@.len() as int).reverse(),
            decreases i,
        {
            i = i - 1;
            rev.push(bytes[i]);
            proof {
                assert(rev@ =~= bytes@.subrange(i as int, bytes@.len() as int).reverse());
            }
        }
        proof {
            assert(bytes@.subrange(0, bytes@.len() as int) =~= bytes@);
        }
        rev
    } else {
        bytes
    }
}

/// What packing a byte string yields: zero-prefixed up to the width when
/// the string is shorter, truncated on the right when it is longer.
pub open spec fn spec_packed_bytes(s: Seq<u8>, native: usize, size: QuerySize) -> Seq<u8> {
    let width = size.spec_size(native);
    if s.len() < width {
        Seq::new((width - s.len()) as nat, |i: int| 0u8) + s
    } else {
        s.take(width as int)
    }
}

/// Renders a byte string into a buffer of the resolved width: shorter
/// strings are zero-prefixed, longer ones lose their tail.
pub fn pack_bytes(s: &[u8], size: QuerySize) -> (r: Vec<u8>)
    ensures
        r@ == spec_packed_bytes(s@, s@.len() as usize, size),
{
    let width = size.size(s.len());
    let mut out: Vec<u8> = Vec::new();
    if s.len() < width {
        let pad = width - s.len();
        let mut i: usize = 0;
        while i < pad
            invariant
                i <= pad,
                out@ =~= Seq::new(i as nat, |j: int| 0u8),
            decreases pad - i,
        {
            out.push(0u8);
            i = i + 1;
            proof {
                assert(out@ =~= Seq::new(i as nat, |j: int| 0u8));
            }
        }
        let mut j: usize = 0;
        while j < s.len()
            invariant
                j <= s@.len(),
                pad == width - s@.len(),
                s@.len() < width,
                out@ =~= Seq::new(pad as nat, |k: int| 0u8) + s@.take(j as int),
            decreases s@.len() - j,
        {
            out.push(s[j]);
            j = j + 1;
            proof {
                assert(out@ =~= Seq::new(pad as nat, |k: int| 0u8) + s@.take(j as int));
            }
        }
        proof {
            assert(s@.take(s@.len() as int) =~= s@);
        }
    } else {
        let mut j: usize = 0;
        while j < width
            invariant
                j <= width <= s@.len(),
                out@ =~= s@.take(j as int),
            decreases width - j,
        {
            out.push(s[j]);
            j = j + 1;
            proof {
                assert(out@ =~= s@.take(j as int));
            }
        }
    }
    out
}

/// Renders a value into a padded or truncated byte buffer suitable as a
/// search needle.
pub trait MemoryPack {
    /// Renders `self` at the width `size` resolves to, in the given byte
    /// order.
    fn pack(self, size: QuerySize, order: Endianness) -> Vec<u8>;
}

impl MemoryPack for u8 {
    fn pack(self, size: QuerySize, order: Endianness) -> (r: Vec<u8>)
        ensures
            r@ == spec_packed(self as nat, 1, size, order),
    {
        pack_int(self as u64, 1, size, order)
    }
}

impl MemoryPack for u16 {
    fn pack(self, size: QuerySize, order: Endianness) -> (r: Vec<u8>)
        ensures
            r@ == spec_packed(self as nat, 2, size, order),
    {
        pack_int(self as u64, 2, size, order)
    }
}

impl MemoryPack for u32 {
    fn pack(self, size: QuerySize, order: Endianness) -> (r: Vec<u8>)
        ensures
            r@ == spec_packed(self as nat, 4, size, order),
    {
        pack_int(self as u64, 4, size, order)
    }
}

impl MemoryPack for u64 {
    fn pack(self, size: QuerySize, order: Endianness) -> (r: Vec<u8>)
        ensures
            r@ == spec_packed(self as nat, 8, size, order),
    {
        pack_int(self, 8, size, order)
    }
}

impl MemoryPack for usize {
    fn pack(self, size: QuerySize, order: Endianness) -> (r: Vec<u8>)
        ensures
            r@ == spec_packed(self as nat, 8, size, order),
    {
        pack_int(self as u64, 8, size, order)
    }
}

impl MemoryPack for i8 {
    fn pack(self, size: QuerySize, order: Endianness) -> (r: Vec<u8>)
        ensures
            r@ == spec_packed((self as u8) as nat, 1, size, order),
    {
        pack_int((self as u8) as u64, 1, size, order)
    }
}

impl MemoryPack for i16 {
    fn pack(self, size: QuerySize, order: Endianness) -> (r: Vec<u8>)
        ensures
            r@ == spec_packed((self as u16) as nat, 2, size, order),
    {
        pack_int((self as u16) as u64, 2, size, order)
    }
}

impl MemoryPack for i32 {
    fn pack(self, size: QuerySize, order: Endianness) -> (r: Vec<u8>)
        ensures
            r@ == spec_packed((self as u32) as nat, 4, size, order),
    {
        pack_int((self as u32) as u64, 4, size, order)
    }
}

impl MemoryPack for i64 {
    fn pack(self, size: QuerySize, order: Endianness) -> (r: Vec<u8>)
        ensures
            r@ == spec_packed((self as u64) as nat, 8, size, order),
    {
        pack_int(self as u64, 8, size, order)
    }
}

impl MemoryPack for isize {
    fn pack(self, size: QuerySize, order: Endianness) -> (r: Vec<u8>)
        ensures
            r@ == spec_packed((self as u64) as nat, 8, size, order),
    {
        pack_int(self as u64, 8, size, order)
    }
}

impl MemoryPack for &str {
    /// Packs the string's UTF-8 bytes; byte order does not apply to
    /// strings.
    fn pack(self, size: QuerySize, order: Endianness) -> (r: Vec<u8>)
        ensures
            r@ == spec_packed_bytes(
                self.spec_bytes(),
                self.spec_bytes().len() as usize,
                size,
            ),
    {
        pack_bytes(self.as_bytes(), size)
    }
}

impl MemoryPack for String {
    /// Packs the string's UTF-8 bytes; byte order does not apply to
    /// strings.
    fn pack(self, size: QuerySize, order: Endianness) -> (r: Vec<u8>)
        ensures
            r@ == spec_packed_bytes(
                vstd::utf8::encode_utf8(self@),
                vstd::utf8::encode_utf8(self@).len() as usize,
                size,
            ),
    {
        pack_bytes(self.as_str().as_bytes(), size)
    }
}

/// Permissions of one mapped region, as the mapping table shows them.
#[derive(Debug, Clone, Copy, PartialEq, Eq, Structural)]
pub struct Permissions {
    pub read: bool,
    pub write: bool,
    pub execute: bool,
    /// Shared mapping; a region not shared is private (copy-on-write).
    pub shared: bool,
}

/// The permission an access asks a region for.
#[derive(Debug, Clone, Copy, PartialEq, Eq, Structural)]
pub enum ChunkPermission {
    Read,
    Write,
    Execute,
    Shared,
    Private,
}

impl ChunkPermission {
    /// Whether a region with permissions `p` grants this access.
    pub open spec fn spec_allowed(&self, p: Permissions) -> bool {
        match self {
            ChunkPermission::Read => p.read,
            ChunkPermission::Write => p.write,
            ChunkPermission::Execute => p.execute,
            ChunkPermission::Shared => p.shared,
            ChunkPermission::Private => !p.shared,
        }
    }

    /// Whether a region with permissions `p` grants this access.
    pub fn allowed(&self, p: &Permissions) -> (r: bool)
        ensures
            r == self.spec_allowed(*p),
    {
        match self {
            ChunkPermission::Read => p.read,
            ChunkPermission::Write => p.write,
            ChunkPermission::Execute => p.execute,
            ChunkPermission::Shared => p.shared,
            ChunkPermission::Private => !p.shared,
        }
    }
}

/// One mapped region of the tracee's address space.
#[derive(Debug, Clone)]
pub struct MemoryRegion {
    /// First address of the region.
    pub start: usize,
    /// One past the last address of the region.
    pub end: usize,
    /// What the region permits.
    pub permissions: Permissions,
    /// The backing path shown in the mapping table, if any.
    pub pathname: Option<Vec<u8>>,
}

/// One found occurrence of a searched byte string.
#[derive(Debug, Clone)]
pub struct FoundMemory {
    /// The region the occurrence lies in.
    pub region: MemoryRegion,
    /// Offset of the occurrence from the region's start.
    pub offset: usize,
    /// Absolute address of the occurrence.
    pub address: usize,
}

/// A region is well formed when it does not wrap and its addresses stay
/// within the offset range the memory image can reach.
pub open spec fn spec_region_wf(r: MemoryRegion) -> bool {
    r.start <= r.end && r.end as u64 <= i64::MAX as u64
}

/// The mapping table is well formed when every region is and they sit in
/// ascending, pairwise disjoint order.
pub open spec fn spec_regions_wf(rs: Seq<MemoryRegion>) -> bool {
    (forall|i: int| 0 <= i < rs.len() ==> spec_region_wf(#[trigger] rs[i])) && (forall|i: int|
        0 <= i < rs.len() - 1 ==> (#[trigger] rs[i]).end <= rs[i + 1].start)
}

/// In a well-formed table the regions' bounds grow with the index.
pub proof fn lemma_regions_ordered(rs: Seq<MemoryRegion>, i: int, j: int)
    requires
        spec_regions_wf(rs),
        0 <= i <= j < rs.len(),
    ensures
        rs[i].start <= rs[j].start,
        rs[i].end <= rs[j].end,
        i < j ==> rs[i].end <= rs[j].start,
    decreases j - i,
{
    if i < j {
        lemma_regions_ordered(rs, i, j - 1);
    }
}

/// A run `i..=j` of regions all granting `perm`, with no gap between
/// neighbours: one coalesced permission window.
pub open spec fn spec_window(rs: Seq<MemoryRegion>, perm: ChunkPermission, i: int, j: int) -> bool {
    &&& 0 <= i <= j < rs.len()
    &&& forall|k: int| i <= k <= j ==> perm.spec_allowed((#[trigger] rs[k]).permissions)
    &&& forall|k: int| i <= k < j ==> (#[trigger] rs[k]).end == rs[k + 1].start
}

/// The access `[addr, addr + len)` lies within some coalesced window
/// carrying the requested permission.
pub open spec fn spec_covered(rs: Seq<MemoryRegion>, perm: ChunkPermission, addr: int, len: int) -> bool {
    exists|i: int, j: int|
        #[trigger] spec_window(rs, perm, i, j) && rs[i].start <= addr && addr + len <= rs[j].end
}

/// An address inside a window's span lies inside one of the window's
/// regions: the run is contiguous.
proof fn lemma_window_contains(rs: Seq<MemoryRegion>, perm: ChunkPermission, i: int, j: int, addr: int)
    requires
        spec_regions_wf(rs),
        spec_window(rs, perm, i, j),
        rs[i].start <= addr < rs[j].end,
    ensures
        exists|k: int| i <= k <= j && (#[trigger] rs[k]).start <= addr < rs[k].end,
    decreases j - i,
{
    if addr < rs[i].end {
        assert(i <= i <= j && rs[i].start <= addr < rs[i].end);
    } else {
        assert(i < j);
        assert(rs[i].end == rs[i + 1].start);
        assert(spec_window(rs, perm, i + 1, j));
        lemma_window_contains(rs, perm, i + 1, j, addr);
    }
}

/// In a well-formed table at most one region contains an address.
proof fn lemma_containing_unique(rs: Seq<MemoryRegion>, k1: int, k2: int, addr: int)
    requires
        spec_regions_wf(rs),
        0 <= k1 < rs.len(),
        0 <= k2 < rs.len(),
        rs[k1].start <= addr < rs[k1].end,
        rs[k2].start <= addr < rs[k2].end,
    ensures
        k1 == k2,
{
    if k1 < k2 {
        lemma_regions_ordered(rs, k1, k2);
    } else if k2 < k1 {
        lemma_regions_ordered(rs, k2, k1);
    }
}

/// The tracee's address space: its mapping table, sorted ascending, and
/// an open handle to its memory image.
#[derive(Debug)]
pub struct Memory {
    /// The mapped regions, ascending by start, pairwise disjoint.
    pub maps: Vec<MemoryRegion>,
    /// The descriptor of the tracee's open memory image.
    pub mem_fd: i32,
}

impl Memory {
    /// The mapping table is well formed.
    pub open spec fn wf(&self) -> bool {
        spec_regions_wf(self.maps@)
    }

    /// The highest mapped address: the last region's end, or 0 with no
    /// regions at all.
    pub fn max(&self) -> (r: usize)
        requires
            self.wf(),
        ensures
            r == if self.maps@.len() == 0 { 0usize } else { self.maps@.last().end },
            forall|i: int| 0 <= i < self.maps@.len() ==> (#[trigger] self.maps@[i]).end <= r,
    {
        proof {
            if self.maps@.len() > 0 {
                assert forall|i: int| 0 <= i < self.maps@.len() implies (#[trigger] self.maps@[
                    i]).end <= self.maps@.last().end by {
                    lemma_regions_ordered(self.maps@, i, self.maps@.len() - 1);
                }
            }
        }
        if self.maps.len() == 0 {
            0
        } else {
            self.maps[self.maps.len() - 1].end
        }
    }

    /// The lowest mapped address: the first region's start, or 0 with no
    /// regions at all.
    pub fn min(&self) -> (r: usize)
        requires
            self.wf(),
        ensures
            r == if self.maps@.len() == 0 { 0usize } else { self.maps@[0].start },
            self.maps@.len() > 0 ==> forall|i: int|
                0 <= i < self.maps@.len() ==> r <= (#[trigger] self.maps@[i]).start,
    {
        proof {
            if self.maps@.len() > 0 {
                assert forall|i: int| 0 <= i < self.maps@.len() implies self.maps@[0].start <= (
                #[trigger] self.maps@[i]).start by {
                    lemma_regions_ordered(self.maps@, 0, i);
                }
            }
        }
        if self.maps.len() == 0 {
            0
        } else {
            self.maps[0].start
        }
    }

    /// The index of the region `addr` falls in, if any.
    #[verifier::rlimit(100)]
    fn region_containing(&self, addr: usize) -> (r: Option<usize>)
        ensures
            r matches Some(k) ==> k < self.maps@.len() && self.maps@[k as int].start <= addr
                < self.maps@[k as int].end,
            r is None ==> forall|k: int|
                0 <= k < self.maps@.len() ==> !((#[trigger] self.maps@[k]).start <= addr
                    < self.maps@[k].end),
    {
        let mut idx: usize = 0;
        while idx < self.maps.len()
            invariant
                idx <= self.maps@.len(),
                forall|k: int|
                    0 <= k < idx ==> !((#[trigger] self.maps@[k]).start <= addr < self.maps@[
                        k].end),
            decreases self.maps@.len() - idx,
        {
            if self.maps[idx].start <= addr && addr < self.maps[idx].end {
                return Some(idx);
            }
            idx = idx + 1;
        }
        None
    }

    /// Looks for a coalesced window with the requested permission that
    /// contains `[addr, addr + len)`. Hands back the index of the region
    /// `addr` itself falls in exactly when such a window exists.
    #[verifier::rlimit(100)]
    #[verifier::spinoff_prover]
    pub fn find_chunk(&self, addr: usize, len: usize, permission: ChunkPermission) -> (r: Option<
        usize,
    >)
        requires
            self.wf(),
            1 <= len,
        ensures
            r matches Some(k) ==> {
                &&& k < self.maps@.len()
                &&& self.maps@[k as int].start <= addr < self.maps@[k as int].end
                &&& permission.spec_allowed(self.maps@[k as int].permissions)
                &&& spec_covered(self.maps@, permission, addr as int, len as int)
            },
            r is None ==> !spec_covered(self.maps@, permission, addr as int, len as int),
    {
        let ghost rs = self.maps@;
        let n = self.maps.len();
        let idx = match self.region_containing(addr) {
            Some(idx) => idx,
            None => {
                proof {
                    if spec_covered(rs, permission, addr as int, len as int) {
                        let (wi, wj) = choose|wi: int, wj: int|
                            #[trigger] spec_window(rs, permission, wi, wj) && rs[wi].start <= addr
                                && addr + len <= rs[wj].end;
                        lemma_window_contains(rs, permission, wi, wj, addr as int);
                    }
                }
                return None;
            },
        };
        if !permission.allowed(&self.maps[idx].permissions) {
            proof {
                if spec_covered(rs, permission, addr as int, len as int) {
                    let (wi, wj) = choose|wi: int, wj: int|
                        #[trigger] spec_window(rs, permission, wi, wj) && rs[wi].start <= addr
                            && addr + len <= rs[wj].end;
                    lemma_window_contains(rs, permission, wi, wj, addr as int);
                    let k = choose|k: int|
                        wi <= k <= wj && (#[trigger] rs[k]).start <= addr < rs[k].end;
                    lemma_containing_unique(rs, k, idx as int, addr as int);
                }
            }
            return None;
        }
        // Extend the window to the right until the access fits.
        let mut j: usize = idx;
        loop
            invariant
                self.wf(),
                rs == self.maps@,
                n == rs.len(),
                idx <= j < n,
                rs[idx as int].start <= addr < rs[idx as int].end,
                addr < rs[j as int].end,
                spec_window(rs, permission, idx as int, j as int),
            decreases n - j,
        {
            if len <= self.maps[j].end - addr {
                proof {
                    assert(spec_window(rs, permission, idx as int, j as int) && rs[
                        idx as int].start <= addr as int && addr as int + len as int <= rs[
                        j as int].end);
                }
                return Some(idx);
            }
            if j + 1 < n && self.maps[j].end == self.maps[j + 1].start && permission.allowed(
                &self.maps[j + 1].permissions,
            ) {
                j = j + 1;
            } else {
                proof {
                    if spec_covered(rs, permission, addr as int, len as int) {
                        let (wi, wj) = choose|wi: int, wj: int|
                            #[trigger] spec_window(rs, permission, wi, wj) && rs[wi].start <= addr
                                && addr + len <= rs[wj].end;
                        lemma_window_contains(rs, permission, wi, wj, addr as int);
                        let k = choose|k: int|
                            wi <= k <= wj && (#[trigger] rs[k]).start <= addr < rs[k].end;
                        lemma_containing_unique(rs, k, idx as int, addr as int);
                        // The witness window reaches at least to the loop's j.
                        if j < wj {
                            assert(rs[j as int].end == rs[j as int + 1].start);
                            assert(false);
                        } else {
                            lemma_regions_ordered(rs, wj, j as int);
                            assert(addr + len <= rs[j as int].end);
                            assert(false);
                        }
                    }
                }
                return None;
            }
        }
    }

    /// Reads `len` bytes at `addr` from the tracee. Succeeds only when a
    /// read-permitted coalesced window contains the whole range — the
    /// error is [`DebugError::Unmapped`] exactly when none does — and may
    /// hand back fewer bytes when the image ends early.
    pub fn read(&self, addr: usize, len: usize) -> (r: Result<Vec<u8>, DebugError>)
        requires
            self.wf(),
        ensures
            r matches Ok(v) ==> v@.len() <= len,
            len == 0 ==> (r matches Ok(v) && v@.len() == 0),
            len > 0 ==> ((r matches Err(e) && e matches DebugError::Unmapped) <==> !spec_covered(
                self.maps@,
                ChunkPermission::Read,
                addr as int,
                len as int,
            )),
    {
        if len == 0 {
            return Ok(Vec::new());
        }
        match self.find_chunk(addr, len, ChunkPermission::Read) {
            Some(_) => {},
            None => { return Err(DebugError::Unmapped) },
        }
        match crate::process::fd_pread(self.mem_fd, len, addr as u64) {
            Ok(buf) => Ok(buf),
            Err(e) => Err(DebugError::IOError(e)),
        }
    }

    /// Writes `data` at `addr` in the tracee. Succeeds only when a
    /// write-permitted coalesced window contains the whole range — the
    /// error is [`DebugError::Unmapped`] exactly when none does. Hands
    /// back how many bytes were written.
    pub fn write(&self, addr: usize, data: &[u8]) -> (r: Result<usize, DebugError>)
        requires
            self.wf(),
        ensures
            r matches Ok(n) ==> n <= data@.len(),
            data@.len() > 0 ==> ((r matches Err(e) && e matches DebugError::Unmapped)
                <==> !spec_covered(self.maps@, ChunkPermission::Write, addr as int, data@.len() as int)),
    {
        if data.len() == 0 {
            return Ok(0);
        }
        match self.find_chunk(addr, data.len(), ChunkPermission::Write) {
            Some(_) => {},
            None => { return Err(DebugError::Unmapped) },
        }
        match crate::process::fd_pwrite(self.mem_fd, data, addr as u64) {
            Ok(n) => Ok(n),
            Err(e) => Err(DebugError::IOError(e)),
        }
    }
}

/// The needle occurs in `hay` at position `p`.
pub open spec fn spec_match_at(hay: Seq<u8>, nee: Seq<u8>, p: int) -> bool {
    0 <= p && p + nee.len() <= hay.len() && hay.subrange(p, p + nee.len()) == nee
}

/// A match inside a suffix of the haystack is a match in the haystack,
/// shifted by where the suffix begins.
proof fn lemma_match_translate(hay: Seq<u8>, nee: Seq<u8>, from: int, p: int)
    requires
        0 <= from <= hay.len(),
        0 <= p,
    ensures
        spec_match_at(hay.subrange(from, hay.len() as int), nee, p) == spec_match_at(
            hay,
            nee,
            from + p,
        ),
{
    let suffix = hay.subrange(from, hay.len() as int);
    if p + nee.len() <= suffix.len() {
        assert(suffix.subrange(p, p + nee.len()) =~= hay.subrange(from + p, from + p + nee.len()));
    }
}

/// Every occurrence of the needle in `hay` that starts before `bound`
/// overlaps an offset that `out` reports.
#[verifier::opaque]
pub open spec fn spec_matches_covered(
    hay: Seq<u8>,
    nee: Seq<u8>,
    out: Seq<FoundMemory>,
    bound: int,
) -> bool {
    forall|p: int|
        #![trigger spec_match_at(hay, nee, p)]
        spec_match_at(hay, nee, p) && p < bound ==> exists|k: int|
            0 <= k < out.len() && (#[trigger] out[k]).offset <= p < out[k].offset + nee.len()
}

/// Pushing a hit that covers `[f.offset, f.offset + |nee|)` extends the
/// covered bound past it, as long as nothing matches between the old
/// bound and the hit.
proof fn lemma_covered_extends(
    hay: Seq<u8>,
    nee: Seq<u8>,
    out: Seq<FoundMemory>,
    f: FoundMemory,
    old_bound: int,
)
    requires
        spec_matches_covered(hay, nee, out, old_bound),
        old_bound <= f.offset,
        forall|p: int| old_bound <= p < f.offset ==> !spec_match_at(hay, nee, p),
    ensures
        spec_matches_covered(hay, nee, out.push(f), f.offset + nee.len()),
{
    reveal(spec_matches_covered);
    assert forall|p: int|
        spec_match_at(hay, nee, p) && p < f.offset + nee.len() implies exists|k: int|
        0 <= k < out.push(f).len() && (#[trigger] out.push(f)[k]).offset <= p < out.push(
            f,
        )[k].offset + nee.len() by {
        if p < old_bound {
            let k = choose|k: int|
                0 <= k < out.len() && (#[trigger] out[k]).offset <= p < out[k].offset + nee.len();
            assert(out.push(f)[k] == out[k]);
        } else {
            assert(p >= f.offset);
            let k = out.len() as int;
            assert(out.push(f)[k] == f);
        }
    }
}

/// When nothing matches at or past `bound`, coverage up to `bound` is
/// coverage everywhere.
proof fn lemma_covered_closes(
    hay: Seq<u8>,
    nee: Seq<u8>,
    out: Seq<FoundMemory>,
    bound: int,
)
    requires
        spec_matches_covered(hay, nee, out, bound),
        forall|p: int| p >= bound ==> !spec_match_at(hay, nee, p),
    ensures
        spec_matches_covered(hay, nee, out, hay.len() as int + 1),
{
    reveal(spec_matches_covered);
}

/// Relies on twoway::find_bytes: the index of the first occurrence of
/// the needle in the haystack, `None` when it does not occur, and
/// `Some(0)` for an empty needle.
#[verifier::external_body]
fn find_bytes_in(hay: &[u8], nee: &[u8]) -> (r: Option<usize>)
    ensures
        r matches Some(i) ==> spec_match_at(hay@, nee@, i as int) && forall|p: int|
            0 <= p < i ==> !spec_match_at(hay@, nee@, p),
        r is None ==> forall|p: int| !spec_match_at(hay@, nee@, p),
        nee@.len() == 0 ==> r == Some(0usize),
{
    twoway::find_bytes(hay, nee)
}

/// Two region records describe the same region: equal bounds, equal
/// permissions, and the same path bytes.
pub open spec fn spec_same_region(a: MemoryRegion, b: MemoryRegion) -> bool {
    &&& a.start == b.start
    &&& a.end == b.end
    &&& a.permissions == b.permissions
    &&& (a.pathname is Some <==> b.pathname is Some)
    &&& (a.pathname matches Some(av) ==> (b.pathname matches Some(bv) && av@ == bv@))
}

impl MemoryRegion {
    /// An owned copy of the region.
    pub fn duplicate(&self) -> (r: MemoryRegion)
        ensures
            spec_same_region(r, *self),
    {
        let pathname = match &self.pathname {
            Some(p) => Some(slice_to_vec(p.as_slice())),
            None => None,
        };
        MemoryRegion {
            start: self.start,
            end: self.end,
            permissions: self.permissions,
            pathname,
        }
    }
}

impl Memory {
    /// Scans `bytes`, read from `region`, for every non-overlapping
    /// occurrence of `value`, greedily from the left: each reported
    /// offset is a match, reported matches do not overlap, and every
    /// match in the buffer overlaps a reported one. An empty needle
    /// matches nowhere.
    #[verifier::rlimit(100)]
    #[verifier::spinoff_prover]
    pub fn get_matches(region: &MemoryRegion, value: &[u8], bytes: &Vec<u8>) -> (r: Vec<
        FoundMemory,
    >)
        requires
            region.start + bytes@.len() <= usize::MAX,
        ensures
            value@.len() == 0 ==> r@.len() == 0,
            forall|k: int|
                0 <= k < r@.len() ==> {
                    &&& spec_same_region((#[trigger] r@[k]).region, *region)
                    &&& r@[k].address == region.start + r@[k].offset
                    &&& spec_match_at(bytes@, value@, r@[k].offset as int)
                },
            forall|k: int|
                0 <= k < r@.len() - 1 ==> (#[trigger] r@[k]).offset + value@.len() <= r@[k
                    + 1].offset,
            value@.len() > 0 ==> spec_matches_covered(bytes@, value@, r@, bytes@.len() as int
                + 1),
    {
        let m = value.len();
        let n = bytes.len();
        let mut out: Vec<FoundMemory> = Vec::new();
        if m == 0 {
            return out;
        }
        let mut from: usize = 0;
        proof {
            reveal(spec_matches_covered);
            assert(spec_matches_covered(bytes@, value@, out@, 0));
        }
        loop
            invariant
                m == value@.len(),
                m >= 1,
                n == bytes@.len(),
                from <= n,
                region.start + n <= usize::MAX,
                forall|k: int|
                    0 <= k < out@.len() ==> {
                        &&& spec_same_region((#[trigger] out@[k]).region, *region)
                        &&& out@[k].address == region.start + out@[k].offset
                        &&& spec_match_at(bytes@, value@, out@[k].offset as int)
                    },
                forall|k: int|
                    0 <= k < out@.len() - 1 ==> (#[trigger] out@[k]).offset + m <= out@[k
                        + 1].offset,
                out@.len() > 0 ==> out@.last().offset + m <= from,
                spec_matches_covered(bytes@, value@, out@, from as int),
            decreases n - from,
        {
            let slice = slice_subrange(bytes.as_slice(), from, n);
            match find_bytes_in(slice, value) {
                Some(i) => {
                    let off = from + i;
                    proof {
                        lemma_match_translate(bytes@, value@, from as int, i as int);
                        assert(spec_match_at(bytes@, value@, off as int));
                        assert forall|p: int| from <= p < off implies !spec_match_at(
                            bytes@,
                            value@,
                            p,
                        ) by {
                            lemma_match_translate(bytes@, value@, from as int, p - from);
                        }
                    }
                    let f = FoundMemory {
                        region: region.duplicate(),
                        offset: off,
                        address: region.start + off,
                    };
                    proof {
                        lemma_covered_extends(bytes@, value@, out@, f, from as int);
                    }
                    out.push(f);
                    from = off + m;
                },
                None => {
                    proof {
                        assert forall|p: int| p >= from implies !spec_match_at(
                            bytes@,
                            value@,
                            p,
                        ) by {
                            lemma_match_translate(bytes@, value@, from as int, p - from);
                        }
                        lemma_covered_closes(bytes@, value@, out@, from as int);
                    }
                    return out;
                },
            }
        }
    }

    /// Searches the readable parts of `[start, end)` for every
    /// non-overlapping occurrence of `value`: each region of the mapping
    /// table that overlaps the range is read in full and scanned with
    /// [`Memory::get_matches`]. Every reported hit lies in such a region,
    /// at the absolute address its region and offset name.
    pub fn search(&self, start: usize, end: usize, value: &[u8]) -> (r: Vec<FoundMemory>)
        requires
            self.wf(),
        ensures
            forall|k: int|
                0 <= k < r@.len() ==> {
                    &&& (#[trigger] r@[k]).address == r@[k].region.start + r@[k].offset
                    &&& exists|ri: int|
                        0 <= ri < self.maps@.len() && spec_same_region(
                            #[trigger] self.maps@[ri],
                            r@[k].region,
                        ) && self.maps@[ri].start < end && self.maps@[ri].end > start
                },
    {
        let mut out: Vec<FoundMemory> = Vec::new();
        let mut ri: usize = 0;
        while ri < self.maps.len()
            invariant
                self.wf(),
                ri <= self.maps@.len(),
                forall|k: int|
                    0 <= k < out@.len() ==> {
                        &&& (#[trigger] out@[k]).address == out@[k].region.start + out@[k].offset
                        &&& exists|rj: int|
                            0 <= rj < self.maps@.len() && spec_same_region(
                                #[trigger] self.maps@[rj],
                                out@[k].region,
                            ) && self.maps@[rj].start < end && self.maps@[rj].end > start
                    },
            decreases self.maps@.len() - ri,
        {
            let rstart = self.maps[ri].start;
            let rend = self.maps[ri].end;
            if rstart < end && rend > start && rstart < rend {
                match self.read(rstart, rend - rstart) {
                    Ok(bytes) => {
                        let region = &self.maps[ri];
                        let mut found = Self::get_matches(region, value, &bytes);
                        proof {
                            assert forall|k: int|
                                0 <= k < found@.len() implies ((#[trigger] found@[k]).address
                                == found@[k].region.start + found@[k].offset && exists|rj: int|
                                0 <= rj < self.maps@.len() && spec_same_region(
                                    #[trigger] self.maps@[rj],
                                    found@[k].region,
                                ) && self.maps@[rj].start < end && self.maps@[rj].end > start) by {
                                assert(spec_same_region(
                                    self.maps@[ri as int],
                                    found@[k].region,
                                ));
                            }
                        }
                        out.append(&mut found);
                    },
                    Err(_) => {},
                }
            }
            ri = ri + 1;
        }
        out
    }
}

/// A byte is an ASCII hexadecimal digit.
pub open spec fn spec_is_hex_digit(c: u8) -> bool {
    (48 <= c <= 57) || (97 <= c <= 102) || (65 <= c <= 70)
}

/// The value of an ASCII hexadecimal digit.
pub open spec fn spec_hex_digit(c: u8) -> int {
    if 48 <= c <= 57 {
        c - 48
    } else if 97 <= c <= 102 {
        c - 87
    } else {
        c - 55
    }
}

/// The value of a run of hexadecimal digits, most significant first.
pub open spec fn spec_hex_value(s: Seq<u8>) -> int
    decreases s.len(),
{
    if s.len() == 0 {
        0
    } else {
        spec_hex_value(s.drop_last()) * 16 + spec_hex_digit(s.last())
    }
}

/// The digit's value, `None` when the byte is no hexadecimal digit.
fn hex_digit_of(c: u8) -> (r: Option<u8>)
    ensures
        r matches Some(d) ==> spec_is_hex_digit(c) && d == spec_hex_digit(c),
        r is None ==> !spec_is_hex_digit(c),
{
    if c >= 48 && c <= 57 {
        Some(c - 48)
    } else if c >= 97 && c <= 102 {
        Some(c - 87)
    } else if c >= 65 && c <= 70 {
        Some(c - 55)
    } else {
        None
    }
}

/// Reads the maximal run of hexadecimal digits of `line` starting at
/// `from`. Hands back the run's value and the index just past it; at
/// least one digit must be there, and the value must fit the host word.
pub fn parse_hex(line: &[u8], from: usize) -> (r: Result<(usize, usize), DebugError>)
    requires
        from <= line@.len(),
    ensures
        r matches Ok(t) ==> {
            &&& from < t.1 <= line@.len()
            &&& forall|q: int| from <= q < t.1 ==> spec_is_hex_digit(#[trigger] line@[q])
            &&& (t.1 < line@.len() ==> !spec_is_hex_digit(line@[t.1 as int]))
            &&& t.0 == spec_hex_value(line@.subrange(from as int, t.1 as int))
        },
{
    let n = line.len();
    let mut p: usize = from;
    let mut v: usize = 0;
    while p < n
        invariant
            from <= p <= n,
            n == line@.len(),
            forall|q: int| from <= q < p ==> spec_is_hex_digit(#[trigger] line@[q]),
            v == spec_hex_value(line@.subrange(from as int, p as int)),
        decreases n - p,
    {
        let d = match hex_digit_of(line[p]) {
            Some(d) => d,
            None => {
                if p == from {
                    return Err(DebugError::Parse);
                }
                return Ok((v, p));
            },
        };
        if v > (usize::MAX - d as usize) / 16 {
            return Err(DebugError::Parse);
        }
        v = v * 16 + d as usize;
        p = p + 1;
        proof {
            let s = line@.subrange(from as int, p as int);
            assert(s.drop_last() =~= line@.subrange(from as int, p - 1));
            assert(s.last() == line@[p - 1]);
        }
    }
    if p == from {
        return Err(DebugError::Parse);
    }
    Ok((v, p))
}

/// The index of the first byte at or past `from` that is not a space.
fn skip_spaces(line: &[u8], from: usize) -> (r: usize)
    requires
        from <= line@.len(),
    ensures
        from <= r <= line@.len(),
{
    let n = line.len();
    let mut p: usize = from;
    while p < n
        invariant
            from <= p <= n,
            n == line@.len(),
        decreases n - p,
    {
        if line[p] != 32 {
            return p;
        }
        p = p + 1;
    }
    p
}

/// The index of the first space at or past `from`, or the line's end.
fn skip_field(line: &[u8], from: usize) -> (r: usize)
    requires
        from <= line@.len(),
    ensures
        from <= r <= line@.len(),
{
    let n = line.len();
    let mut p: usize = from;
    while p < n
        invariant
            from <= p <= n,
            n == line@.len(),
        decreases n - p,
    {
        if line[p] == 32 {
            return p;
        }
        p = p + 1;
    }
    p
}

/// The permission flags at `at` in a mapping table line: the four bytes
/// `r`/`-`, `w`/`-`, `x`/`-`, `s`/`p`.
pub open spec fn spec_perms_at(s: Seq<u8>, at: int) -> Permissions {
    Permissions {
        read: s[at] == 114,
        write: s[at + 1] == 119,
        execute: s[at + 2] == 120,
        shared: s[at + 3] == 115,
    }
}

/// What decoding a mapping table line yields: a run of hexadecimal
/// digits for the start, a dash, a run for the end, a space, and the
/// four permission bytes.
pub open spec fn spec_line_decodes_to(line: Seq<u8>, reg: MemoryRegion) -> bool {
    exists|a: int, b: int|
        #![trigger line[a], line[b]]
        {
            &&& 0 < a
            &&& a + 1 < b
            &&& b + 5 <= line.len()
            &&& line[a] == 45
            &&& line[b] == 32
            &&& reg.start == spec_hex_value(line.subrange(0, a))
            &&& reg.end == spec_hex_value(line.subrange(a + 1, b))
            &&& reg.permissions == spec_perms_at(line, b + 1)
        }
}

/// Decodes one line of the tracee's mapping table:
/// `start-end perms offset dev inode [path]`, with `start` and `end`
/// hexadecimal and the four permission bytes following them. Everything
/// after the inode field, once leading spaces are gone, is the path.
pub fn parse_line(line: &[u8]) -> (r: Result<MemoryRegion, DebugError>)
    ensures
        r matches Ok(reg) ==> spec_line_decodes_to(line@, reg),
{
    let n = line.len();
    let (start, p1) = match parse_hex(line, 0) {
        Ok(t) => t,
        Err(e) => { return Err(e) },
    };
    if p1 >= n || line[p1] != 45 {
        return Err(DebugError::Parse);
    }
    let (end, p2) = match parse_hex(line, p1 + 1) {
        Ok(t) => t,
        Err(e) => { return Err(e) },
    };
    if p2 >= n || line[p2] != 32 {
        return Err(DebugError::Parse);
    }
    if n - p2 < 5 {
        return Err(DebugError::Parse);
    }
    let permissions = Permissions {
        read: line[p2 + 1] == 114,
        write: line[p2 + 2] == 119,
        execute: line[p2 + 3] == 120,
        shared: line[p2 + 4] == 115,
    };
    // Skip the offset, device and inode fields to reach the path.
    let mut q = p2 + 5;
    let mut field: usize = 0;
    while field < 3
        invariant
            q <= n,
            n == line@.len(),
        decreases 3 - field,
    {
        q = skip_spaces(line, q);
        q = skip_field(line, q);
        field = field + 1;
    }
    q = skip_spaces(line, q);
    let pathname = if q < n {
        Some(slice_to_vec(slice_subrange(line, q, n)))
    } else {
        None
    };
    let reg = MemoryRegion { start, end, permissions, pathname };
    proof {
        let a = p1 as int;
        let b = p2 as int;
        assert({
            &&& 0 < a
            &&& a + 1 < b
            &&& b + 5 <= line@.len()
            &&& line@[a] == 45
            &&& line@[b] == 32
            &&& reg.start == spec_hex_value(line@.subrange(0, a))
            &&& reg.end == spec_hex_value(line@.subrange(a + 1, b))
            &&& reg.permissions == spec_perms_at(line@, b + 1)
        });
        assert(spec_line_decodes_to(line@, reg));
    }
    Ok(reg)
}

/// Position `i` starts a non-empty line of `s`: it holds a byte other
/// than a newline and either opens the table or follows a newline.
pub open spec fn spec_line_start(s: Seq<u8>, i: int) -> bool {
    0 <= i < s.len() && s[i] != 10 && (i == 0 || s[i - 1] == 10)
}

/// How many non-empty lines start strictly before `upto`.
pub open spec fn spec_line_starts_before(s: Seq<u8>, upto: int) -> int
    decreases upto,
{
    if upto <= 0 {
        0
    } else {
        spec_line_starts_before(s, upto - 1) + if spec_line_start(s, upto - 1) {
            1int
        } else {
            0int
        }
    }
}

/// Every region of `rs` was decoded from some segment of `bytes`.
pub open spec fn spec_regions_decoded(rs: Seq<MemoryRegion>, bytes: Seq<u8>) -> bool {
    forall|k: int|
        #![trigger rs[k]]
        0 <= k < rs.len() ==> exists|lo: int, hi: int|
            #![trigger bytes.subrange(lo, hi)]
            0 <= lo <= hi <= bytes.len() && spec_line_decodes_to(bytes.subrange(lo, hi), rs[k])
}

/// Decodes a whole mapping table: one region per non-empty line, each
/// decoded from its own segment of the bytes.
pub fn parse_maps(bytes: &Vec<u8>) -> (r: Result<Vec<MemoryRegion>, DebugError>)
    ensures
        r matches Ok(v) ==> {
            &&& v@.len() == spec_line_starts_before(bytes@, bytes@.len() as int)
            &&& spec_regions_decoded(v@, bytes@)
        },
{
    let n = bytes.len();
    let mut regions: Vec<MemoryRegion> = Vec::new();
    let mut line_start: usize = 0;
    let mut i: usize = 0;
    while i < n
        invariant
            line_start <= i <= n,
            n == bytes@.len(),
            (line_start == i) == (i == 0 || bytes@[i - 1] == 10),
            regions@.len() + (if line_start < i {
                1int
            } else {
                0int
            }) == spec_line_starts_before(bytes@, i as int),
            spec_regions_decoded(regions@, bytes@),
        decreases n - i,
    {
        if bytes[i] == 10 {
            if i > line_start {
                let line = slice_subrange(bytes.as_slice(), line_start, i);
                match parse_line(line) {
                    Ok(reg) => {
                        let ghost prev = regions@;
                        regions.push(reg);
                        proof {
                            assert forall|k: int| #![trigger regions@[k]]
                                0 <= k < regions@.len() implies exists|lo: int, hi: int|
                                #![trigger bytes@.subrange(lo, hi)]
                                0 <= lo <= hi <= bytes@.len() && spec_line_decodes_to(
                                    bytes@.subrange(lo, hi),
                                    regions@[k],
                                ) by {
                                if k == prev.len() {
                                    assert(spec_line_decodes_to(
                                        bytes@.subrange(line_start as int, i as int),
                                        regions@[k],
                                    ));
                                } else {
                                    assert(spec_regions_decoded(prev, bytes@));
                                    assert(regions@[k] == prev[k]);
                                }
                            }
                            assert(spec_regions_decoded(regions@, bytes@));
                        }
                    },
                    Err(e) => { return Err(e) },
                }
            }
            line_start = i + 1;
        }
        i = i + 1;
    }
    if line_start < n {
        let line = slice_subrange(bytes.as_slice(), line_start, n);
        match parse_line(line) {
            Ok(reg) => {
                let ghost prev = regions@;
                regions.push(reg);
                proof {
                    assert forall|k: int| #![trigger regions@[k]]
                        0 <= k < regions@.len() implies exists|lo: int, hi: int|
                        #![trigger bytes@.subrange(lo, hi)]
                        0 <= lo <= hi <= bytes@.len() && spec_line_decodes_to(
                            bytes@.subrange(lo, hi),
                            regions@[k],
                        ) by {
                        if k == prev.len() {
                            assert(spec_line_decodes_to(
                                bytes@.subrange(line_start as int, n as int),
                                regions@[k],
                            ));
                        } else {
                            assert(spec_regions_decoded(prev, bytes@));
                            assert(regions@[k] == prev[k]);
                        }
                    }
                    assert(spec_regions_decoded(regions@, bytes@));
                }
            },
            Err(e) => { return Err(e) },
        }
    }
    Ok(regions)
}

/// The sequence is sorted ascending by region start.
pub open spec fn spec_sorted_by_start(rs: Seq<MemoryRegion>) -> bool {
    forall|i: int, j: int| 0 <= i <= j < rs.len() ==> (#[trigger] rs[i]).start <= (#[trigger] rs[
        j]).start
}

/// Sorts regions ascending by start address; the result holds exactly
/// the given regions.
fn sort_regions(v: Vec<MemoryRegion>) -> (r: Vec<MemoryRegion>)
    ensures
        spec_sorted_by_start(r@),
        r@.to_multiset() == v@.to_multiset(),
{
    let mut rest = v;
    let mut out: Vec<MemoryRegion> = Vec::new();
    proof {
        broadcast use vstd::multiset::group_multiset_axioms;

        out@.to_multiset_ensures();
        assert(out@.to_multiset().len() == 0);
        assert(out@.to_multiset().add(rest@.to_multiset()) =~= rest@.to_multiset());
    }
    let ghost orig = rest@;
    while rest.len() > 0
        invariant
            spec_sorted_by_start(out@),
            out@.to_multiset().add(rest@.to_multiset()) == orig.to_multiset(),
        decreases rest@.len(),
    {
        let ghost rest_before = rest@;
        let x = rest.remove(0);
        proof {
            broadcast use vstd::multiset::group_multiset_axioms;

            assert(rest@ =~= rest_before.remove(0));
            vstd::seq_lib::to_multiset_remove(rest_before, 0);
            assert(x == rest_before[0]);
            rest_before.to_multiset_ensures();
            assert(rest_before.contains(x));
            assert(rest@.to_multiset() =~= rest_before.to_multiset().remove(x));
        }
        let mut pos: usize = 0;
        while pos < out.len() && out[pos].start <= x.start
            invariant
                pos <= out@.len(),
                forall|k: int| 0 <= k < pos ==> (#[trigger] out@[k]).start <= x.start,
            decreases out@.len() - pos,
        {
            pos = pos + 1;
        }
        proof {
            assert(pos < out@.len() ==> out@[pos as int].start > x.start);
        }
        let ghost out_before = out@;
        out.insert(pos, x);
        proof {
            broadcast use vstd::multiset::group_multiset_axioms;

            assert forall|a: int, b: int| 0 <= a <= b < out@.len() implies (#[trigger] out@[
                a]).start <= (#[trigger] out@[b]).start by {}
            assert(out@.remove(pos as int) =~= out_before);
            assert(out@[pos as int] == x);
            vstd::seq_lib::to_multiset_remove(out@, pos as int);
            assert(out@.to_multiset().remove(x) =~= out_before.to_multiset());
            assert(out@.contains(x));
            out@.to_multiset_ensures();
            assert(out@.to_multiset().count(x) > 0);
            assert(out@.to_multiset() =~= out_before.to_multiset().insert(x));
            assert(out@.to_multiset().add(rest@.to_multiset()) =~= orig.to_multiset());
        }
    }
    proof {
        broadcast use vstd::multiset::group_multiset_axioms;

        rest@.to_multiset_ensures();
        assert(rest@.to_multiset().len() == 0);
        assert(out@.to_multiset() =~= orig.to_multiset());
    }
    out
}

/// Every element of `rs` is one of the elements of `from`.
pub open spec fn spec_chosen_from(rs: Seq<MemoryRegion>, from: Seq<MemoryRegion>) -> bool {
    forall|k: int|
        #![trigger rs[k]]
        0 <= k < rs.len() ==> exists|j: int| #![trigger from[j]] 0 <= j < from.len() && rs[k]
            == from[j]
}

/// Keeps the well-formed, ascending, disjoint prefix structure of the
/// sorted table: a region that wraps, reaches past the addressable
/// offset range, or overlaps the one before it is dropped; everything
/// kept is one of the given regions.
#[verifier::rlimit(100)]
fn filter_regions(v: Vec<MemoryRegion>) -> (r: Vec<MemoryRegion>)
    ensures
        spec_regions_wf(r@),
        r@.len() <= v@.len(),
        spec_chosen_from(r@, v@),
{
    let ghost orig = v@;
    let mut rest = v;
    let mut out: Vec<MemoryRegion> = Vec::new();
    let ghost mut consumed: int = 0;
    while rest.len() > 0
        invariant
            spec_regions_wf(out@),
            consumed + rest@.len() == orig.len(),
            rest@ =~= orig.subrange(consumed, orig.len() as int),
            out@.len() <= consumed,
            spec_chosen_from(out@, orig),
        decreases rest@.len(),
    {
        let x = rest.remove(0);
        proof {
            assert(x == orig[consumed]);
            consumed = consumed + 1;
        }
        proof {
            assert(rest@ =~= orig.subrange(consumed, orig.len() as int));
        }
        let ghost out_prev = out@;
        let fits = x.start <= x.end && x.end as u64 <= i64::MAX as u64;
        let ordered = out.len() == 0 || out[out.len() - 1].end <= x.start;
        if fits && ordered {
            out.push(x);
            proof {
                assert forall|k: int| #![trigger out@[k]]
                    0 <= k < out@.len() implies exists|j: int|
                    #![trigger orig[j]]
                    0 <= j < orig.len() && out@[k] == orig[j] by {
                    if k == out_prev.len() {
                        assert(out@[k] == orig[consumed - 1]);
                    } else {
                        assert(spec_chosen_from(out_prev, orig));
                        assert(out@[k] == out_prev[k]);
                    }
                }
                assert(spec_chosen_from(out@, orig));
            }
        }
    }
    out
}

/// Reads the whole mapping table from its open descriptor.
fn read_table(maps_fd: i32) -> (r: Result<Vec<u8>, DebugError>) {
    let mut bytes: Vec<u8> = Vec::new();
    let mut rounds: usize = 0;
    loop
        invariant
            rounds <= 1024,
        decreases 1024 - rounds,
    {
        if rounds == 1024 {
            return Err(DebugError::Error("mapping table too large"));
        }
        let mut chunk = match crate::process::fd_read(maps_fd, 4096) {
            Ok(chunk) => chunk,
            Err(e) => { return Err(DebugError::IOError(e)) },
        };
        if chunk.len() == 0 {
            break;
        }
        bytes.append(&mut chunk);
        rounds = rounds + 1;
    }
    Ok(bytes)
}

impl Memory {
    /// Opens the tracee's memory image and decodes its mapping table,
    /// sorted ascending by start. Fails with an I/O error when either
    /// `/proc` file cannot be opened or read, and with a parse error
    /// when a line of the table cannot be decoded.
    pub fn load(pid: usize) -> (r: Result<Memory, DebugError>)
        ensures
            r matches Ok(m) ==> m.wf(),
    {
        if pid > i32::MAX as usize {
            return Err(DebugError::Error("process id out of range"));
        }
        let mem_fd = match crate::process::proc_open(pid as i32, true) {
            Ok(fd) => fd,
            Err(e) => { return Err(DebugError::IOError(e)) },
        };
        let maps_fd = match crate::process::proc_open(pid as i32, false) {
            Ok(fd) => fd,
            Err(e) => { return Err(DebugError::IOError(e)) },
        };
        let table = read_table(maps_fd);
        crate::process::fd_close(maps_fd);
        let bytes = match table {
            Ok(bytes) => bytes,
            Err(e) => { return Err(e) },
        };
        let regions = match parse_maps(&bytes) {
            Ok(regions) => regions,
            Err(e) => { return Err(e) },
        };
        let maps = filter_regions(sort_regions(regions));
        Ok(Memory { maps, mem_fd })
    }
}

} // verus!
