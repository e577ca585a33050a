//! Virtual memory of the emulated 32-bit x86 guest, managed in 4 KiB pages.
//!
//! Pages are kept in a map keyed by their base address. Protection flags are
//! recorded per page; the manager's byte accessors address any mapped page,
//! while the page-level accessors of `MemoryPage` check the flags.
use std::collections::HashMap;
use vstd::prelude::*;
use vstd::std_specs::iter::IteratorSpec;

verus! {

broadcast use {vstd::std_specs::hash::group_hash_axioms, vstd::seq_lib::group_seq_properties};

/// Memory page size (4KB)
pub const PAGE_SIZE: u32 = 4096;

/// One past the highest guest address.
pub open spec fn address_space_end() -> int {
    0x1_0000_0000
}

/// Base address of the page that holds `addr`.
pub open spec fn page_base_of(addr: int) -> int {
    (addr / 4096) * 4096
}

/// Position of `addr` inside its page.
pub open spec fn page_offset_of(addr: int) -> int {
    addr % 4096
}

/// `size` rounded up to a whole number of pages.
pub open spec fn align_up(size: int) -> int {
    ((size + 4095) / 4096) * 4096
}

/// The contents of a freshly mapped page.
pub open spec fn zero_page() -> Seq<u8> {
    Seq::new(4096, |i: int| 0u8)
}

/// Errors reported by pages and by the memory manager.
#[derive(Debug, Clone, Copy, PartialEq, Eq, Structural)]
pub enum MemoryError {
    /// A page offset at or past the page size.
    OffsetOutOfBounds,
    /// A read from a page that is not readable.
    NotReadable,
    /// A write to a page that is not writable.
    NotWritable,
    /// A read range that runs past the end of the page.
    ReadRangeOutOfBounds,
    /// A write range that runs past the end of the page.
    WriteRangeOutOfBounds,
    /// An address whose page is not mapped.
    InvalidPageAddress,
    /// A requested range that overlaps a region already allocated.
    AddressInUse,
    /// No free range large enough, or the usage counter would overflow.
    OutOfMemory,
    /// A range that does not fit below the end of the 32-bit address space.
    AddressOverflow,
}

/// Memory protection flags
#[derive(Debug, Clone, Copy, PartialEq, Eq, Structural)]
pub struct MemoryProtection {
    pub readable: bool,
    pub writable: bool,
    pub executable: bool,
}

impl MemoryProtection {
    pub fn new() -> (r: Self)
        ensures
            r == (MemoryProtection { readable: false, writable: false, executable: false }),
    {
        MemoryProtection { readable: false, writable: false, executable: false }
    }

    pub fn read_only() -> (r: Self)
        ensures
            r == (MemoryProtection { readable: true, writable: false, executable: false }),
    {
        MemoryProtection { readable: true, writable: false, executable: false }
    }

    pub fn read_write() -> (r: Self)
        ensures
            r == (MemoryProtection { readable: true, writable: true, executable: false }),
    {
        MemoryProtection { readable: true, writable: true, executable: false }
    }

    pub fn execute_read() -> (r: Self)
        ensures
            r == (MemoryProtection { readable: true, writable: false, executable: true }),
    {
        MemoryProtection { readable: true, writable: false, executable: true }
    }

    pub fn execute_read_write() -> (r: Self)
        ensures
            r == (MemoryProtection { readable: true, writable: true, executable: true }),
    {
        MemoryProtection { readable: true, writable: true, executable: true }
    }
}

/// Memory page
#[derive(Debug)]
pub struct MemoryPage {
    pub base_address: u32,
    pub data: Vec<u8>,
    pub protection: MemoryProtection,
    pub is_dirty: bool,
}

impl MemoryPage {
    /// A page holds exactly one page of bytes.
    pub open spec fn wf(&self) -> bool {
        self.data@.len() == 4096
    }

    /// `self` is a page just mapped at `base` with `protection`.
    pub open spec fn is_fresh(&self, base: u32, protection: MemoryProtection) -> bool {
        &&& self.base_address == base
        &&& self.data@ == zero_page()
        &&& self.protection == protection
        &&& !self.is_dirty
    }

    /// Creates a new memory page
    pub fn new(base_address: u32, protection: MemoryProtection) -> (r: Self)
        ensures
            r.is_fresh(base_address, protection),
            r.wf(),
    {
        let data: Vec<u8> = vec![0u8; 4096];
        assert(data@ =~= zero_page());
        MemoryPage { base_address, data, protection, is_dirty: false }
    }

    /// Reads a byte from the page
    pub fn read_byte(&self, offset: u32) -> (r: Result<u8, MemoryError>)
        requires
            self.wf(),
        ensures
            offset >= PAGE_SIZE ==> r == Err::<u8, MemoryError>(MemoryError::OffsetOutOfBounds),
            offset < PAGE_SIZE && !self.protection.readable ==> r == Err::<u8, MemoryError>(
                MemoryError::NotReadable,
            ),
            offset < PAGE_SIZE && self.protection.readable ==> r == Ok::<u8, MemoryError>(
                self.data@[offset as int],
            ),
    {
        if offset >= PAGE_SIZE {
            return Err(MemoryError::OffsetOutOfBounds);
        }
        if !self.protection.readable {
            return Err(MemoryError::NotReadable);
        }
        Ok(self.data[offset as usize])
    }

    /// Writes a byte to the page
    pub fn write_byte(&mut self, offset: u32, value: u8) -> (r: Result<(), MemoryError>)
        requires
            old(self).wf(),
        ensures
            final(self).wf(),
            offset >= PAGE_SIZE ==> r == Err::<(), MemoryError>(MemoryError::OffsetOutOfBounds)
                && *final(self) == *old(self),
            offset < PAGE_SIZE && !old(self).protection.writable ==> r == Err::<(), MemoryError>(
                MemoryError::NotWritable,
            ) && *final(self) == *old(self),
            offset < PAGE_SIZE && old(self).protection.writable ==> {
                &&& r == Ok::<(), MemoryError>(())
                &&& final(self).data@ == old(self).data@.update(offset as int, value)
                &&& final(self).base_address == old(self).base_address
                &&& final(self).protection == old(self).protection
                &&& final(self).is_dirty
            },
    {
        if offset >= PAGE_SIZE {
            return Err(MemoryError::OffsetOutOfBounds);
        }
        if !self.protection.writable {
            return Err(MemoryError::NotWritable);
        }
        self.data.set(offset as usize, value);
        self.is_dirty = true;
        Ok(())
    }

    /// Reads multiple bytes from the page
    pub fn read_bytes(&self, offset: u32, count: u32) -> (r: Result<Vec<u8>, MemoryError>)
        requires
            self.wf(),
        ensures
            offset + count > PAGE_SIZE ==> r == Err::<Vec<u8>, MemoryError>(
                MemoryError::ReadRangeOutOfBounds,
            ),
            offset + count <= PAGE_SIZE && !self.protection.readable ==> r == Err::<
                Vec<u8>,
                MemoryError,
            >(MemoryError::NotReadable),
            offset + count <= PAGE_SIZE && self.protection.readable ==> (r matches Ok(v) && v@
                == self.data@.subrange(offset as int, offset + count)),
    {
        if offset as u64 + count as u64 > PAGE_SIZE as u64 {
            return Err(MemoryError::ReadRangeOutOfBounds);
        }
        if !self.protection.readable {
            return Err(MemoryError::NotReadable);
        }
        let start = offset as usize;
        let end = start + count as usize;
        let mut out: Vec<u8> = Vec::new();
        let mut i = start;
        while i < end
            invariant
                start <= i <= end,
                end <= self.data@.len(),
                out@ == self.data@.subrange(start as int, i as int),
            decreases end - i,
        {
            out.push(self.data[i]);
            i = i + 1;
        }
        Ok(out)
    }

    /// Writes multiple bytes to the page
    pub fn write_bytes(&mut self, offset: u32, data: &[u8]) -> (r: Result<(), MemoryError>)
        requires
            old(self).wf(),
        ensures
            final(self).wf(),
            offset + data@.len() > PAGE_SIZE ==> r == Err::<(), MemoryError>(
                MemoryError::WriteRangeOutOfBounds,
            ) && *final(self) == *old(self),
            offset + data@.len() <= PAGE_SIZE && !old(self).protection.writable ==> r == Err::<
                (),
                MemoryError,
            >(MemoryError::NotWritable) && *final(self) == *old(self),
            offset + data@.len() <= PAGE_SIZE && old(self).protection.writable ==> {
                &&& r == Ok::<(), MemoryError>(())
                &&& final(self).data@ == old(self).data@.subrange(0, offset as int) + data@
                    + old(self).data@.subrange(offset + data@.len(), 4096)
                &&& final(self).base_address == old(self).base_address
                &&& final(self).protection == old(self).protection
                &&& final(self).is_dirty
            },
    {
        if offset as usize > 4096 || data.len() > 4096 - offset as usize {
            return Err(MemoryError::WriteRangeOutOfBounds);
        }
        if !self.protection.writable {
            return Err(MemoryError::NotWritable);
        }
        let start = offset as usize;
        let mut i: usize = 0;
        while i < data.len()
            invariant
                start + data@.len() <= 4096,
                self.data@.len() == 4096,
                old(self).data@.len() == 4096,
                self.base_address == old(self).base_address,
                self.protection == old(self).protection,
                self.data@ == old(self).data@.subrange(0, start as int) + data@.subrange(0, i as int)
                    + old(self).data@.subrange(start + i, 4096),
                0 <= i <= data@.len(),
            decreases data@.len() - i,
        {
            self.data.set(start + i, data[i]);
            i = i + 1;
            assert(self.data@ =~= old(self).data@.subrange(0, start as int) + data@.subrange(
                0,
                i as int,
            ) + old(self).data@.subrange(start + i, 4096));
        }
        assert(data@.subrange(0, data@.len() as int) =~= data@);
        self.is_dirty = true;
        Ok(())
    }
}

/// Memory region
#[derive(Debug)]
pub struct MemoryRegion {
    pub base_address: u32,
    pub size: u32,
    pub protection: MemoryProtection,
    pub name: String,
}

impl MemoryRegion {
    pub fn new(base_address: u32, size: u32, protection: MemoryProtection, name: String) -> (r:
        Self)
        ensures
            r.base_address == base_address,
            r.size == size,
            r.protection == protection,
            r.name == name,
    {
        MemoryRegion { base_address, size, protection, name }
    }

    /// The half-open range `[address, address + size)` meets this region.
    pub open spec fn overlaps(&self, address: int, size: int) -> bool {
        address < self.base_address + self.size && address + size > self.base_address
    }
}


/// `k` is one of the page addresses of a region of `len` bytes at `base`.
pub open spec fn is_page_of_range(k: int, base: int, len: int) -> bool {
    base <= k < base + len && (k - base) % 4096 == 0
}

/// The aligned page at `k` holds some byte of `[addr, addr + len)`.
pub open spec fn page_touched(k: int, addr: int, len: int) -> bool {
    len > 0 && k % 4096 == 0 && k < addr + len && addr < k + 4096
}

/// Little-endian value of two bytes.
pub open spec fn le_u16_value(b: Seq<u8>) -> int {
    b[0] + 256 * b[1]
}

/// Little-endian value of four bytes.
pub open spec fn le_u32_value(b: Seq<u8>) -> int {
    b[0] + 256 * b[1] + 65536 * b[2] + 16777216 * b[3]
}

/// Little-endian bytes of a 16-bit value.
pub open spec fn le_u16_bytes(v: u16) -> Seq<u8> {
    seq![(v % 256) as u8, (v / 256) as u8]
}

/// Little-endian bytes of a 32-bit value.
pub open spec fn le_u32_bytes(v: u32) -> Seq<u8> {
    seq![(v % 256) as u8, ((v / 256) % 256) as u8, ((v / 65536) % 256) as u8, (v / 16777216) as u8]
}

proof fn lemma_multiple_in_window(d: int, i: int)
    by (nonlinear_arith)
    requires
        d % 4096 == 0,
        i * 4096 <= d < (i + 1) * 4096,
    ensures
        d == i * 4096,
{
}

proof fn lemma_page_arith(a: int)
    by (nonlinear_arith)
    requires
        a >= 0,
    ensures
        page_base_of(a) % 4096 == 0,
        page_base_of(a) <= a < page_base_of(a) + 4096,
        page_offset_of(a) == a - page_base_of(a),
        0 <= page_offset_of(a) < 4096,
{
}

proof fn lemma_page_base_unique(a: int, k: int)
    requires
        a >= 0,
        k % 4096 == 0,
        k <= a < k + 4096,
    ensures
        page_base_of(a) == k,
{
    lemma_page_arith(a);
    lemma_page_arith(k);
    let d = page_base_of(a) - k;
    assert(d % 4096 == 0) by (nonlinear_arith)
        requires
            page_base_of(a) % 4096 == 0,
            k % 4096 == 0,
            d == page_base_of(a) - k,
    ;
    lemma_multiple_in_window(d + 4096, 1);
}

proof fn lemma_align_up(size: int)
    by (nonlinear_arith)
    requires
        0 <= size,
    ensures
        align_up(size) % 4096 == 0,
        size <= align_up(size) < size + 4096,
{
}

/// Main memory manager
pub struct MemoryManager {
    pages: HashMap<u32, MemoryPage>,
    regions: Vec<MemoryRegion>,
    next_free_address: u32,
    total_memory: u32,
    used_memory: u32,
}

/// Memory statistics
#[derive(Debug)]
pub struct MemoryStats {
    pub total_pages: usize,
    pub total_memory: u32,
    pub used_memory: u32,
    pub free_memory: u32,
    pub regions: usize,
}

impl MemoryManager {
    /// The mapped pages, keyed by base address.
    pub closed spec fn page_map(&self) -> Map<u32, MemoryPage> {
        self.pages@
    }

    /// The regions in the order they were allocated.
    pub closed spec fn region_seq(&self) -> Seq<MemoryRegion> {
        self.regions@
    }

    pub closed spec fn spec_next_free_address(&self) -> u32 {
        self.next_free_address
    }

    pub closed spec fn spec_total_memory(&self) -> u32 {
        self.total_memory
    }

    pub closed spec fn spec_used_memory(&self) -> u32 {
        self.used_memory
    }

    /// Every page holds a full page of bytes and is filed under its own base
    /// address; the address-space bounds never change.
    pub open spec fn wf(&self) -> bool {
        &&& forall|k: u32| #[trigger]
            self.page_map().contains_key(k) ==> self.page_map()[k].wf()
                && self.page_map()[k].base_address == k
        &&& self.spec_total_memory() == 0x8000_0000
        &&& self.spec_next_free_address() == 0x1000_0000
    }

    /// The page that holds `addr` is mapped.
    pub open spec fn is_mapped(&self, addr: int) -> bool {
        0 <= addr < address_space_end() && self.page_map().contains_key(page_base_of(addr) as u32)
    }

    /// The byte stored at a mapped address.
    pub open spec fn byte_at(&self, addr: int) -> u8 {
        self.page_map()[page_base_of(addr) as u32].data@[page_offset_of(addr)]
    }

    /// Every address of `[addr, addr + len)` is mapped.
    pub open spec fn range_mapped(&self, addr: int, len: int) -> bool {
        forall|i: int| 0 <= i < len ==> #[trigger] self.is_mapped(addr + i)
    }

    /// The bytes stored at `[addr, addr + len)`.
    pub open spec fn bytes_at(&self, addr: int, len: nat) -> Seq<u8> {
        Seq::new(len, |i: int| self.byte_at(addr + i))
    }

    /// The address is mapped on a readable page.
    pub open spec fn is_readable(&self, addr: int) -> bool {
        self.is_mapped(addr) && self.page_map()[page_base_of(addr) as u32].protection.readable
    }

    /// The address is mapped and holds `v`.
    pub open spec fn holds(&self, addr: int, v: u8) -> bool {
        self.is_mapped(addr) && self.byte_at(addr) == v
    }

    /// Every address of `[addr, addr + len)` can be read.
    pub open spec fn range_readable(&self, addr: int, len: int) -> bool {
        forall|i: int| 0 <= i < len ==> #[trigger] self.is_readable(addr + i)
    }

    /// Why a read of the byte at `addr` fails: its page is not mapped, or it
    /// is mapped but not readable.
    pub open spec fn read_error_at(&self, addr: int) -> MemoryError {
        if self.is_mapped(addr) {
            MemoryError::NotReadable
        } else {
            MemoryError::InvalidPageAddress
        }
    }

    /// The first byte of `[addr, addr + len)` that cannot be read.
    pub open spec fn first_unreadable(&self, addr: int, len: int) -> int {
        choose|f: int| 0 <= f < len && !self.is_readable(addr + f) && self.range_readable(addr, f)
    }

    /// What a read of `len` bytes at `addr` gives: the bytes, or the error
    /// of the first byte that cannot be read.
    pub open spec fn spec_read_bytes(&self, addr: int, len: nat) -> Result<Seq<u8>, MemoryError> {
        if self.range_readable(addr, len as int) {
            Ok(self.bytes_at(addr, len))
        } else {
            Err(self.read_error_at(addr + self.first_unreadable(addr, len as int)))
        }
    }

    /// What a one-byte read at `addr` gives.
    pub open spec fn spec_read_u8(&self, addr: int) -> Result<u8, MemoryError> {
        if self.is_readable(addr) {
            Ok(self.byte_at(addr))
        } else {
            Err(self.read_error_at(addr))
        }
    }

    /// What a little-endian 16-bit read at `addr` gives.
    pub open spec fn spec_read_u16(&self, addr: int) -> Result<u16, MemoryError> {
        match self.spec_read_bytes(addr, 2) {
            Ok(b) => Ok(le_u16_value(b) as u16),
            Err(e) => Err(e),
        }
    }

    /// What a little-endian 32-bit read at `addr` gives.
    pub open spec fn spec_read_u32(&self, addr: int) -> Result<u32, MemoryError> {
        match self.spec_read_bytes(addr, 4) {
            Ok(b) => Ok(le_u32_value(b) as u32),
            Err(e) => Err(e),
        }
    }

    /// `self` has the pages, regions and counters of `other`; only page
    /// contents and dirty flags may differ.
    pub open spec fn same_layout(&self, other: &Self) -> bool {
        &&& self.page_map().dom() == other.page_map().dom()
        &&& forall|k: u32| #[trigger]
            self.page_map().contains_key(k) ==> self.page_map()[k].protection
                == other.page_map()[k].protection && self.page_map()[k].base_address
                == other.page_map()[k].base_address
        &&& self.region_seq() == other.region_seq()
        &&& self.spec_next_free_address() == other.spec_next_free_address()
        &&& self.spec_total_memory() == other.spec_total_memory()
        &&& self.spec_used_memory() == other.spec_used_memory()
    }

    /// `self` is `old` with the protection of every page of the page-aligned
    /// range around `[address, address + size)` set to `protection`;
    /// nothing else differs.
    pub open spec fn protected(&self, old: &Self, address: int, size: int, protection: MemoryProtection) -> bool {
        &&& self.wf()
        &&& self.page_map().dom() == old.page_map().dom()
        &&& self.region_seq() == old.region_seq()
        &&& self.spec_next_free_address() == old.spec_next_free_address()
        &&& self.spec_total_memory() == old.spec_total_memory()
        &&& self.spec_used_memory() == old.spec_used_memory()
        &&& forall|k: u32| #[trigger]
            self.page_map().contains_key(k) ==> {
                let p_old = old.page_map()[k];
                let p_new = self.page_map()[k];
                &&& p_new.data == p_old.data
                &&& p_new.base_address == p_old.base_address
                &&& p_new.is_dirty == p_old.is_dirty
                &&& p_new.protection == if is_page_of_range(
                    k as int,
                    page_base_of(address),
                    align_up(size),
                ) {
                    protection
                } else {
                    p_old.protection
                }
            }
    }

    /// `self` is `old` after `data` was stored at `addr`: those bytes hold
    /// `data`, every other mapped byte is unchanged, and exactly the pages
    /// that were written to became dirty.
    pub open spec fn wrote(&self, old: &Self, addr: int, data: Seq<u8>) -> bool {
        &&& self.same_layout(old)
        &&& self.wf()
        &&& forall|i: int| 0 <= i < data.len() ==> #[trigger] self.byte_at(addr + i) == data[i]
        &&& forall|b: int|
            #![trigger self.byte_at(b)]
            self.is_mapped(b) && !(addr <= b < addr + data.len()) ==> self.byte_at(b)
                == old.byte_at(b)
        &&& forall|k: u32| #[trigger]
            self.page_map().contains_key(k) ==> self.page_map()[k].is_dirty == (
            old.page_map()[k].is_dirty || page_touched(k as int, addr, data.len() as int))
    }

    /// The result and effect of storing `data` at `addr`: success when the
    /// whole range is mapped; otherwise the bytes before the first unmapped
    /// address are stored and the page error is reported.
    pub open spec fn write_outcome(
        &self,
        old: &Self,
        addr: int,
        data: Seq<u8>,
        r: Result<(), MemoryError>,
    ) -> bool {
        match r {
            Ok(_) => old.range_mapped(addr, data.len() as int) && self.wrote(old, addr, data),
            Err(e) => {
                &&& e == MemoryError::InvalidPageAddress
                &&& !old.range_mapped(addr, data.len() as int)
                &&& exists|f: int|
                    0 <= f < data.len() && !old.is_mapped(addr + f) && old.range_mapped(addr, f)
                        && #[trigger] self.wrote(old, addr, data.take(f))
            },
        }
    }

    /// `self` is `old` with fresh pages of protection `prot` mapped over the
    /// `len` bytes at `base`; pages mapped there before are replaced.
    pub open spec fn mapped_fresh(
        &self,
        old: &Self,
        base: int,
        len: int,
        prot: MemoryProtection,
    ) -> bool {
        &&& forall|k: u32| #[trigger]
            self.page_map().contains_key(k) <==> (old.page_map().contains_key(k)
                || is_page_of_range(k as int, base, len))
        &&& forall|k: u32|
            is_page_of_range(k as int, base, len) ==> #[trigger] self.page_map()[k].is_fresh(
                k,
                prot,
            )
        &&& forall|k: u32|
            old.page_map().contains_key(k) && !is_page_of_range(k as int, base, len)
                ==> #[trigger] self.page_map()[k] == old.page_map()[k]
    }

    /// Allocates a memory region
    pub fn allocate_region(
        &mut self,
        base_address: u32,
        size: u32,
        protection: MemoryProtection,
        name: String,
    ) -> (r: Result<(), MemoryError>)
        requires
            old(self).wf(),
        ensures
            final(self).wf(),
            r is Ok <==> base_address + align_up(size as int) <= address_space_end()
                && old(self).spec_used_memory() + align_up(size as int) <= u32::MAX,
            base_address + align_up(size as int) > address_space_end() ==> r == Err::<
                (),
                MemoryError,
            >(MemoryError::AddressOverflow),
            r is Err ==> *final(self) == *old(self),
            base_address + align_up(size as int) <= address_space_end() && r is Err ==> r == Err::<
                (),
                MemoryError,
            >(MemoryError::OutOfMemory),
            r is Ok ==> {
                &&& final(self).region_seq() == old(self).region_seq().push(
                    (MemoryRegion {
                        base_address,
                        size: align_up(size as int) as u32,
                        protection,
                        name,
                    }),
                )
                &&& final(self).spec_used_memory() == old(self).spec_used_memory() + align_up(
                    size as int,
                )
                &&& final(self).mapped_fresh(
                    old(self),
                    base_address as int,
                    align_up(size as int),
                    protection,
                )
            },
    {
        proof {
            lemma_align_up(size as int);
        }
        let aligned64: u64 = ((size as u64 + 4095) / 4096) * 4096;
        if base_address as u64 + aligned64 > 0x1_0000_0000u64 {
            return Err(MemoryError::AddressOverflow);
        }
        if self.used_memory as u64 + aligned64 > 0xFFFF_FFFFu64 {
            return Err(MemoryError::OutOfMemory);
        }
        let aligned_size = aligned64 as u32;
        let region = MemoryRegion::new(base_address, aligned_size, protection, name);
        self.regions.push(region);
        let page_count = aligned_size / PAGE_SIZE;
        assert(page_count * 4096 == aligned_size) by (nonlinear_arith)
            requires
                aligned_size % 4096 == 0,
                page_count == aligned_size / 4096,
        ;
        let ghost pre = *self;
        assert(pre.page_map() == old(self).page_map());
        assert(pre.wf());
        let mut i: u32 = 0;
        while i < page_count
            invariant
                0 <= i <= page_count,
                page_count * 4096 == aligned_size,
                base_address + aligned_size <= 0x1_0000_0000,
                pre.used_memory + aligned_size <= u32::MAX,
                self.used_memory == pre.used_memory + i * 4096,
                self.regions@ == pre.regions@,
                self.next_free_address == pre.next_free_address,
                self.total_memory == pre.total_memory,
                pre.wf(),
                forall|k: u32| #[trigger]
                    self.pages@.contains_key(k) ==> self.pages@[k].wf()
                        && self.pages@[k].base_address == k,
                forall|k: u32| #[trigger]
                    self.pages@.contains_key(k) <==> (pre.pages@.contains_key(k)
                        || is_page_of_range(k as int, base_address as int, i * 4096)),
                forall|k: u32|
                    is_page_of_range(k as int, base_address as int, i * 4096)
                        ==> #[trigger] self.pages@[k].is_fresh(k, protection),
                forall|k: u32|
                    pre.pages@.contains_key(k) && !is_page_of_range(
                        k as int,
                        base_address as int,
                        i * 4096,
                    ) ==> #[trigger] self.pages@[k] == pre.pages@[k],
            decreases page_count - i,
        {
            let page_address = base_address + i * PAGE_SIZE;
            let page = MemoryPage::new(page_address, protection);
            self.pages.insert(page_address, page);
            self.used_memory = self.used_memory + PAGE_SIZE;
            proof {
                assert forall|k: u32|
                    #[trigger] is_page_of_range(k as int, base_address as int, (i + 1) * 4096) <==> (
                    is_page_of_range(k as int, base_address as int, i * 4096) || k
                        == page_address) by {
                    if is_page_of_range(k as int, base_address as int, (i + 1) * 4096)
                        && !is_page_of_range(k as int, base_address as int, i * 4096) {
                        lemma_multiple_in_window(k - base_address, i as int);
                    }
                    if k == page_address {
                        assert((k - base_address) % 4096 == 0) by (nonlinear_arith)
                            requires
                                k - base_address == i * 4096,
                        ;
                    }
                }
            }
            i = i + 1;
        }
        Ok(())
    }

    /// The standard code, data and stack regions, and nothing else.
    pub open spec fn has_standard_layout(&self) -> bool {
        &&& self.region_seq().len() == 3
        &&& self.region_seq()[0].base_address == 0x0040_0000
        &&& self.region_seq()[0].size == 0x0010_0000
        &&& self.region_seq()[0].protection == (MemoryProtection {
            readable: true,
            writable: false,
            executable: true,
        })
        &&& self.region_seq()[0].name@ == "code"@
        &&& self.region_seq()[1].base_address == 0x0050_0000
        &&& self.region_seq()[1].size == 0x0010_0000
        &&& self.region_seq()[1].protection == (MemoryProtection {
            readable: true,
            writable: true,
            executable: false,
        })
        &&& self.region_seq()[1].name@ == "data"@
        &&& self.region_seq()[2].base_address == 0x7FFF_0000
        &&& self.region_seq()[2].size == 0x0001_0000
        &&& self.region_seq()[2].protection == (MemoryProtection {
            readable: true,
            writable: true,
            executable: false,
        })
        &&& self.region_seq()[2].name@ == "stack"@
        &&& self.spec_used_memory() == 0x0021_0000
        &&& forall|k: u32| #[trigger]
            self.page_map().contains_key(k) <==> (is_page_of_range(k as int, 0x0040_0000, 0x0010_0000)
                || is_page_of_range(k as int, 0x0050_0000, 0x0010_0000) || is_page_of_range(
                k as int,
                0x7FFF_0000,
                0x0001_0000,
            ))
        &&& forall|k: u32|
            is_page_of_range(k as int, 0x0040_0000, 0x0010_0000) ==> #[trigger] self.page_map()[k].is_fresh(
                k,
                MemoryProtection { readable: true, writable: false, executable: true },
            )
        &&& forall|k: u32|
            is_page_of_range(k as int, 0x0050_0000, 0x0010_0000) ==> #[trigger] self.page_map()[k].is_fresh(
                k,
                MemoryProtection { readable: true, writable: true, executable: false },
            )
        &&& forall|k: u32|
            is_page_of_range(k as int, 0x7FFF_0000, 0x0001_0000) ==> #[trigger] self.page_map()[k].is_fresh(
                k,
                MemoryProtection { readable: true, writable: true, executable: false },
            )
    }

    /// Creates a new memory manager holding the standard code, data and stack
    /// regions. Guest allocations are served from `0x1000_0000` upward.
    pub fn new() -> (r: Result<Self, MemoryError>)
        ensures
            r matches Ok(m) && m.wf() && m.has_standard_layout(),
    {
        let mut manager = MemoryManager {
            pages: HashMap::new(),
            regions: Vec::new(),
            next_free_address: 0x1000_0000,
            total_memory: 0x8000_0000,
            used_memory: 0,
        };
        match manager.init_standard_regions() {
            Ok(()) => Ok(manager),
            Err(e) => Err(e),
        }
    }

    /// Initializes standard memory regions
    fn init_standard_regions(&mut self) -> (r: Result<(), MemoryError>)
        requires
            old(self).wf(),
            old(self).page_map().is_empty(),
            old(self).region_seq().len() == 0,
            old(self).spec_used_memory() == 0,
        ensures
            r is Ok,
            final(self).wf(),
            final(self).has_standard_layout(),
    {
        let ghost m0 = *self;
        proof {
            assert(align_up(0x0010_0000) == 0x0010_0000);
            assert(align_up(0x0001_0000) == 0x0001_0000);
        }
        // User code segment (0x400000 - 0x500000)
        let r1 = self.allocate_region(
            0x0040_0000,
            0x0010_0000,
            MemoryProtection::execute_read(),
            "code".to_owned(),
        );
        let ghost m1 = *self;
        // User data segment (0x500000 - 0x600000)
        let r2 = self.allocate_region(
            0x0050_0000,
            0x0010_0000,
            MemoryProtection::read_write(),
            "data".to_owned(),
        );
        let ghost m2 = *self;
        // Stack region (0x7FFF0000 - 0x80000000)
        let r3 = self.allocate_region(
            0x7FFF_0000,
            0x0001_0000,
            MemoryProtection::read_write(),
            "stack".to_owned(),
        );
        proof {
            assert(r1 is Ok && r2 is Ok && r3 is Ok);
            assert(m0.page_map().dom() =~= Set::empty());
            assert forall|k: u32| #[trigger]
                self.page_map().contains_key(k) <==> (is_page_of_range(
                    k as int,
                    0x0040_0000,
                    0x0010_0000,
                ) || is_page_of_range(k as int, 0x0050_0000, 0x0010_0000) || is_page_of_range(
                    k as int,
                    0x7FFF_0000,
                    0x0001_0000,
                )) by {
                assert(m1.page_map().contains_key(k) == m2.page_map().contains_key(k) || is_page_of_range(k as int, 0x0050_0000, 0x0010_0000));
            }
        }
        Ok(())
    }

    /// The range `[address, address + size)` meets no allocated region.
    pub open spec fn range_free(&self, address: int, size: int) -> bool {
        forall|i: int|
            0 <= i < self.region_seq().len() ==> !(#[trigger] self.region_seq()[i]).overlaps(
                address,
                size,
            )
    }

    /// Checks if address range is in use
    fn is_address_in_use(&self, address: u32, size: u32) -> (r: bool)
        ensures
            r == !self.range_free(address as int, size as int),
    {
        let mut i: usize = 0;
        while i < self.regions.len()
            invariant
                0 <= i <= self.regions@.len(),
                forall|j: int|
                    0 <= j < i ==> !(#[trigger] self.regions@[j]).overlaps(
                        address as int,
                        size as int,
                    ),
            decreases self.regions@.len() - i,
        {
            let region = &self.regions[i];
            if (address as u64) < region.base_address as u64 + region.size as u64 && address as u64
                + size as u64 > region.base_address as u64 {
                assert(self.region_seq()[i as int].overlaps(address as int, size as int));
                return true;
            }
            i = i + 1;
        }
        false
    }

    /// The candidate addresses for a new allocation: the page steps from the
    /// first free address upward.
    pub open spec fn is_candidate(&self, address: int) -> bool {
        address >= self.spec_next_free_address() && (address - self.spec_next_free_address())
            % 4096 == 0
    }

    /// Where `allocate` places `size` bytes: the lowest candidate whose
    /// page-aligned range lies below the end of guest memory and meets no
    /// region; `OutOfMemory` when there is none.
    pub open spec fn free_region_outcome(&self, size: int, r: Result<u32, MemoryError>) -> bool {
        match r {
            Ok(a) => {
                &&& self.is_candidate(a as int)
                &&& a + align_up(size) <= self.spec_total_memory()
                &&& self.range_free(a as int, align_up(size))
                &&& forall|c: int|
                    #![trigger self.is_candidate(c)]
                    self.is_candidate(c) && c < a ==> !self.range_free(c, align_up(size))
            },
            Err(e) => {
                &&& e == MemoryError::OutOfMemory
                &&& forall|c: int|
                    #![trigger self.is_candidate(c)]
                    self.is_candidate(c) && c + align_up(size) <= self.spec_total_memory()
                        ==> !self.range_free(c, align_up(size))
            },
        }
    }

    /// Finds a free memory region
    fn find_free_region(&self, size: u32) -> (r: Result<u32, MemoryError>)
        requires
            self.wf(),
        ensures
            self.free_region_outcome(size as int, r),
    {
        proof {
            lemma_align_up(size as int);
        }
        let aligned_size: u64 = ((size as u64 + 4095) / 4096) * 4096;
        // Simple linear search for free space
        let mut address: u64 = self.next_free_address as u64;
        while address + aligned_size <= self.total_memory as u64
            invariant
                self.wf(),
                aligned_size == align_up(size as int),
                self.is_candidate(address as int),
                address <= 0x8000_1000,
                forall|c: int|
                    #![trigger self.is_candidate(c)]
                    self.is_candidate(c) && c < address ==> !self.range_free(c, aligned_size as int),
            decreases 0x8000_1000 - address,
        {
            if !self.is_address_in_use(address as u32, aligned_size as u32) {
                return Ok(address as u32);
            }
            proof {
                assert forall|c: int|
                    #![trigger self.is_candidate(c)]
                    self.is_candidate(c) && c < address + 4096 implies !self.range_free(
                        c,
                        aligned_size as int,
                    ) by {
                    if c >= address {
                        lemma_multiple_in_window(
                            c - self.next_free_address + 4096 - (address - self.next_free_address),
                            1,
                        );
                    }
                }
            }
            address = address + PAGE_SIZE as u64;
        }
        Err(MemoryError::OutOfMemory)
    }

    /// Allocates memory at a specific address
    pub fn allocate_at(&mut self, address: u32, size: u32, protection: MemoryProtection) -> (r:
        Result<u32, MemoryError>)
        requires
            old(self).wf(),
        ensures
            final(self).wf(),
            !old(self).range_free(address as int, size as int) ==> r == Err::<u32, MemoryError>(
                MemoryError::AddressInUse,
            ),
            old(self).range_free(address as int, size as int) ==> (r is Ok <==> address + align_up(
                size as int,
            ) <= address_space_end() && old(self).spec_used_memory() + align_up(size as int)
                <= u32::MAX),
            old(self).range_free(address as int, size as int) && address + align_up(size as int)
                > address_space_end() ==> r == Err::<u32, MemoryError>(MemoryError::AddressOverflow),
            old(self).range_free(address as int, size as int) && address + align_up(size as int)
                <= address_space_end() && r is Err ==> r == Err::<u32, MemoryError>(
                MemoryError::OutOfMemory,
            ),
            r is Err ==> *final(self) == *old(self),
            r is Ok ==> {
                &&& r == Ok::<u32, MemoryError>(address)
                &&& final(self).region_seq().len() == old(self).region_seq().len() + 1
                &&& final(self).region_seq().drop_last() == old(self).region_seq()
                &&& final(self).region_seq().last().base_address == address
                &&& final(self).region_seq().last().size == align_up(size as int)
                &&& final(self).region_seq().last().protection == protection
                &&& final(self).region_seq().last().name@ == "allocated"@
                &&& final(self).spec_used_memory() == old(self).spec_used_memory() + align_up(
                    size as int,
                )
                &&& final(self).mapped_fresh(
                    old(self),
                    address as int,
                    align_up(size as int),
                    protection,
                )
            },
    {
        // Check if address is already in use
        if self.is_address_in_use(address, size) {
            return Err(MemoryError::AddressInUse);
        }
        let name = "allocated".to_owned();
        let res = self.allocate_region(address, size, protection, name);
        match res {
            Ok(()) => {
                proof {
                    assert(self.region_seq().drop_last() =~= old(self).region_seq());
                }
                Ok(address)
            },
            Err(e) => Err(e),
        }
    }

    /// Allocates memory automatically
    pub fn allocate(&mut self, size: u32, protection: MemoryProtection) -> (r: Result<
        u32,
        MemoryError,
    >)
        requires
            old(self).wf(),
        ensures
            final(self).wf(),
            r is Ok ==> {
                &&& old(self).free_region_outcome(size as int, r)
                &&& final(self).region_seq().drop_last() == old(self).region_seq()
                &&& final(self).region_seq().last().base_address == r->Ok_0
                &&& final(self).region_seq().last().size == align_up(size as int)
                &&& final(self).region_seq().last().protection == protection
                &&& final(self).spec_used_memory() == old(self).spec_used_memory() + align_up(
                    size as int,
                )
                &&& final(self).mapped_fresh(
                    old(self),
                    r->Ok_0 as int,
                    align_up(size as int),
                    protection,
                )
            },
            r is Err ==> {
                &&& *final(self) == *old(self)
                &&& r == Err::<u32, MemoryError>(MemoryError::OutOfMemory)
                &&& (old(self).free_region_outcome(size as int, r) || old(
                    self,
                ).spec_used_memory() + align_up(size as int) > u32::MAX)
            },
    {
        let address = match self.find_free_region(size) {
            Ok(a) => a,
            Err(e) => return Err(e),
        };
        proof {
            lemma_align_up(size as int);
        }
        let res = self.allocate_at(address, size, protection);
        match res {
            Ok(a) => Ok(a),
            Err(e) => {
                proof {
                    assert(old(self).range_free(address as int, size as int)) by {
                        assert forall|i: int|
                            0 <= i < old(self).region_seq().len() implies !(#[trigger] old(
                                self,
                            ).region_seq()[i]).overlaps(address as int, size as int) by {
                            assert(!old(self).region_seq()[i].overlaps(
                                address as int,
                                align_up(size as int),
                            ));
                        }
                    }
                }
                Err(e)
            },
        }
    }

    /// The first byte that cannot be read is the one after a readable
    /// prefix.
    pub proof fn lemma_first_unreadable(&self, addr: int, len: int, i: int)
        requires
            0 <= i < len,
            !self.is_readable(addr + i),
            self.range_readable(addr, i),
        ensures
            !self.range_readable(addr, len),
            self.first_unreadable(addr, len) == i,
    {
        assert(0 <= i < len && !self.is_readable(addr + i) && self.range_readable(addr, i));
        let f = self.first_unreadable(addr, len);
        if f < i {
            assert(self.is_readable(addr + f));
        } else if i < f {
            assert(self.is_readable(addr + i));
        }
    }

    /// A range that cannot be read all through has a first byte that
    /// cannot be read.
    pub proof fn lemma_has_first_unreadable(&self, addr: int, len: int)
        requires
            !self.range_readable(addr, len),
        ensures
            0 <= self.first_unreadable(addr, len) < len,
            !self.is_readable(addr + self.first_unreadable(addr, len)),
            self.range_readable(addr, self.first_unreadable(addr, len)),
        decreases len,
    {
        if self.range_readable(addr, len - 1) {
            let i = len - 1;
            assert(0 <= i < len && !self.is_readable(addr + i) && self.range_readable(addr, i));
        } else {
            self.lemma_has_first_unreadable(addr, len - 1);
            let f = self.first_unreadable(addr, len - 1);
            assert(0 <= f < len && !self.is_readable(addr + f) && self.range_readable(addr, f));
        }
    }

    /// Two memories that can read the same addresses fail a read of a range
    /// at the same byte.
    pub proof fn lemma_same_first_unreadable(&self, other: &Self, addr: int, len: int)
        requires
            forall|i: int| 0 <= i < len ==> #[trigger] self.is_readable(addr + i) == other.is_readable(addr + i),
            !self.range_readable(addr, len),
        ensures
            !other.range_readable(addr, len),
            other.first_unreadable(addr, len) == self.first_unreadable(addr, len),
    {
        self.lemma_has_first_unreadable(addr, len);
        let f = self.first_unreadable(addr, len);
        assert forall|i: int| 0 <= i < f implies #[trigger] other.is_readable(addr + i) by {
            assert(self.is_readable(addr + i));
        }
        assert(!other.is_readable(addr + f));
        other.lemma_first_unreadable(addr, len, f);
    }

    /// Reads a byte from memory
    pub fn read_u8(&self, address: u32) -> (r: Result<u8, MemoryError>)
        requires
            self.wf(),
        ensures
            r == self.spec_read_u8(address as int),
    {
        let page_address = (address / PAGE_SIZE) * PAGE_SIZE;
        let offset = address % PAGE_SIZE;
        match self.pages.get(&page_address) {
            Some(page) => {
                assert(self.page_map().contains_key(page_address));
                if !page.protection.readable {
                    return Err(MemoryError::NotReadable);
                }
                Ok(page.data[offset as usize])
            },
            None => Err(MemoryError::InvalidPageAddress),
        }
    }

    /// Writes a byte to memory
    pub fn write_u8(&mut self, address: u32, value: u8) -> (r: Result<(), MemoryError>)
        requires
            old(self).wf(),
        ensures
            final(self).wf(),
            final(self).write_outcome(old(self), address as int, seq![value], r),
    {
        let page_address = (address / PAGE_SIZE) * PAGE_SIZE;
        let offset = address % PAGE_SIZE;
        proof {
            lemma_page_arith(address as int);
        }
        let removed = self.pages.remove(&page_address);
        match removed {
            Some(mut page) => {
                assert(old(self).page_map().contains_key(page_address));
                page.data.set(offset as usize, value);
                page.is_dirty = true;
                self.pages.insert(page_address, page);
                proof {
                    let pb = page_address as int;
                    assert(self.page_map().dom() =~= old(self).page_map().dom());
                    assert forall|b: int|
                        #![trigger self.byte_at(b)]
                        self.is_mapped(b) && !(address <= b < address + 1) implies self.byte_at(b)
                        == old(self).byte_at(b) by {
                        lemma_page_arith(b);
                    }
                    assert forall|k: u32| #[trigger]
                        self.page_map().contains_key(k) implies self.page_map()[k].is_dirty == (
                        old(self).page_map()[k].is_dirty || page_touched(k as int, address as int, 1))
                        by {
                        if page_touched(k as int, address as int, 1) {
                            lemma_page_base_unique(address as int, k as int);
                        }
                    }
                    assert(self.byte_at(address + 0) == seq![value][0]);
                    assert(self.wrote(old(self), address as int, seq![value]));
                    assert(old(self).range_mapped(address as int, 1));
                }
                Ok(())
            },
            None => {
                proof {
                    assert(!old(self).is_mapped(address + 0));
                    assert(self.page_map() =~= old(self).page_map());
                    assert(seq![value].take(0) =~= Seq::<u8>::empty());
                    assert(self.wrote(old(self), address as int, seq![value].take(0)));
                }
                Err(MemoryError::InvalidPageAddress)
            },
        }
    }

    pub proof fn lemma_wrote_extend(
        m0: &Self,
        m1: &Self,
        m2: &Self,
        addr: int,
        d: Seq<u8>,
        b: u8,
    )
        requires
            m0.wf(),
            m0.range_mapped(addr, d.len() as int + 1),
            m1.wrote(m0, addr, d),
            m2.wrote(m1, addr + d.len(), seq![b]),
        ensures
            m2.wrote(m0, addr, d.push(b)),
    {
        let n = d.len() as int;
        assert forall|i: int| 0 <= i < d.push(b).len() implies #[trigger] m2.byte_at(addr + i)
            == d.push(b)[i] by {
            if i < n {
                assert(m0.is_mapped(addr + i));
                assert(m1.byte_at(addr + i) == d[i]);
            } else {
                assert(m2.byte_at(addr + n + 0) == seq![b][0]);
            }
        }
        assert forall|x: int|
            #![trigger m2.byte_at(x)]
            m2.is_mapped(x) && !(addr <= x < addr + d.push(b).len()) implies m2.byte_at(x)
            == m0.byte_at(x) by {
            assert(m1.is_mapped(x));
        }
    }

    pub proof fn lemma_wrote_then_nothing(m0: &Self, m1: &Self, m2: &Self, addr: int, d: Seq<u8>, x: int)
        requires
            m0.range_mapped(addr, d.len() as int),
            m1.wrote(m0, addr, d),
            m2.wrote(m1, x, Seq::<u8>::empty()),
        ensures
            m2.wrote(m0, addr, d),
    {
        assert forall|i: int| 0 <= i < d.len() implies #[trigger] m2.byte_at(addr + i) == d[i] by {
            assert(m0.is_mapped(addr + i));
            assert(m2.byte_at(addr + i) == m1.byte_at(addr + i));
        }
        assert forall|y: int|
            #![trigger m2.byte_at(y)]
            m2.is_mapped(y) && !(addr <= y < addr + d.len()) implies m2.byte_at(y)
            == m0.byte_at(y) by {
            assert(m1.is_mapped(y));
        }
    }

    pub proof fn lemma_wrote_nothing(m: &Self, addr: int)
        requires
            m.wf(),
        ensures
            m.wrote(m, addr, Seq::<u8>::empty()),
    {
    }

    /// Reads multiple bytes from memory
    pub fn read_bytes(&self, address: u32, count: u32) -> (r: Result<Vec<u8>, MemoryError>)
        requires
            self.wf(),
        ensures
            match r {
                Ok(v) => self.spec_read_bytes(address as int, count as nat) == Ok::<
                    Seq<u8>,
                    MemoryError,
                >(v@),
                Err(e) => self.spec_read_bytes(address as int, count as nat) == Err::<
                    Seq<u8>,
                    MemoryError,
                >(e),
            },
    {
        let mut result: Vec<u8> = Vec::new();
        let mut i: u32 = 0;
        while i < count
            invariant
                self.wf(),
                i <= count,
                self.range_readable(address as int, i as int),
                result@ == self.bytes_at(address as int, i as nat),
            decreases count - i,
        {
            let current: u64 = address as u64 + i as u64;
            if current >= 0x1_0000_0000u64 {
                assert(!self.is_mapped(address + i));
                proof {
                    self.lemma_first_unreadable(address as int, count as int, i as int);
                }
                return Err(MemoryError::InvalidPageAddress);
            }
            match self.read_u8(current as u32) {
                Ok(byte) => {
                    result.push(byte);
                    assert(result@ =~= self.bytes_at(address as int, (i + 1) as nat));
                },
                Err(e) => {
                    assert(!self.is_readable(address + i));
                    proof {
                        self.lemma_first_unreadable(address as int, count as int, i as int);
                    }
                    return Err(e);
                },
            }
            i = i + 1;
        }
        Ok(result)
    }

    /// Writes multiple bytes to memory
    pub fn write_bytes(&mut self, address: u32, data: &[u8]) -> (r: Result<(), MemoryError>)
        requires
            old(self).wf(),
        ensures
            final(self).wf(),
            final(self).write_outcome(old(self), address as int, data@, r),
    {
        proof {
            Self::lemma_wrote_nothing(old(self), address as int);
            assert(data@.take(0) =~= Seq::<u8>::empty());
        }
        let mut i: usize = 0;
        while i < data.len()
            invariant
                old(self).wf(),
                self.wf(),
                i <= data@.len(),
                old(self).range_mapped(address as int, i as int),
                self.wrote(old(self), address as int, data@.take(i as int)),
                address + i <= 0x1_0000_0000,
            decreases data@.len() - i,
        {
            let current: u64 = address as u64 + i as u64;
            if current >= 0x1_0000_0000u64 {
                proof {
                    assert(!old(self).is_mapped(address + i));
                    assert(!old(self).range_mapped(address as int, data@.len() as int));
                }
                return Err(MemoryError::InvalidPageAddress);
            }
            let ghost before = *self;
            let res = self.write_u8(current as u32, data[i]);
            match res {
                Ok(()) => {
                    proof {
                        assert(before.is_mapped(current + 0));
                        assert(before.page_map().dom() == old(self).page_map().dom());
                        assert(old(self).is_mapped(address + i));
                        Self::lemma_wrote_extend(
                            old(self),
                            &before,
                            self,
                            address as int,
                            data@.take(i as int),
                            data@[i as int],
                        );
                        assert(data@.take(i as int).push(data@[i as int]) =~= data@.take(
                            i + 1,
                        ));
                    }
                },
                Err(e) => {
                    proof {
                        assert(!before.is_mapped(current + 0));
                        assert(before.page_map().dom() == old(self).page_map().dom());
                        assert(!old(self).is_mapped(address + i));
                        assert(!old(self).range_mapped(address as int, data@.len() as int));
                        assert(seq![data@[i as int]].take(0) =~= Seq::<u8>::empty());
                        Self::lemma_wrote_then_nothing(
                            old(self),
                            &before,
                            self,
                            address as int,
                            data@.take(i as int),
                            current as int,
                        );
                        assert(self.wrote(old(self), address as int, data@.take(i as int)));
                    }
                    return Err(e);
                },
            }
            i = i + 1;
        }
        proof {
            assert(data@.take(data@.len() as int) =~= data@);
        }
        Ok(())
    }

    /// Reads a 16-bit value from memory
    pub fn read_u16(&self, address: u32) -> (r: Result<u16, MemoryError>)
        requires
            self.wf(),
        ensures
            r == self.spec_read_u16(address as int),
    {
        let bytes = self.read_bytes(address, 2)?;
        let value = bytes[0] as u16 + (bytes[1] as u16) * 256;
        Ok(value)
    }

    /// Writes a 16-bit value to memory
    pub fn write_u16(&mut self, address: u32, value: u16) -> (r: Result<(), MemoryError>)
        requires
            old(self).wf(),
        ensures
            final(self).wf(),
            final(self).write_outcome(old(self), address as int, le_u16_bytes(value), r),
    {
        let mut bytes: Vec<u8> = Vec::new();
        bytes.push((value % 256) as u8);
        bytes.push((value / 256) as u8);
        assert(bytes@ =~= le_u16_bytes(value));
        self.write_bytes(address, bytes.as_slice())
    }

    /// Reads a 32-bit value from memory
    pub fn read_u32(&self, address: u32) -> (r: Result<u32, MemoryError>)
        requires
            self.wf(),
        ensures
            r == self.spec_read_u32(address as int),
    {
        let bytes = self.read_bytes(address, 4)?;
        let value = bytes[0] as u32 + (bytes[1] as u32) * 256 + (bytes[2] as u32) * 65536
            + (bytes[3] as u32) * 16777216;
        Ok(value)
    }

    /// Writes a 32-bit value to memory
    pub fn write_u32(&mut self, address: u32, value: u32) -> (r: Result<(), MemoryError>)
        requires
            old(self).wf(),
        ensures
            final(self).wf(),
            final(self).write_outcome(old(self), address as int, le_u32_bytes(value), r),
    {
        let mut bytes: Vec<u8> = Vec::new();
        bytes.push((value % 256) as u8);
        bytes.push(((value / 256) % 256) as u8);
        bytes.push(((value / 65536) % 256) as u8);
        bytes.push((value / 16777216) as u8);
        assert(bytes@ =~= le_u32_bytes(value));
        self.write_bytes(address, bytes.as_slice())
    }

    /// Changes memory protection of every mapped page that the page-aligned
    /// range around `[address, address + size)` covers.
    pub fn protect(&mut self, address: u32, size: u32, protection: MemoryProtection) -> (r: Result<
        (),
        MemoryError,
    >)
        requires
            old(self).wf(),
        ensures
            r is Ok,
            final(self).protected(old(self), address as int, size as int, protection),
    {
        proof {
            lemma_page_arith(address as int);
            lemma_align_up(size as int);
        }
        let aligned_address: u32 = (address / PAGE_SIZE) * PAGE_SIZE;
        let aligned_size: u64 = ((size as u64 + 4095) / 4096) * 4096;
        let page_count: u64 = aligned_size / 4096;
        assert(page_count * 4096 == aligned_size) by (nonlinear_arith)
            requires
                aligned_size % 4096 == 0,
                page_count == aligned_size / 4096,
        ;
        let mut i: u64 = 0;
        while i < page_count
            invariant
                0 <= i <= page_count,
                page_count * 4096 == aligned_size,
                aligned_size == align_up(size as int),
                aligned_address == page_base_of(address as int),
                old(self).wf(),
                self.wf(),
                self.page_map().dom() == old(self).page_map().dom(),
                self.region_seq() == old(self).region_seq(),
                self.spec_used_memory() == old(self).spec_used_memory(),
                self.spec_next_free_address() == old(self).spec_next_free_address(),
                self.spec_total_memory() == old(self).spec_total_memory(),
                forall|k: u32| #[trigger]
                    self.page_map().contains_key(k) ==> {
                        let p_old = old(self).page_map()[k];
                        let p_new = self.page_map()[k];
                        &&& p_new.data == p_old.data
                        &&& p_new.base_address == p_old.base_address
                        &&& p_new.is_dirty == p_old.is_dirty
                        &&& p_new.protection == if is_page_of_range(
                            k as int,
                            aligned_address as int,
                            i * 4096,
                        ) {
                            protection
                        } else {
                            p_old.protection
                        }
                    },
            decreases page_count - i,
        {
            let page_address: u64 = aligned_address as u64 + i * 4096;
            if page_address < 0x1_0000_0000u64 {
                let key = page_address as u32;
                let removed = self.pages.remove(&key);
                match removed {
                    Some(mut page) => {
                        page.protection = protection;
                        self.pages.insert(key, page);
                    },
                    None => {},
                }
            }
            proof {
                assert forall|k: u32|
                    #[trigger] is_page_of_range(k as int, aligned_address as int, (i + 1) * 4096)
                        <==> (is_page_of_range(k as int, aligned_address as int, i * 4096) || k
                        == page_address) by {
                    if is_page_of_range(k as int, aligned_address as int, (i + 1) * 4096)
                        && !is_page_of_range(k as int, aligned_address as int, i * 4096) {
                        lemma_multiple_in_window(k - aligned_address, i as int);
                    }
                    if k == page_address {
                        assert((k - aligned_address) % 4096 == 0) by (nonlinear_arith)
                            requires
                                k - aligned_address == i * 4096,
                        ;
                    }
                }
                assert(self.page_map().dom() =~= old(self).page_map().dom());
            }
            i = i + 1;
        }
        Ok(())
    }

    /// Gets memory statistics
    pub fn get_stats(&self) -> (r: MemoryStats)
        requires
            self.spec_used_memory() <= self.spec_total_memory(),
        ensures
            r.total_pages == self.page_map().len(),
            r.total_memory == self.spec_total_memory(),
            r.used_memory == self.spec_used_memory(),
            r.free_memory == self.spec_total_memory() - self.spec_used_memory(),
            r.regions == self.region_seq().len(),
    {
        MemoryStats {
            total_pages: self.pages.len(),
            total_memory: self.total_memory,
            used_memory: self.used_memory,
            free_memory: self.total_memory - self.used_memory,
            regions: self.regions.len(),
        }
    }

    /// Gets memory regions
    pub fn get_regions(&self) -> (r: &[MemoryRegion])
        ensures
            r@ == self.region_seq(),
    {
        self.regions.as_slice()
    }

    /// First address that `allocate` tries.
    pub fn next_free_address(&self) -> (r: u32)
        ensures
            r == self.spec_next_free_address(),
    {
        self.next_free_address
    }

    /// Size of the guest address space that `allocate` draws from.
    pub fn total_memory(&self) -> (r: u32)
        ensures
            r == self.spec_total_memory(),
    {
        self.total_memory
    }

    /// Bytes of pages mapped so far, counting remapped pages again.
    pub fn used_memory(&self) -> (r: u32)
        ensures
            r == self.spec_used_memory(),
    {
        self.used_memory
    }

    /// The base addresses of all mapped pages, in no particular order.
    fn page_addresses(&self) -> (r: Vec<u32>)
        ensures
            r@.no_duplicates(),
            r@.to_set() == self.page_map().dom(),
    {
        let mut out: Vec<u32> = Vec::new();
        let ghost keys = vstd::std_specs::hash::spec_keys_iter(&self.pages).remaining();
        for k in it: self.pages.keys()
            invariant
                it.seq() == keys,
                out@ == keys.take(it.index() as int).unref(),
        {
            out.push(*k);
            assert(out@ =~= keys.take(it.index() + 1).unref());
        }
        assert(out@ =~= keys.unref());
        out
    }

    /// Clears dirty flag for all pages
    pub fn clear_dirty_flags(&mut self)
        requires
            old(self).wf(),
        ensures
            final(self).wf(),
            final(self).page_map().dom() == old(self).page_map().dom(),
            final(self).region_seq() == old(self).region_seq(),
            final(self).spec_used_memory() == old(self).spec_used_memory(),
            final(self).spec_next_free_address() == old(self).spec_next_free_address(),
            final(self).spec_total_memory() == old(self).spec_total_memory(),
            forall|k: u32| #[trigger]
                final(self).page_map().contains_key(k) ==> {
                    let p_old = old(self).page_map()[k];
                    let p_new = final(self).page_map()[k];
                    &&& p_new.data == p_old.data
                    &&& p_new.base_address == p_old.base_address
                    &&& p_new.protection == p_old.protection
                    &&& !p_new.is_dirty
                },
    {
        let keys = self.page_addresses();
        let mut i: usize = 0;
        while i < keys.len()
            invariant
                0 <= i <= keys@.len(),
                keys@.no_duplicates(),
                keys@.to_set() == old(self).page_map().dom(),
                old(self).wf(),
                self.wf(),
                self.page_map().dom() == old(self).page_map().dom(),
                self.region_seq() == old(self).region_seq(),
                self.spec_used_memory() == old(self).spec_used_memory(),
                self.spec_next_free_address() == old(self).spec_next_free_address(),
                self.spec_total_memory() == old(self).spec_total_memory(),
                forall|k: u32| #[trigger]
                    self.page_map().contains_key(k) ==> {
                        let p_old = old(self).page_map()[k];
                        let p_new = self.page_map()[k];
                        &&& p_new.data == p_old.data
                        &&& p_new.base_address == p_old.base_address
                        &&& p_new.protection == p_old.protection
                        &&& p_new.is_dirty == (p_old.is_dirty && !keys@.take(i as int).contains(k))
                    },
            decreases keys@.len() - i,
        {
            let key = keys[i];
            let removed = self.pages.remove(&key);
            match removed {
                Some(mut page) => {
                    page.is_dirty = false;
                    self.pages.insert(key, page);
                },
                None => {},
            }
            proof {
                assert(keys@.take(i + 1) =~= keys@.take(i as int).push(key));
                assert(self.page_map().dom() =~= old(self).page_map().dom());
            }
            i = i + 1;
        }
        proof {
            assert(keys@.take(keys@.len() as int) =~= keys@);
            assert forall|k: u32| #[trigger]
                self.page_map().contains_key(k) implies keys@.contains(k) by {
                assert(keys@.to_set().contains(k));
            }
        }
    }

    /// Gets dirty pages, in no particular order: every dirty page once.
    pub fn get_dirty_pages(&self) -> (r: Vec<&MemoryPage>)
        requires
            self.wf(),
        ensures
            forall|i: int|
                0 <= i < r@.len() ==> self.page_map().contains_key((#[trigger] r@[i]).base_address)
                    && *r@[i] == self.page_map()[r@[i].base_address] && r@[i].is_dirty,
            forall|k: u32| #[trigger]
                self.page_map().contains_key(k) && self.page_map()[k].is_dirty ==> exists|i: int|
                    0 <= i < r@.len() && (#[trigger] r@[i]).base_address == k,
            forall|i: int, j: int|
                0 <= i < j < r@.len() ==> (#[trigger] r@[i]).base_address != (#[trigger] r@[j]).base_address,
    {
        let keys = self.page_addresses();
        let mut out: Vec<&MemoryPage> = Vec::new();
        let mut i: usize = 0;
        while i < keys.len()
            invariant
                0 <= i <= keys@.len(),
                keys@.no_duplicates(),
                keys@.to_set() == self.page_map().dom(),
                self.wf(),
                forall|j: int|
                    0 <= j < out@.len() ==> self.page_map().contains_key(
                        (#[trigger] out@[j]).base_address,
                    ) && *out@[j] == self.page_map()[out@[j].base_address] && out@[j].is_dirty
                        && keys@.take(i as int).contains(out@[j].base_address),
                forall|k: u32| #[trigger]
                    keys@.take(i as int).contains(k) && self.page_map().contains_key(k)
                        && self.page_map()[k].is_dirty ==> exists|j: int|
                        0 <= j < out@.len() && (#[trigger] out@[j]).base_address == k,
                forall|a: int, b: int|
                    0 <= a < b < out@.len() ==> (#[trigger] out@[a]).base_address != (
                    #[trigger] out@[b]).base_address,
            decreases keys@.len() - i,
        {
            let key = keys[i];
            let ghost old_out = out@;
            assert(keys@.take(i + 1) =~= keys@.take(i as int).push(key));
            assert(!keys@.take(i as int).contains(key)) by {
                if keys@.take(i as int).contains(key) {
                    let j = choose|j: int| 0 <= j < i && keys@.take(i as int)[j] == key;
                    assert(keys@[j] == keys@[i as int]);
                }
            }
            match self.pages.get(&key) {
                Some(page) => {
                    if page.is_dirty {
                        out.push(page);
                    }
                },
                None => {},
            }
            proof {
                assert forall|k: u32| #[trigger]
                    keys@.take(i + 1).contains(k) && self.page_map().contains_key(k)
                        && self.page_map()[k].is_dirty implies exists|j: int|
                        0 <= j < out@.len() && (#[trigger] out@[j]).base_address == k by {
                    if k != key {
                        assert(keys@.take(i as int).contains(k));
                        let j = choose|j: int|
                            0 <= j < old_out.len() && (#[trigger] old_out[j]).base_address == k;
                        assert(out@[j] == old_out[j]);
                    } else {
                        assert(out@[old_out.len() as int].base_address == key);
                    }
                }
            }
            i = i + 1;
        }
        proof {
            assert(keys@.take(keys@.len() as int) =~= keys@);
            assert forall|k: u32| #[trigger]
                self.page_map().contains_key(k) implies keys@.contains(k) by {
                assert(keys@.to_set().contains(k));
            }
        }
        out
    }
}

/// A successful write is read back: after storing `data` at `addr`, reading
/// `data.len()` bytes at `addr` gives `data`.
pub proof fn law_read_back_bytes(old: &MemoryManager, new: &MemoryManager, addr: int, data: Seq<u8>)
    requires
        old.wf(),
        new.write_outcome(old, addr, data, Ok(())),
        old.range_readable(addr, data.len() as int),
    ensures
        new.spec_read_bytes(addr, data.len()) == Ok::<Seq<u8>, MemoryError>(data),
{
    assert forall|i: int| 0 <= i < data.len() implies #[trigger] new.is_readable(addr + i) by {
        assert(old.is_readable(addr + i));
    }
    assert(new.bytes_at(addr, data.len()) =~= data);
}

/// A 32-bit value written is the value read back.
pub proof fn law_read_back_u32(old: &MemoryManager, new: &MemoryManager, addr: int, value: u32)
    requires
        old.wf(),
        new.write_outcome(old, addr, le_u32_bytes(value), Ok(())),
        old.range_readable(addr, 4),
    ensures
        new.spec_read_u32(addr) == Ok::<u32, MemoryError>(value),
{
    law_read_back_bytes(old, new, addr, le_u32_bytes(value));
    let b = le_u32_bytes(value);
    assert(le_u32_value(b) == value) by (nonlinear_arith)
        requires
            b[0] == value % 256,
            b[1] == (value / 256) % 256,
            b[2] == (value / 65536) % 256,
            b[3] == value / 16777216,
            0 <= value < 0x1_0000_0000,
    ;
}

/// A 16-bit value written is the value read back.
pub proof fn law_read_back_u16(old: &MemoryManager, new: &MemoryManager, addr: int, value: u16)
    requires
        old.wf(),
        new.write_outcome(old, addr, le_u16_bytes(value), Ok(())),
        old.range_readable(addr, 2),
    ensures
        new.spec_read_u16(addr) == Ok::<u16, MemoryError>(value),
{
    law_read_back_bytes(old, new, addr, le_u16_bytes(value));
}

/// A write, whether it succeeds or stops at an unmapped page, leaves every
/// read of a range that does not meet the written range as it was.
pub proof fn law_write_leaves_other_ranges(
    old: &MemoryManager,
    new: &MemoryManager,
    addr: int,
    data: Seq<u8>,
    r: Result<(), MemoryError>,
    other: int,
    len: nat,
)
    requires
        old.wf(),
        new.write_outcome(old, addr, data, r),
        other + len <= addr || addr + data.len() <= other,
    ensures
        new.spec_read_bytes(other, len) == old.spec_read_bytes(other, len),
{
    let written = if r is Ok {
        data
    } else {
        let f = choose|f: int|
            0 <= f < data.len() && !old.is_mapped(addr + f) && old.range_mapped(addr, f)
                && #[trigger] new.wrote(old, addr, data.take(f));
        data.take(f)
    };
    assert(new.wrote(old, addr, written));
    assert forall|i: int| 0 <= i < len implies #[trigger] new.is_readable(other + i) == old.is_readable(
        other + i,
    ) by {
        assert(new.is_mapped(other + i) == old.is_mapped(other + i));
    }
    if old.range_readable(other, len as int) {
        assert(new.range_readable(other, len as int));
        assert(new.bytes_at(other, len) =~= old.bytes_at(other, len)) by {
            assert forall|i: int| 0 <= i < len implies #[trigger] new.byte_at(other + i) == old.byte_at(
                other + i,
            ) by {
                assert(old.is_readable(other + i));
                assert(new.is_mapped(other + i));
            }
        }
    } else {
        old.lemma_same_first_unreadable(new, other, len as int);
        let f = old.first_unreadable(other, len as int);
        assert(new.is_mapped(other + f) == old.is_mapped(other + f));
    }
}

/// Freshly mapped pages read as zero: after a page-aligned range is mapped
/// afresh, every byte in it is mapped and holds 0.
pub proof fn law_fresh_range_reads_zero(
    old: &MemoryManager,
    new: &MemoryManager,
    base: int,
    len: int,
    prot: MemoryProtection,
)
    requires
        new.wf(),
        new.mapped_fresh(old, base, len, prot),
        base % 4096 == 0,
        len % 4096 == 0,
        0 <= base,
        0 <= len,
        base + len <= address_space_end(),
        prot.readable,
    ensures
        new.spec_read_bytes(base, len as nat) == Ok::<Seq<u8>, MemoryError>(
            Seq::new(len as nat, |i: int| 0u8),
        ),
{
    assert forall|i: int| 0 <= i < len implies new.is_mapped(base + i) && #[trigger] new.byte_at(
        base + i,
    ) == 0 by {
        let a = base + i;
        lemma_page_arith(a);
        let k = page_base_of(a);
        assert((k - base) % 4096 == 0) by (nonlinear_arith)
            requires
                k % 4096 == 0,
                base % 4096 == 0,
        ;
        assert(is_page_of_range(k, base, len));
        assert(new.page_map()[k as u32].is_fresh(k as u32, prot));
    }
    assert(new.bytes_at(base, len as nat) =~= Seq::new(len as nat, |i: int| 0u8));
    assert(new.range_mapped(base, len));
    assert forall|i: int| 0 <= i < len implies #[trigger] new.is_readable(base + i) by {
        let a = base + i;
        lemma_page_arith(a);
        let k = page_base_of(a);
        assert((k - base) % 4096 == 0) by (nonlinear_arith)
            requires
                k % 4096 == 0,
                base % 4096 == 0,
        ;
        assert(is_page_of_range(k, base, len));
        assert(new.page_map()[k as u32].is_fresh(k as u32, prot));
    }
}

/// Allocations land on page boundaries.
pub proof fn law_allocation_is_page_aligned(m: &MemoryManager, size: int, a: u32)
    requires
        m.wf(),
        m.free_region_outcome(size, Ok(a)),
    ensures
        a % 4096 == 0,
{
    assert(a % 4096 == 0) by (nonlinear_arith)
        requires
            (a - 0x1000_0000) % 4096 == 0,
    ;
}

/// Two allocations made one after the other take disjoint ranges: the
/// second lands on a range free of every region, the first among them.
pub proof fn law_allocations_are_disjoint(
    m1: &MemoryManager,
    size1: int,
    a1: u32,
    m1_later: &MemoryManager,
    size2: int,
    a2: u32,
)
    requires
        m1.region_seq().len() > 0,
        m1.region_seq().last().base_address == a1,
        m1.region_seq().last().size == align_up(size1),
        m1_later.region_seq() == m1.region_seq(),
        m1_later.free_region_outcome(size2, Ok(a2)),
    ensures
        a1 + align_up(size1) <= a2 || a2 + align_up(size2) <= a1,
{
    let last = (m1_later.region_seq().len() - 1) as int;
    assert(!m1_later.region_seq()[last].overlaps(a2 as int, align_up(size2)));
}

/// After the dirty flags were cleared, a one-byte write leaves exactly the
/// page that holds the byte dirty.
pub proof fn law_one_write_dirties_one_page(m1: &MemoryManager, m2: &MemoryManager, a: int, v: u8)
    requires
        forall|k: u32| #[trigger] m1.page_map().contains_key(k) ==> !m1.page_map()[k].is_dirty,
        m1.is_mapped(a),
        m2.wrote(m1, a, seq![v]),
    ensures
        m2.page_map().contains_key(page_base_of(a) as u32),
        m2.page_map()[page_base_of(a) as u32].is_dirty,
        forall|k: u32| #[trigger]
            m2.page_map().contains_key(k) ==> (m2.page_map()[k].is_dirty <==> k == page_base_of(a)),
{
    lemma_page_arith(a);
    assert forall|k: u32| #[trigger]
        m2.page_map().contains_key(k) implies (m2.page_map()[k].is_dirty <==> k == page_base_of(a)) by {
        if page_touched(k as int, a, 1) {
            lemma_page_base_unique(a, k as int);
        }
    }
}

/// An allocation leaves every byte outside its own range as it was: the
/// page that holds such a byte is the same page, with the same contents and
/// protection, so a read of it gives what it gave before.
pub proof fn law_allocation_keeps_other_bytes(
    m1: &MemoryManager,
    m2: &MemoryManager,
    base: int,
    len: int,
    prot: MemoryProtection,
    b: int,
)
    requires
        m2.mapped_fresh(m1, base, len, prot),
        base % 4096 == 0,
        len % 4096 == 0,
        m1.is_mapped(b),
        !(base <= b < base + len),
    ensures
        m2.is_mapped(b),
        m2.byte_at(b) == m1.byte_at(b),
        m2.spec_read_u8(b) == m1.spec_read_u8(b),
{
    lemma_page_arith(b);
    let k = page_base_of(b);
    if is_page_of_range(k, base, len) {
        assert(k + 4096 <= base + len) by (nonlinear_arith)
            requires
                base <= k < base + len,
                (k - base) % 4096 == 0,
                len % 4096 == 0,
        ;
    }
    assert(!is_page_of_range(k, base, len));
    assert(m1.page_map().contains_key(k as u32));
    assert(m2.page_map()[k as u32] == m1.page_map()[k as u32]);
}

} // verus!
