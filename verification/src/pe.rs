//! PE (Portable Executable) images: parsing the headers of a file and
//! loading its sections, imports and relocations into emulated memory.
use crate::memory::{address_space_end, align_up, MemoryError, MemoryManager, MemoryProtection};
use vstd::prelude::*;
use vstd::slice::slice_to_vec;
use vstd::wrapping::u32_specs::{wrapping_add, wrapping_sub};
use crate::memory::le_u32_bytes;

verus! {

/// The DOS signature, "MZ".
pub const PE_MAGIC: u16 = 0x5A4D;

/// The PE signature, "PE\0\0".
pub const PE_SIGNATURE: u32 = 0x00004550;

/// PE file header structures
#[derive(Debug, Clone)]
pub struct DOSHeader {
    pub magic: u16,
    pub last_page_size: u16,
    pub pages_in_file: u16,
    pub relocations: u16,
    pub header_size: u16,
    pub min_extra_paragraphs: u16,
    pub max_extra_paragraphs: u16,
    pub initial_ss: u16,
    pub initial_sp: u16,
    pub checksum: u16,
    pub initial_ip: u16,
    pub initial_cs: u16,
    pub relocations_offset: u32,
    pub overlay_number: u16,
    pub reserved1: [u16; 4],
    pub oem_id: u16,
    pub oem_info: u16,
    pub reserved2: [u16; 10],
    pub pe_header_offset: u32,
}

#[derive(Debug, Clone, Copy, PartialEq, Eq, Structural)]
pub struct COFFHeader {
    pub machine: u16,
    pub number_of_sections: u16,
    pub time_date_stamp: u32,
    pub symbol_table_pointer: u32,
    pub number_of_symbols: u32,
    pub optional_header_size: u16,
    pub characteristics: u16,
}

#[derive(Debug, Clone, Copy, PartialEq, Eq, Structural)]
pub struct OptionalHeader32 {
    pub magic: u16,
    pub linker_version: u8,
    pub linker_revision: u8,
    pub code_size: u32,
    pub initialized_data_size: u32,
    pub uninitialized_data_size: u32,
    pub entry_point: u32,
    pub code_base: u32,
    pub data_base: u32,
    pub image_base: u32,
    pub section_alignment: u32,
    pub file_alignment: u32,
    pub os_version: u16,
    pub os_major: u16,
    pub user_version: u16,
    pub user_major: u16,
    pub subsystem_version: u16,
    pub subsystem_major: u16,
    pub win32_version: u32,
    pub image_size: u32,
    pub headers_size: u32,
    pub checksum: u32,
    pub subsystem: u16,
    pub dll_characteristics: u16,
    pub stack_reserve_size: u32,
    pub stack_commit_size: u32,
    pub heap_reserve_size: u32,
    pub heap_commit_size: u32,
    pub loader_flags: u32,
    pub data_directories_count: u32,
}

#[derive(Debug, Clone, Copy, PartialEq, Eq, Structural)]
pub struct DataDirectory {
    pub virtual_address: u32,
    pub size: u32,
}

#[derive(Debug, Clone)]
pub struct SectionHeader {
    pub name: [u8; 8],
    pub virtual_size: u32,
    pub virtual_address: u32,
    pub raw_data_size: u32,
    pub raw_data_offset: u32,
    pub relocations_offset: u32,
    pub line_numbers_offset: u32,
    pub relocations_count: u16,
    pub line_numbers_count: u16,
    pub characteristics: u32,
}

#[derive(Debug, Clone, Copy, PartialEq, Eq, Structural)]
pub struct ImportDirectoryEntry {
    pub import_lookup_table: u32,
    pub time_date_stamp: u32,
    pub forwarder_chain: u32,
    pub dll_name_rva: u32,
    pub import_address_table: u32,
}

/// PE file representation
#[derive(Debug)]
pub struct PEFile {
    pub dos_header: DOSHeader,
    pub coff_header: COFFHeader,
    pub optional_header: Option<OptionalHeader32>,
    pub data_directories: Vec<DataDirectory>,
    pub sections: Vec<SectionHeader>,
    pub raw_data: Vec<u8>,
}

/// Why a PE image could not be parsed or loaded.
#[derive(Debug, Clone, Copy, PartialEq, Eq, Structural)]
pub enum PeError {
    /// Fewer than 64 bytes: no room for the DOS header.
    FileTooSmall,
    /// The file does not start with "MZ".
    InvalidDosSignature,
    /// The PE header offset lies past the end of the file.
    PeHeaderOffsetOutOfBounds,
    /// The PE signature runs past the end of the file.
    PeSignatureOutOfBounds,
    /// The PE header does not start with "PE\0\0".
    InvalidPeSignature,
    /// The COFF header runs past the end of the file.
    CoffHeaderOutOfBounds,
    /// The optional header runs past the end of the file.
    OptionalHeaderOutOfBounds,
    /// The data directories run past the end of the file.
    DataDirectoriesOutOfBounds,
    /// The section headers run past the end of the file.
    SectionHeadersOutOfBounds,
    /// An address computed while loading lies past the 32-bit address space.
    AddressOverflow,
    /// An access to emulated memory failed.
    Memory(MemoryError),
}

/// The little-endian 16-bit value at `i`.
pub open spec fn u16_at(d: Seq<u8>, i: int) -> u16 {
    (d[i] + 256 * d[i + 1]) as u16
}

/// The little-endian 32-bit value at `i`.
pub open spec fn u32_at(d: Seq<u8>, i: int) -> u32 {
    (d[i] + 256 * d[i + 1] + 65536 * d[i + 2] + 16777216 * d[i + 3]) as u32
}

fn read_u16_le(d: &[u8], i: usize) -> (r: u16)
    requires
        i + 2 <= d@.len(),
    ensures
        r == u16_at(d@, i as int),
{
    d[i] as u16 + (d[i + 1] as u16) * 256
}

fn read_u32_le(d: &[u8], i: usize) -> (r: u32)
    requires
        i + 4 <= d@.len(),
    ensures
        r == u32_at(d@, i as int),
{
    d[i] as u32 + (d[i + 1] as u32) * 256 + (d[i + 2] as u32) * 65536 + (d[i + 3] as u32)
        * 16777216
}

/// `h` is the DOS header held by the first 64 bytes of `d`.
pub open spec fn dos_header_of(h: DOSHeader, d: Seq<u8>) -> bool {
    &&& h.magic == u16_at(d, 0)
    &&& h.last_page_size == u16_at(d, 2)
    &&& h.pages_in_file == u16_at(d, 4)
    &&& h.relocations == u16_at(d, 6)
    &&& h.header_size == u16_at(d, 8)
    &&& h.min_extra_paragraphs == u16_at(d, 10)
    &&& h.max_extra_paragraphs == u16_at(d, 12)
    &&& h.initial_ss == u16_at(d, 14)
    &&& h.initial_sp == u16_at(d, 16)
    &&& h.checksum == u16_at(d, 18)
    &&& h.initial_ip == u16_at(d, 20)
    &&& h.initial_cs == u16_at(d, 22)
    &&& h.relocations_offset == u32_at(d, 24)
    &&& h.overlay_number == u16_at(d, 28)
    &&& h.reserved1@ == seq![u16_at(d, 30), u16_at(d, 32), u16_at(d, 34), u16_at(d, 36)]
    &&& h.oem_id == u16_at(d, 38)
    &&& h.oem_info == u16_at(d, 40)
    &&& h.reserved2@ == Seq::new(10, |i: int| u16_at(d, 42 + 2 * i))
    &&& h.pe_header_offset == u32_at(d, 60)
}

/// The COFF header held by the first 20 bytes of `d`.
pub open spec fn spec_coff_header(d: Seq<u8>) -> COFFHeader {
    COFFHeader {
        machine: u16_at(d, 0),
        number_of_sections: u16_at(d, 2),
        time_date_stamp: u32_at(d, 4),
        symbol_table_pointer: u32_at(d, 8),
        number_of_symbols: u32_at(d, 12),
        optional_header_size: u16_at(d, 16),
        characteristics: u16_at(d, 18),
    }
}

/// The optional header held by the first 96 bytes of `d`.
pub open spec fn spec_optional_header(d: Seq<u8>) -> OptionalHeader32 {
    OptionalHeader32 {
        magic: u16_at(d, 0),
        linker_version: d[2],
        linker_revision: d[3],
        code_size: u32_at(d, 4),
        initialized_data_size: u32_at(d, 8),
        uninitialized_data_size: u32_at(d, 12),
        entry_point: u32_at(d, 16),
        code_base: u32_at(d, 20),
        data_base: u32_at(d, 24),
        image_base: u32_at(d, 28),
        section_alignment: u32_at(d, 32),
        file_alignment: u32_at(d, 36),
        os_version: u16_at(d, 40),
        os_major: u16_at(d, 42),
        user_version: u16_at(d, 44),
        user_major: u16_at(d, 46),
        subsystem_version: u16_at(d, 48),
        subsystem_major: u16_at(d, 50),
        win32_version: u32_at(d, 52),
        image_size: u32_at(d, 56),
        headers_size: u32_at(d, 60),
        checksum: u32_at(d, 64),
        subsystem: u16_at(d, 68),
        dll_characteristics: u16_at(d, 70),
        stack_reserve_size: u32_at(d, 72),
        stack_commit_size: u32_at(d, 76),
        heap_reserve_size: u32_at(d, 80),
        heap_commit_size: u32_at(d, 84),
        loader_flags: u32_at(d, 88),
        data_directories_count: u32_at(d, 92),
    }
}

/// `h` is the section header held by the first 40 bytes of `d`.
pub open spec fn section_header_of(h: SectionHeader, d: Seq<u8>) -> bool {
    &&& h.name@ == d.subrange(0, 8)
    &&& h.virtual_size == u32_at(d, 8)
    &&& h.virtual_address == u32_at(d, 12)
    &&& h.raw_data_size == u32_at(d, 16)
    &&& h.raw_data_offset == u32_at(d, 20)
    &&& h.relocations_offset == u32_at(d, 24)
    &&& h.line_numbers_offset == u32_at(d, 28)
    &&& h.relocations_count == u16_at(d, 32)
    &&& h.line_numbers_count == u16_at(d, 34)
    &&& h.characteristics == u32_at(d, 36)
}

/// The data directory entry at `at`.
pub open spec fn spec_data_directory(d: Seq<u8>, at: int) -> DataDirectory {
    DataDirectory { virtual_address: u32_at(d, at), size: u32_at(d, at + 4) }
}

/// Where the PE signature stands.
pub open spec fn pe_offset(d: Seq<u8>) -> int {
    u32_at(d, 60) as int
}

/// Where the COFF header stands.
pub open spec fn coff_offset(d: Seq<u8>) -> int {
    pe_offset(d) + 4
}

/// The COFF header of a file.
pub open spec fn file_coff_header(d: Seq<u8>) -> COFFHeader {
    spec_coff_header(d.subrange(coff_offset(d), coff_offset(d) + 20))
}

/// The size the COFF header declares for the optional header.
pub open spec fn optional_size(d: Seq<u8>) -> int {
    file_coff_header(d).optional_header_size as int
}

/// Where the optional header stands.
pub open spec fn optional_offset(d: Seq<u8>) -> int {
    coff_offset(d) + 20
}

/// The optional header of a file that declares one.
pub open spec fn file_optional_header(d: Seq<u8>) -> OptionalHeader32 {
    spec_optional_header(d.subrange(optional_offset(d), optional_offset(d) + optional_size(d)))
}

/// How many data directory entries are read.
pub open spec fn directory_count(d: Seq<u8>) -> int {
    if optional_size(d) > 0 {
        file_optional_header(d).data_directories_count as int
    } else {
        0
    }
}

/// Where the data directory entries are read: right after the optional header.
pub open spec fn directory_offset(d: Seq<u8>) -> int {
    optional_offset(d) + optional_size(d)
}

/// Where the section headers are read: right after the data directories.
pub open spec fn sections_offset(d: Seq<u8>) -> int {
    directory_offset(d) + 8 * directory_count(d)
}

/// How many section headers are read.
pub open spec fn section_count(d: Seq<u8>) -> int {
    file_coff_header(d).number_of_sections as int
}

/// Everything up to the COFF header is in place.
pub open spec fn coff_ok(d: Seq<u8>) -> bool {
    &&& d.len() >= 64
    &&& u16_at(d, 0) == PE_MAGIC
    &&& pe_offset(d) < d.len()
    &&& pe_offset(d) + 4 <= d.len()
    &&& u32_at(d, pe_offset(d)) == PE_SIGNATURE
    &&& coff_offset(d) + 20 <= d.len()
}

/// The file declares an optional header that fits in the file but is shorter
/// than the 96 bytes that are read of it.
pub open spec fn optional_header_too_short(d: Seq<u8>) -> bool {
    &&& coff_ok(d)
    &&& 0 < optional_size(d) < 96
    &&& optional_offset(d) + optional_size(d) <= d.len()
}

/// The first check that `d` fails, if any.
pub open spec fn pe_error(d: Seq<u8>) -> Option<PeError> {
    if d.len() < 64 {
        Some(PeError::FileTooSmall)
    } else if u16_at(d, 0) != PE_MAGIC {
        Some(PeError::InvalidDosSignature)
    } else if pe_offset(d) >= d.len() {
        Some(PeError::PeHeaderOffsetOutOfBounds)
    } else if pe_offset(d) + 4 > d.len() {
        Some(PeError::PeSignatureOutOfBounds)
    } else if u32_at(d, pe_offset(d)) != PE_SIGNATURE {
        Some(PeError::InvalidPeSignature)
    } else if coff_offset(d) + 20 > d.len() {
        Some(PeError::CoffHeaderOutOfBounds)
    } else if optional_size(d) > 0 && optional_offset(d) + optional_size(d) > d.len() {
        Some(PeError::OptionalHeaderOutOfBounds)
    } else if optional_size(d) > 0 && directory_offset(d) + 8 * directory_count(d) > d.len() {
        Some(PeError::DataDirectoriesOutOfBounds)
    } else if sections_offset(d) + 40 * section_count(d) > d.len() {
        Some(PeError::SectionHeadersOutOfBounds)
    } else {
        None
    }
}

/// `pe` holds the headers of the file `d`, which passes every check.
pub open spec fn parsed_pe(d: Seq<u8>, pe: PEFile) -> bool {
    &&& dos_header_of(pe.dos_header, d)
    &&& pe.coff_header == file_coff_header(d)
    &&& pe.optional_header == if optional_size(d) > 0 {
        Some(file_optional_header(d))
    } else {
        None
    }
    &&& pe.data_directories@ == Seq::new(
        directory_count(d) as nat,
        |i: int| spec_data_directory(d, directory_offset(d) + 8 * i),
    )
    &&& pe.sections@.len() == section_count(d)
    &&& forall|i: int|
        0 <= i < section_count(d) ==> #[trigger] section_header_of(
            pe.sections@[i],
            d.subrange(sections_offset(d) + 40 * i, sections_offset(d) + 40 * i + 40),
        )
    &&& pe.raw_data@ == d
}

/// `allocate_at` can place `size` bytes at `base` in `m`.
pub open spec fn can_allocate_at(m: &MemoryManager, base: u32, size: u32) -> bool {
    &&& m.range_free(base as int, size as int)
    &&& base + align_up(size as int) <= address_space_end()
    &&& m.spec_used_memory() + align_up(size as int) <= u32::MAX
}

/// Where the image of a file goes, and what memory looks like after the
/// image memory was mapped: at its preferred base where that is free,
/// otherwise wherever `allocate` places it.
pub open spec fn image_allocated(
    old: &MemoryManager,
    new: &MemoryManager,
    opt: OptionalHeader32,
    r: Result<u32, PeError>,
) -> bool {
    let size = opt.image_size;
    if can_allocate_at(old, opt.image_base, size) {
        &&& r == Ok::<u32, PeError>(opt.image_base)
        &&& new.mapped_fresh(
            old,
            opt.image_base as int,
            align_up(size as int),
            MemoryProtection { readable: true, writable: true, executable: false },
        )
    } else {
        match r {
            Ok(b) => {
                &&& old.free_region_outcome(size as int, Ok(b))
                &&& new.mapped_fresh(
                    old,
                    b as int,
                    align_up(size as int),
                    MemoryProtection { readable: true, writable: true, executable: false },
                )
            },
            Err(e) => {
                &&& e == PeError::Memory(MemoryError::OutOfMemory)
                &&& *new == *old
                &&& (old.free_region_outcome(size as int, Err(MemoryError::OutOfMemory))
                    || old.spec_used_memory() + align_up(size as int) > u32::MAX)
            },
        }
    }
}

/// The protection a section gets from its characteristics: code sections
/// are executable (and writable when marked so), other writable sections
/// read-write, other sections read-only; an executable non-code or a
/// writable-but-not-executable code section is read-write.
pub open spec fn section_protection(c: u32) -> MemoryProtection {
    let is_code = c & 0x20 != 0;
    let is_writable = c & 0x8000_0000 != 0;
    let is_executable = c & 0x2000_0000 != 0;
    if is_code && !is_writable && is_executable {
        MemoryProtection { readable: true, writable: false, executable: true }
    } else if is_code && is_writable && is_executable {
        MemoryProtection { readable: true, writable: true, executable: true }
    } else if !is_code && !is_writable && !is_executable {
        MemoryProtection { readable: true, writable: false, executable: false }
    } else {
        MemoryProtection { readable: true, writable: true, executable: false }
    }
}

/// `s` is the NUL-terminated string that starts at `addr`: its bytes are
/// readable and non-zero, and a zero byte follows them.
pub open spec fn c_string_at(m: &MemoryManager, addr: int, s: Seq<u8>) -> bool {
    &&& forall|j: int|
        0 <= j < s.len() ==> #[trigger] m.spec_read_u8(addr + j) == Ok::<u8, MemoryError>(s[j])
            && s[j] != 0
    &&& m.spec_read_u8(addr + s.len()) == Ok::<u8, MemoryError>(0)
}

/// Reading a string at `addr` fails at its `k`-th byte: the bytes before
/// are readable and non-zero, and the `k`-th is unreadable (or lies past the
/// end of the address space).
pub open spec fn c_string_fails_at(m: &MemoryManager, addr: int, k: int) -> bool {
    &&& 0 <= k
    &&& forall|j: int|
        0 <= j < k ==> (#[trigger] m.spec_read_u8(addr + j) matches Ok(b) && b != 0)
    &&& m.spec_read_u8(addr + k) is Err
}

/// The UTF-8 bytes of a text.
pub open spec fn bytes_of(s: Seq<char>) -> Seq<u8> {
    vstd::utf8::encode_utf8(s)
}

/// The address an import resolves to; names that are not known resolve to
/// a placeholder.
pub open spec fn known_import(dll: Seq<u8>, name: Seq<u8>) -> u32 {
    if dll == bytes_of("kernel32.dll"@) && name == bytes_of("GetLastError"@) {
        0x7c801d7a
    } else if dll == bytes_of("kernel32.dll"@) && name == bytes_of("GetCurrentProcess"@) {
        0x7c8020ba
    } else if dll == bytes_of("kernel32.dll"@) && name == bytes_of("VirtualAlloc"@) {
        0x7c809a90
    } else if dll == bytes_of("kernel32.dll"@) && name == bytes_of("VirtualFree"@) {
        0x7c809c4c
    } else if dll == bytes_of("kernel32.dll"@) && name == bytes_of("ExitProcess"@) {
        0x7c81caa2
    } else if dll == bytes_of("user32.dll"@) && name == bytes_of("MessageBoxA"@) {
        0x77d5050b
    } else if dll == bytes_of("user32.dll"@) && name == bytes_of("GetWindowTextA"@) {
        0x77d4c6e0
    } else {
        0xDEADBEEF
    }
}

/// Two known imports that resolve to the same address are the same import:
/// each known address belongs to exactly one DLL and function name.
pub proof fn law_known_imports_are_distinct(d1: Seq<u8>, n1: Seq<u8>, d2: Seq<u8>, n2: Seq<u8>)
    requires
        known_import(d1, n1) != 0xDEADBEEF,
        known_import(d1, n1) == known_import(d2, n2),
    ensures
        d1 == d2,
        n1 == n2,
{
}

/// Distinct texts have distinct UTF-8 encodings.
proof fn lemma_bytes_of_injective(a: Seq<char>, b: Seq<char>)
    requires
        bytes_of(a) == bytes_of(b),
    ensures
        a == b,
{
    vstd::utf8::encode_utf8_decode_utf8(a);
    vstd::utf8::encode_utf8_decode_utf8(b);
}

/// The addresses of the known imports: kernel32.dll's GetLastError,
/// GetCurrentProcess, VirtualAlloc, VirtualFree and ExitProcess, and
/// user32.dll's MessageBoxA and GetWindowTextA; the same function name under
/// another DLL is not known.
pub proof fn law_known_import_addresses(other_dll: Seq<u8>)
    requires
        other_dll != bytes_of("kernel32.dll"@),
        other_dll != bytes_of("user32.dll"@),
    ensures
        known_import(bytes_of("kernel32.dll"@), bytes_of("GetLastError"@)) == 0x7c801d7a,
        known_import(bytes_of("kernel32.dll"@), bytes_of("GetCurrentProcess"@)) == 0x7c8020ba,
        known_import(bytes_of("kernel32.dll"@), bytes_of("VirtualAlloc"@)) == 0x7c809a90,
        known_import(bytes_of("kernel32.dll"@), bytes_of("VirtualFree"@)) == 0x7c809c4c,
        known_import(bytes_of("kernel32.dll"@), bytes_of("ExitProcess"@)) == 0x7c81caa2,
        known_import(bytes_of("user32.dll"@), bytes_of("MessageBoxA"@)) == 0x77d5050b,
        known_import(bytes_of("user32.dll"@), bytes_of("GetWindowTextA"@)) == 0x77d4c6e0,
        known_import(bytes_of("user32.dll"@), bytes_of("VirtualAlloc"@)) == 0xDEADBEEF,
        known_import(bytes_of("kernel32.dll"@), bytes_of("MessageBoxA"@)) == 0xDEADBEEF,
        forall|name: Seq<u8>| known_import(other_dll, name) == 0xDEADBEEF,
{
    reveal_strlit("kernel32.dll");
    reveal_strlit("user32.dll");
    reveal_strlit("GetLastError");
    reveal_strlit("GetCurrentProcess");
    reveal_strlit("VirtualAlloc");
    reveal_strlit("VirtualFree");
    reveal_strlit("ExitProcess");
    reveal_strlit("MessageBoxA");
    reveal_strlit("GetWindowTextA");
    let names = seq![
        "GetLastError"@,
        "GetCurrentProcess"@,
        "VirtualAlloc"@,
        "VirtualFree"@,
        "ExitProcess"@,
        "MessageBoxA"@,
        "GetWindowTextA"@,
    ];
    assert forall|i: int, j: int| 0 <= i < 7 && 0 <= j < 7 && i != j implies bytes_of(names[i])
        != bytes_of(names[j]) by {
        if bytes_of(names[i]) == bytes_of(names[j]) {
            lemma_bytes_of_injective(names[i], names[j]);
            assert(names[i][0] != names[j][0] || names[i].len() != names[j].len() || names[i][3]
                != names[j][3]);
        }
    }
    if bytes_of("kernel32.dll"@) == bytes_of("user32.dll"@) {
        lemma_bytes_of_injective("kernel32.dll"@, "user32.dll"@);
        assert("kernel32.dll"@[0] != "user32.dll"@[0]);
    }
    assert(bytes_of(names[2]) != bytes_of(names[0]));
    assert(bytes_of(names[2]) != bytes_of(names[1]));
    assert(bytes_of(names[3]) != bytes_of(names[0]));
    assert(bytes_of(names[3]) != bytes_of(names[1]));
    assert(bytes_of(names[3]) != bytes_of(names[2]));
    assert(bytes_of(names[4]) != bytes_of(names[0]));
    assert(bytes_of(names[4]) != bytes_of(names[1]));
    assert(bytes_of(names[4]) != bytes_of(names[2]));
    assert(bytes_of(names[4]) != bytes_of(names[3]));
    assert(bytes_of(names[1]) != bytes_of(names[0]));
    assert(bytes_of(names[6]) != bytes_of(names[5]));
    assert(bytes_of(names[5]) != bytes_of(names[0]));
    assert(bytes_of(names[5]) != bytes_of(names[1]));
    assert(bytes_of(names[5]) != bytes_of(names[2]));
    assert(bytes_of(names[5]) != bytes_of(names[3]));
    assert(bytes_of(names[5]) != bytes_of(names[4]));
}

/// Whether two byte strings are equal.
fn same_bytes(a: &[u8], b: &[u8]) -> (r: bool)
    ensures
        r == (a@ == b@),
{
    if a.len() != b.len() {
        return false;
    }
    let mut i: usize = 0;
    while i < a.len()
        invariant
            a@.len() == b@.len(),
            0 <= i <= a@.len(),
            forall|j: int| 0 <= j < i ==> a@[j] == b@[j],
        decreases a@.len() - i,
    {
        if a[i] != b[i] {
            return false;
        }
        i = i + 1;
    }
    assert(a@ =~= b@);
    true
}

/// `new` has the pages, regions and usage counter of `old`; page contents
/// and protections may differ, but a readable page stays readable.
pub open spec fn layout_kept(new: &MemoryManager, old: &MemoryManager) -> bool {
    &&& new.page_map().dom() == old.page_map().dom()
    &&& new.region_seq() == old.region_seq()
    &&& new.spec_used_memory() == old.spec_used_memory()
    &&& forall|k: u32| #[trigger]
        new.page_map().contains_key(k) && old.page_map()[k].protection.readable
            ==> new.page_map()[k].protection.readable
}

/// The section's raw data is copied: it has some, at a non-zero offset, and
/// it lies within the file.
pub open spec fn section_copies_raw(s: SectionHeader, file_len: int) -> bool {
    &&& s.raw_data_size > 0
    &&& s.raw_data_offset > 0
    &&& s.raw_data_offset + s.raw_data_size <= file_len
}

/// The end state of loading section `s` of the file `raw` into an image at
/// `base`: its raw data stands at `base + virtual_address`, and the rest of
/// its virtual size after that is zero.
pub open spec fn section_loaded(m: &MemoryManager, s: SectionHeader, raw: Seq<u8>, base: u32) -> bool {
    let va = base + s.virtual_address;
    &&& section_copies_raw(s, raw.len() as int) ==> forall|i: int|
        0 <= i < s.raw_data_size ==> #[trigger] m.holds(va + i, raw[s.raw_data_offset + i])
    &&& s.virtual_size > s.raw_data_size ==> forall|i: int|
        s.raw_data_size <= i < s.virtual_size ==> #[trigger] m.holds(va + i, 0)
}

/// `n` zero bytes.
pub open spec fn zeros(n: int) -> Seq<u8> {
    Seq::new(n as nat, |i: int| 0u8)
}

/// The raw data of section `s` in the file `raw`.
pub open spec fn section_raw(s: SectionHeader, raw: Seq<u8>) -> Seq<u8> {
    raw.subrange(s.raw_data_offset as int, s.raw_data_offset + s.raw_data_size)
}

/// What a store of `len` bytes at `addr` answers: it succeeds exactly when
/// the range is mapped.
pub open spec fn store_answer(m: &MemoryManager, addr: int, len: int) -> Result<(), MemoryError> {
    if m.range_mapped(addr, len) {
        Ok(())
    } else {
        Err(MemoryError::InvalidPageAddress)
    }
}

/// `new` is `m1` after the raw data of section `s` was copied to `va`, when
/// the section has raw data to copy; otherwise it is `m1`.
pub open spec fn raw_copied(m1: &MemoryManager, new: &MemoryManager, s: SectionHeader, raw: Seq<u8>, va: int) -> bool {
    if section_copies_raw(s, raw.len() as int) {
        new.write_outcome(m1, va, section_raw(s, raw), store_answer(m1, va, s.raw_data_size as int))
    } else {
        *new == *m1
    }
}

/// What loading section `s` of the file `raw` into an image at `base`
/// does: the pages the section covers take the section's protection, its raw
/// data (if any) is copied to its address, and the rest of its virtual size
/// is zeroed; the first store that fails ends the load with its error.
pub open spec fn section_load_outcome(
    old: &MemoryManager,
    new: &MemoryManager,
    s: SectionHeader,
    raw: Seq<u8>,
    base: u32,
    r: Result<(), PeError>,
) -> bool {
    let va = base + s.virtual_address;
    let rds = s.raw_data_size as int;
    let vs = s.virtual_size as int;
    if va > u32::MAX {
        r == Err::<(), PeError>(PeError::AddressOverflow) && *new == *old
    } else {
        exists|m1: MemoryManager, m2: MemoryManager|
            {
                &&& m1.protected(
                    old,
                    va,
                    section_span(s),
                    section_protection(s.characteristics),
                )
                &&& #[trigger] raw_copied(&m1, &m2, s, raw, va)
                &&& if section_copies_raw(s, raw.len() as int) && !old.range_mapped(va, rds) {
                    r == Err::<(), PeError>(PeError::Memory(MemoryError::InvalidPageAddress)) && *new
                        == m2
                } else if vs > rds {
                    if va + rds > u32::MAX {
                        r == Err::<(), PeError>(PeError::AddressOverflow) && *new == m2
                    } else {
                        &&& new.write_outcome(
                            &m2,
                            va + rds,
                            zeros(vs - rds),
                            store_answer(&m2, va + rds, vs - rds),
                        )
                        &&& r == (if old.range_mapped(va + rds, vs - rds) {
                            Ok::<(), PeError>(())
                        } else {
                            Err::<(), PeError>(PeError::Memory(MemoryError::InvalidPageAddress))
                        })
                    }
                } else {
                    r is Ok && *new == m2
                }
            }
    }
}

/// What loading the sections `secs[i..]` of the file `raw` into an image at
/// `base` does: each is loaded in turn, and the first that fails ends the
/// load with its error.
pub open spec fn sections_load_outcome(
    old: &MemoryManager,
    new: &MemoryManager,
    secs: Seq<SectionHeader>,
    i: int,
    raw: Seq<u8>,
    base: u32,
    r: Result<(), PeError>,
) -> bool
    decreases secs.len() - i,
{
    if i >= secs.len() {
        r is Ok && *new == *old
    } else {
        exists|mid: MemoryManager, r1: Result<(), PeError>|
            {
                &&& #[trigger] section_load_outcome(old, &mid, secs[i], raw, base, r1)
                &&& if r1 is Err {
                    r == r1 && *new == mid
                } else {
                    sections_load_outcome(&mid, new, secs, i + 1, raw, base, r)
                }
            }
    }
}

/// The bytes a section covers in the image: its virtual size or its raw
/// size, whichever is larger.
pub open spec fn section_span(s: SectionHeader) -> int {
    if s.virtual_size > s.raw_data_size {
        s.virtual_size as int
    } else {
        s.raw_data_size as int
    }
}

/// Two sections cover disjoint bytes of the image.
pub open spec fn sections_apart(a: SectionHeader, b: SectionHeader) -> bool {
    a.virtual_address + section_span(a) <= b.virtual_address || b.virtual_address
        + section_span(b) <= a.virtual_address
}

/// Every mapped byte of `old` outside `[lo, hi)` is unchanged in `new`.
pub open spec fn bytes_kept_outside(new: &MemoryManager, old: &MemoryManager, lo: int, hi: int) -> bool {
    forall|b: int|
        #![trigger new.byte_at(b)]
        old.is_mapped(b) && !(lo <= b < hi) ==> new.byte_at(b) == old.byte_at(b)
}

/// A memory-level result of a store, as the store reported it.
pub open spec fn store_result(r: Result<(), PeError>) -> Result<(), MemoryError> {
    match r {
        Ok(_) => Ok(()),
        Err(PeError::Memory(e)) => Err(e),
        Err(_) => Err(MemoryError::AddressOverflow),
    }
}

/// The relocation type of a relocation entry: its top four bits.
pub open spec fn relocation_type(entry: u16) -> int {
    (entry / 4096) as int
}

/// The page offset of a relocation entry: its low twelve bits.
pub open spec fn relocation_offset(entry: u16) -> int {
    (entry % 4096) as int
}

/// What applying relocation `entry` of the block for page `page_rva` does
/// to memory `old`, giving `new` and `r`: absolute entries do nothing; any
/// other entry whose target lies past the address space fails; a HIGHLOW
/// entry adds `delta` (wrapping) to the 32-bit word at its target; other
/// types are skipped.
pub open spec fn relocation_applied(
    old: &MemoryManager,
    new: &MemoryManager,
    entry: u16,
    page_rva: u32,
    image_base: u32,
    delta: u32,
    r: Result<(), PeError>,
) -> bool {
    let target = image_base + page_rva + relocation_offset(entry);
    if relocation_type(entry) == 0 {
        r is Ok && *new == *old
    } else if target > u32::MAX {
        r == Err::<(), PeError>(PeError::AddressOverflow) && *new == *old
    } else if relocation_type(entry) == 3 {
        match old.spec_read_u32(target) {
            Err(e) => r == Err::<(), PeError>(PeError::Memory(e)) && *new == *old,
            Ok(v) => {
                &&& (r is Ok || r matches Err(PeError::Memory(_)))
                &&& new.write_outcome(
                    old,
                    target,
                    le_u32_bytes(wrapping_add(v, delta)),
                    store_result(r),
                )
            },
        }
    } else {
        r is Ok && *new == *old
    }
}

/// What applying the entries `i..count` of a relocation block does, the
/// entries being 16-bit words from `start` on: each is read and applied in
/// turn, and the walk stops at the first failure.
pub open spec fn relocation_entries_applied(
    old: &MemoryManager,
    new: &MemoryManager,
    start: u32,
    i: int,
    count: int,
    page_rva: u32,
    image_base: u32,
    delta: u32,
    r: Result<(), PeError>,
) -> bool
    decreases count - i,
{
    if i >= count {
        r is Ok && *new == *old
    } else if start + 2 * i > u32::MAX {
        r == Err::<(), PeError>(PeError::AddressOverflow) && *new == *old
    } else {
        match old.spec_read_u16(start + 2 * i) {
            Err(e) => r == Err::<(), PeError>(PeError::Memory(e)) && *new == *old,
            Ok(entry) => exists|mid: MemoryManager, r1: Result<(), PeError>|
                {
                    &&& #[trigger] relocation_applied(old, &mid, entry, page_rva, image_base, delta, r1)
                    &&& if r1 is Err {
                        r == r1 && *new == mid
                    } else {
                        relocation_entries_applied(
                            &mid,
                            new,
                            start,
                            i + 1,
                            count,
                            page_rva,
                            image_base,
                            delta,
                            r,
                        )
                    }
                },
        }
    }
}

/// What applying the relocation blocks from `block_va` up to `end_va` does:
/// each block's header (page RVA, then block size) is read; a block size
/// under 8 ends the walk; otherwise the block's entries are applied and the
/// walk goes on with the next block.
pub open spec fn relocation_blocks_applied(
    old: &MemoryManager,
    new: &MemoryManager,
    block_va: u32,
    end_va: u32,
    image_base: u32,
    delta: u32,
    r: Result<(), PeError>,
) -> bool
    decreases u32::MAX - block_va,
{
    if block_va >= end_va {
        r is Ok && *new == *old
    } else {
        match old.spec_read_bytes(block_va as int, 8) {
            Err(e) => r == Err::<(), PeError>(PeError::Memory(e)) && *new == *old,
            Ok(header) => {
                let page_rva = u32_at(header, 0);
                let block_size = u32_at(header, 4);
                if block_size < 8 {
                    r is Ok && *new == *old
                } else if block_va + 8 > u32::MAX {
                    r == Err::<(), PeError>(PeError::AddressOverflow) && *new == *old
                } else {
                    exists|mid: MemoryManager, r1: Result<(), PeError>|
                        {
                            &&& #[trigger] relocation_entries_applied(
                                old,
                                &mid,
                                (block_va + 8) as u32,
                                0,
                                (block_size - 8) / 2,
                                page_rva,
                                image_base,
                                delta,
                                r1,
                            )
                            &&& if r1 is Err {
                                r == r1 && *new == mid
                            } else if block_va + block_size > u32::MAX {
                                r == Err::<(), PeError>(PeError::AddressOverflow) && *new == mid
                            } else {
                                relocation_blocks_applied(
                                    &mid,
                                    new,
                                    (block_va + block_size) as u32,
                                    end_va,
                                    image_base,
                                    delta,
                                    r,
                                )
                            }
                        }
                }
            },
        }
    }
}

/// What processing base relocations does for an image of `pe` placed at
/// `image_base`: nothing when the file has no relocation directory, the
/// directory is empty or the image stands at its preferred base; otherwise
/// the relocation blocks of the directory are applied with the difference
/// between the two bases.
pub open spec fn relocations_processed(
    pe: &PEFile,
    image_base: u32,
    old: &MemoryManager,
    new: &MemoryManager,
    r: Result<(), PeError>,
) -> bool {
    let opt = pe.optional_header.unwrap();
    let dir = pe.data_directories@[5];
    if opt.data_directories_count < 6 || dir.virtual_address == 0 || dir.size == 0 || image_base
        == opt.image_base {
        r is Ok && *new == *old
    } else if image_base + dir.virtual_address + dir.size > u32::MAX {
        r == Err::<(), PeError>(PeError::AddressOverflow) && *new == *old
    } else {
        relocation_blocks_applied(
            old,
            new,
            (image_base + dir.virtual_address) as u32,
            (image_base + dir.virtual_address + dir.size) as u32,
            image_base,
            wrapping_sub(image_base, opt.image_base),
            r,
        )
    }
}

/// What resolving the import address table entry at `entry_va`, holding
/// `value`, does: an ordinal import (top bit set) is skipped; a named
/// import reads the hint and the NUL-terminated name behind it at
/// `image_base + value` and stores the name's resolved address in the entry.
pub open spec fn import_entry_resolved(
    old: &MemoryManager,
    new: &MemoryManager,
    dll: Seq<u8>,
    entry_va: u32,
    value: u32,
    image_base: u32,
    r: Result<(), PeError>,
) -> bool {
    let hint_va = image_base + value;
    if value >= 0x8000_0000 {
        r is Ok && *new == *old
    } else if hint_va + 2 > u32::MAX {
        r == Err::<(), PeError>(PeError::AddressOverflow) && *new == *old
    } else if old.spec_read_u16(hint_va) is Err {
        r == Err::<(), PeError>(PeError::Memory(old.spec_read_u16(hint_va)->Err_0)) && *new == *old
    } else {
        ||| (exists|k: int|
            #[trigger] c_string_fails_at(old, hint_va + 2, k) && r == Err::<(), PeError>(
                PeError::Memory(old.read_error_at(hint_va + 2 + k)),
            )) && *new == *old
        ||| exists|name: Seq<u8>|
            {
                &&& c_string_at(old, hint_va + 2, name)
                &&& (r is Ok || r matches Err(PeError::Memory(_)))
                &&& new.write_outcome(
                    old,
                    entry_va as int,
                    le_u32_bytes(known_import(dll, name)),
                    store_result(r),
                )
            }
    }
}

/// What resolving the import address table whose entries start at
/// `entry_va` does: entries are read in turn until a zero entry, each is
/// resolved, and the walk stops at the first failure.
pub open spec fn iat_entries_resolved(
    old: &MemoryManager,
    new: &MemoryManager,
    dll: Seq<u8>,
    entry_va: u32,
    image_base: u32,
    r: Result<(), PeError>,
) -> bool
    decreases u32::MAX - entry_va,
{
    match old.spec_read_u32(entry_va as int) {
        Err(e) => r == Err::<(), PeError>(PeError::Memory(e)) && *new == *old,
        Ok(value) => if value == 0 {
            r is Ok && *new == *old
        } else {
            exists|mid: MemoryManager, r1: Result<(), PeError>|
                {
                    &&& #[trigger] import_entry_resolved(old, &mid, dll, entry_va, value, image_base, r1)
                    &&& if r1 is Err {
                        r == r1 && *new == mid
                    } else if entry_va + 4 > u32::MAX {
                        r == Err::<(), PeError>(PeError::AddressOverflow) && *new == mid
                    } else {
                        iat_entries_resolved(&mid, new, dll, (entry_va + 4) as u32, image_base, r)
                    }
                }
        },
    }
}

/// What processing the imports of the DLL named `dll`, whose import
/// address table is at `iat_rva`, does.
pub open spec fn single_import_processed(
    old: &MemoryManager,
    new: &MemoryManager,
    dll: Seq<u8>,
    iat_rva: u32,
    image_base: u32,
    r: Result<(), PeError>,
) -> bool {
    if image_base + iat_rva > u32::MAX {
        r == Err::<(), PeError>(PeError::AddressOverflow) && *new == *old
    } else {
        iat_entries_resolved(old, new, dll, (image_base + iat_rva) as u32, image_base, r)
    }
}

/// What walking the import directory from the entry at `entry_va` does:
/// each 20-byte entry is read; an all-zero entry ends the table; otherwise
/// the DLL name is read and the DLL's imports are processed, and the walk
/// stops at the first failure.
pub open spec fn import_directory_walked(
    old: &MemoryManager,
    new: &MemoryManager,
    entry_va: u32,
    image_base: u32,
    r: Result<(), PeError>,
) -> bool
    decreases u32::MAX - entry_va,
{
    match old.spec_read_bytes(entry_va as int, 20) {
        Err(e) => r == Err::<(), PeError>(PeError::Memory(e)) && *new == *old,
        Ok(d) => {
            let name_rva = u32_at(d, 12);
            let iat_rva = u32_at(d, 16);
            let name_va = image_base + name_rva;
            if u32_at(d, 0) == 0 && u32_at(d, 4) == 0 && u32_at(d, 8) == 0 && name_rva == 0 && iat_rva
                == 0 {
                r is Ok && *new == *old
            } else if name_va > u32::MAX {
                r == Err::<(), PeError>(PeError::AddressOverflow) && *new == *old
            } else if exists|k: int| #[trigger] c_string_fails_at(old, name_va, k) {
                &&& *new == *old
                &&& exists|k: int|
                    #[trigger] c_string_fails_at(old, name_va, k) && r == Err::<(), PeError>(
                        PeError::Memory(old.read_error_at(name_va + k)),
                    )
            } else {
                exists|name: Seq<u8>, mid: MemoryManager, r1: Result<(), PeError>|
                    {
                        &&& c_string_at(old, name_va, name)
                        &&& #[trigger] single_import_processed(old, &mid, name, iat_rva, image_base, r1)
                        &&& if r1 is Err {
                            r == r1 && *new == mid
                        } else if entry_va + 20 > u32::MAX {
                            r == Err::<(), PeError>(PeError::AddressOverflow) && *new == mid
                        } else {
                            import_directory_walked(&mid, new, (entry_va + 20) as u32, image_base, r)
                        }
                    }
            }
        },
    }
}

/// What processing the import table does for an image of `pe` placed at
/// `image_base`: nothing when the file has no import directory or it is
/// empty; otherwise the import directory is walked.
pub open spec fn imports_processed(
    pe: &PEFile,
    image_base: u32,
    old: &MemoryManager,
    new: &MemoryManager,
    r: Result<(), PeError>,
) -> bool {
    let dir = pe.data_directories@[1];
    if pe.optional_header.unwrap().data_directories_count < 2 || dir.virtual_address == 0 || dir.size
        == 0 {
        r is Ok && *new == *old
    } else if image_base + dir.virtual_address > u32::MAX {
        r == Err::<(), PeError>(PeError::AddressOverflow) && *new == *old
    } else {
        import_directory_walked(old, new, (image_base + dir.virtual_address) as u32, image_base, r)
    }
}

/// What loading the parsed file `pe` does to memory `old`, giving `new` and
/// `r`: memory for the image is allocated (see `image_allocated`), then
/// the image is filled in; the first stage that fails ends the load with
/// its error.
pub open spec fn image_loaded(old: &MemoryManager, new: &MemoryManager, pe: &PEFile, r: Result<u32, PeError>) -> bool {
    exists|m1: MemoryManager, a: Result<u32, PeError>|
        {
            &&& #[trigger] image_allocated(old, &m1, pe.optional_header.unwrap(), a)
            &&& match a {
                Err(e) => r == Err::<u32, PeError>(e) && *new == m1,
                Ok(base) => image_filled(&m1, new, pe, base, r),
            }
        }
}

/// The sections of `pe` are loaded into the image at `base`, and then its
/// imports are linked.
pub open spec fn image_filled(m1: &MemoryManager, new: &MemoryManager, pe: &PEFile, base: u32, r: Result<u32, PeError>) -> bool {
    exists|m2: MemoryManager, s: Result<(), PeError>|
        {
            &&& #[trigger] sections_load_outcome(m1, &m2, pe.sections@, 0, pe.raw_data@, base, s)
            &&& match s {
                Err(e) => r == Err::<u32, PeError>(e) && *new == m2,
                Ok(_) => image_linked(&m2, new, pe, base, r),
            }
        }
}

/// The imports of `pe` are processed in the image at `base`, and then it
/// is relocated.
pub open spec fn image_linked(m2: &MemoryManager, new: &MemoryManager, pe: &PEFile, base: u32, r: Result<u32, PeError>) -> bool {
    exists|m3: MemoryManager, i: Result<(), PeError>|
        {
            &&& #[trigger] imports_processed(pe, base, m2, &m3, i)
            &&& match i {
                Err(e) => r == Err::<u32, PeError>(e) && *new == m3,
                Ok(_) => image_relocated(&m3, new, pe, base, r),
            }
        }
}

/// The entry point of an image of `pe` at `base`, unless it lies past the
/// address space.
pub open spec fn image_entry(pe: &PEFile, base: u32) -> Result<u32, PeError> {
    let entry = base + pe.optional_header.unwrap().entry_point;
    if entry > u32::MAX {
        Err(PeError::AddressOverflow)
    } else {
        Ok(entry as u32)
    }
}

/// An image of `pe` not at its preferred base is relocated; the answer is
/// then its entry point.
pub open spec fn image_relocated(m3: &MemoryManager, new: &MemoryManager, pe: &PEFile, base: u32, r: Result<u32, PeError>) -> bool {
    if base == pe.optional_header.unwrap().image_base {
        *new == *m3 && r == image_entry(pe, base)
    } else {
        exists|m4: MemoryManager, rl: Result<(), PeError>|
            {
                &&& #[trigger] relocations_processed(pe, base, m3, &m4, rl)
                &&& match rl {
                    Err(e) => r == Err::<u32, PeError>(e) && *new == m4,
                    Ok(_) => *new == m4 && r == image_entry(pe, base),
                }
            }
    }
}

/// A string that reads to its end cannot also fail to read.
pub proof fn lemma_c_string_exclusive(m: &MemoryManager, addr: int, s: Seq<u8>, k: int)
    requires
        c_string_at(m, addr, s),
    ensures
        !c_string_fails_at(m, addr, k),
{
    if !c_string_fails_at(m, addr, k) {
    } else if k < s.len() {
        assert(m.spec_read_u8(addr + k) == Ok::<u8, MemoryError>(s[k]));
    } else if k == s.len() {
    } else {
        assert(m.spec_read_u8(addr + s.len()) matches Ok(b) && b != 0);
    }
}

/// Two memories with the same pages have the same mapped ranges.
pub proof fn lemma_same_dom_range(a: &MemoryManager, b: &MemoryManager, addr: int, len: int)
    requires
        a.page_map().dom() == b.page_map().dom(),
    ensures
        a.range_mapped(addr, len) == b.range_mapped(addr, len),
{
    if a.range_mapped(addr, len) {
        assert forall|i: int| 0 <= i < len implies #[trigger] b.is_mapped(addr + i) by {
            assert(a.is_mapped(addr + i));
        }
    }
    if b.range_mapped(addr, len) {
        assert forall|i: int| 0 <= i < len implies #[trigger] a.is_mapped(addr + i) by {
            assert(b.is_mapped(addr + i));
        }
    }
}

/// A write leaves the layout of memory as it was.
pub proof fn lemma_write_keeps_layout(
    new: &MemoryManager,
    old: &MemoryManager,
    addr: int,
    data: Seq<u8>,
    r: Result<(), MemoryError>,
)
    requires
        new.write_outcome(old, addr, data, r),
    ensures
        new.same_layout(old),
        new.wf(),
{
    if r is Err {
        let f = choose|f: int|
            0 <= f < data.len() && !old.is_mapped(addr + f) && old.range_mapped(addr, f)
                && #[trigger] new.wrote(old, addr, data.take(f));
    }
}

/// Keeping the layout is transitive.
pub proof fn lemma_same_layout_trans(a: &MemoryManager, b: &MemoryManager, c: &MemoryManager)
    requires
        b.same_layout(a),
        c.same_layout(b),
    ensures
        c.same_layout(a),
{
}

/// Loading the file `d` would stop the loader: its optional header is too
/// short to read, or the file passes every check without one.
pub open spec fn load_panics(d: Seq<u8>) -> bool {
    ||| optional_header_too_short(d)
    ||| pe_error(d) is None && optional_size(d) == 0
}

/// A loaded section stays loaded while only bytes outside it change.
proof fn lemma_section_kept(
    old: &MemoryManager,
    new: &MemoryManager,
    s: SectionHeader,
    raw: Seq<u8>,
    base: u32,
    lo: int,
    hi: int,
)
    requires
        section_loaded(old, s, raw, base),
        layout_kept(new, old),
        bytes_kept_outside(new, old, lo, hi),
        base + s.virtual_address + section_span(s) <= lo || hi <= base + s.virtual_address,
    ensures
        section_loaded(new, s, raw, base),
{
    let va = base + s.virtual_address;
    assert forall|x: int| #[trigger] new.is_mapped(x) == old.is_mapped(x) by {
        if 0 <= x < address_space_end() {
            assert(new.page_map().contains_key(crate::memory::page_base_of(x) as u32)
                == old.page_map().contains_key(crate::memory::page_base_of(x) as u32));
        }
    }
    if section_copies_raw(s, raw.len() as int) {
        assert forall|i: int| 0 <= i < s.raw_data_size implies #[trigger] new.holds(
            va + i,
            raw[s.raw_data_offset + i],
        ) by {
            assert(old.holds(va + i, raw[s.raw_data_offset + i]));
            assert(new.byte_at(va + i) == old.byte_at(va + i));
        }
    }
    if s.virtual_size > s.raw_data_size {
        assert forall|i: int| s.raw_data_size <= i < s.virtual_size implies #[trigger] new.holds(
            va + i,
            0,
        ) by {
            assert(old.holds(va + i, 0));
            assert(new.byte_at(va + i) == old.byte_at(va + i));
        }
    }
}

/// PE loader
pub struct PELoader {
    loaded_modules: Vec<(String, u32)>,
}

impl PELoader {
    /// Creates a new PE loader
    pub fn new() -> (r: Self)
        ensures
            r.wf(),
            r.modules().is_empty(),
            r.module_count() == 0,
    {
        let r = PELoader { loaded_modules: Vec::new() };
        assert(r.modules() =~= Map::empty());
        r
    }

    /// The loaded modules: module name to base address.
    pub closed spec fn modules(&self) -> Map<Seq<char>, u32> {
        Map::new(
            |k: Seq<char>|
                exists|i: int|
                    0 <= i < self.loaded_modules@.len() && self.loaded_modules@[i].0@ == k,
            |k: Seq<char>|
                self.loaded_modules@[choose|i: int|
                    0 <= i < self.loaded_modules@.len() && self.loaded_modules@[i].0@ == k].1,
        )
    }

    /// No module name is recorded twice.
    pub closed spec fn wf(&self) -> bool {
        forall|i: int, j: int|
            0 <= i < j < self.loaded_modules@.len() ==> #[trigger] self.loaded_modules@[i].0@
                != #[trigger] self.loaded_modules@[j].0@
    }

    /// Parses DOS header
    pub fn parse_dos_header(&self, data: &[u8]) -> (r: Result<DOSHeader, PeError>)
        requires
            data@.len() >= 64,
        ensures
            r matches Ok(h) && dos_header_of(h, data@),
    {
        let h = DOSHeader {
            magic: read_u16_le(data, 0),
            last_page_size: read_u16_le(data, 2),
            pages_in_file: read_u16_le(data, 4),
            relocations: read_u16_le(data, 6),
            header_size: read_u16_le(data, 8),
            min_extra_paragraphs: read_u16_le(data, 10),
            max_extra_paragraphs: read_u16_le(data, 12),
            initial_ss: read_u16_le(data, 14),
            initial_sp: read_u16_le(data, 16),
            checksum: read_u16_le(data, 18),
            initial_ip: read_u16_le(data, 20),
            initial_cs: read_u16_le(data, 22),
            relocations_offset: read_u32_le(data, 24),
            overlay_number: read_u16_le(data, 28),
            reserved1: [
                read_u16_le(data, 30),
                read_u16_le(data, 32),
                read_u16_le(data, 34),
                read_u16_le(data, 36),
            ],
            oem_id: read_u16_le(data, 38),
            oem_info: read_u16_le(data, 40),
            reserved2: [
                read_u16_le(data, 42),
                read_u16_le(data, 44),
                read_u16_le(data, 46),
                read_u16_le(data, 48),
                read_u16_le(data, 50),
                read_u16_le(data, 52),
                read_u16_le(data, 54),
                read_u16_le(data, 56),
                read_u16_le(data, 58),
                read_u16_le(data, 60),
            ],
            pe_header_offset: read_u32_le(data, 60),
        };
        assert(h.reserved1@ =~= seq![
            u16_at(data@, 30),
            u16_at(data@, 32),
            u16_at(data@, 34),
            u16_at(data@, 36),
        ]);
        assert(h.reserved2@ =~= Seq::new(10, |i: int| u16_at(data@, 42 + 2 * i)));
        Ok(h)
    }

    /// Parses COFF header
    pub fn parse_coff_header(&self, data: &[u8]) -> (r: Result<COFFHeader, PeError>)
        requires
            data@.len() >= 20,
        ensures
            r == Ok::<COFFHeader, PeError>(spec_coff_header(data@)),
    {
        Ok(
            COFFHeader {
                machine: read_u16_le(data, 0),
                number_of_sections: read_u16_le(data, 2),
                time_date_stamp: read_u32_le(data, 4),
                symbol_table_pointer: read_u32_le(data, 8),
                number_of_symbols: read_u32_le(data, 12),
                optional_header_size: read_u16_le(data, 16),
                characteristics: read_u16_le(data, 18),
            },
        )
    }
    /// Parses optional header
    pub fn parse_optional_header(&self, data: &[u8]) -> (r: Result<OptionalHeader32, PeError>)
        requires
            data@.len() >= 96,
        ensures
            r == Ok::<OptionalHeader32, PeError>(spec_optional_header(data@)),
    {
        Ok(
            OptionalHeader32 {
                magic: read_u16_le(data, 0),
                linker_version: data[2],
                linker_revision: data[3],
                code_size: read_u32_le(data, 4),
                initialized_data_size: read_u32_le(data, 8),
                uninitialized_data_size: read_u32_le(data, 12),
                entry_point: read_u32_le(data, 16),
                code_base: read_u32_le(data, 20),
                data_base: read_u32_le(data, 24),
                image_base: read_u32_le(data, 28),
                section_alignment: read_u32_le(data, 32),
                file_alignment: read_u32_le(data, 36),
                os_version: read_u16_le(data, 40),
                os_major: read_u16_le(data, 42),
                user_version: read_u16_le(data, 44),
                user_major: read_u16_le(data, 46),
                subsystem_version: read_u16_le(data, 48),
                subsystem_major: read_u16_le(data, 50),
                win32_version: read_u32_le(data, 52),
                image_size: read_u32_le(data, 56),
                headers_size: read_u32_le(data, 60),
                checksum: read_u32_le(data, 64),
                subsystem: read_u16_le(data, 68),
                dll_characteristics: read_u16_le(data, 70),
                stack_reserve_size: read_u32_le(data, 72),
                stack_commit_size: read_u32_le(data, 76),
                heap_reserve_size: read_u32_le(data, 80),
                heap_commit_size: read_u32_le(data, 84),
                loader_flags: read_u32_le(data, 88),
                data_directories_count: read_u32_le(data, 92),
            },
        )
    }

    /// Parses section header
    pub fn parse_section_header(&self, data: &[u8]) -> (r: Result<SectionHeader, PeError>)
        requires
            data@.len() >= 40,
        ensures
            r matches Ok(h) && section_header_of(h, data@),
    {
        let name: [u8; 8] = [
            data[0],
            data[1],
            data[2],
            data[3],
            data[4],
            data[5],
            data[6],
            data[7],
        ];
        assert(name@ =~= data@.subrange(0, 8));
        Ok(
            SectionHeader {
                name,
                virtual_size: read_u32_le(data, 8),
                virtual_address: read_u32_le(data, 12),
                raw_data_size: read_u32_le(data, 16),
                raw_data_offset: read_u32_le(data, 20),
                relocations_offset: read_u32_le(data, 24),
                line_numbers_offset: read_u32_le(data, 28),
                relocations_count: read_u16_le(data, 32),
                line_numbers_count: read_u16_le(data, 34),
                characteristics: read_u32_le(data, 36),
            },
        )
    }

    /// Parses PE file structure
    pub fn parse_pe(&self, data: &[u8]) -> (r: Result<PEFile, PeError>)
        requires
            !optional_header_too_short(data@),
        ensures
            match pe_error(data@) {
                Some(e) => r == Err::<PEFile, PeError>(e),
                None => r matches Ok(pe) && parsed_pe(data@, pe),
            },
    {
        let ghost d = data@;
        let len: u64 = data.len() as u64;
        if len < 64 {
            return Err(PeError::FileTooSmall);
        }
        // Parse DOS header
        let dos_header = match self.parse_dos_header(data) {
            Ok(h) => h,
            Err(e) => return Err(e),
        };
        if dos_header.magic != PE_MAGIC {
            return Err(PeError::InvalidDosSignature);
        }
        // Check PE header offset
        let pe_offset: u64 = dos_header.pe_header_offset as u64;
        if pe_offset >= len {
            return Err(PeError::PeHeaderOffsetOutOfBounds);
        }
        if pe_offset + 4 > len {
            return Err(PeError::PeSignatureOutOfBounds);
        }
        // Parse PE signature
        let pe_signature = read_u32_le(data, pe_offset as usize);
        if pe_signature != PE_SIGNATURE {
            return Err(PeError::InvalidPeSignature);
        }
        // Parse COFF header
        let coff_offset: u64 = pe_offset + 4;
        if coff_offset + 20 > len {
            return Err(PeError::CoffHeaderOutOfBounds);
        }
        let coff_slice = &data[coff_offset as usize..(coff_offset + 20) as usize];
        let coff_header = match self.parse_coff_header(coff_slice) {
            Ok(h) => h,
            Err(e) => return Err(e),
        };
        assert(coff_header == file_coff_header(d));
        let opt_size: u64 = coff_header.optional_header_size as u64;
        let opt_offset: u64 = coff_offset + 20;
        // Parse optional header if present
        let optional_header = if opt_size > 0 {
            if opt_offset + opt_size > len {
                return Err(PeError::OptionalHeaderOutOfBounds);
            }
            let opt_slice = &data[opt_offset as usize..(opt_offset + opt_size) as usize];
            match self.parse_optional_header(opt_slice) {
                Ok(h) => Some(h),
                Err(e) => return Err(e),
            }
        } else {
            None
        };
        // Parse data directories
        let dir_offset: u64 = opt_offset + opt_size;
        let mut data_directories: Vec<DataDirectory> = Vec::new();
        if let Some(opt_header) = optional_header {
            let dir_count: u64 = opt_header.data_directories_count as u64;
            if dir_offset + dir_count * 8 > len {
                return Err(PeError::DataDirectoriesOutOfBounds);
            }
            let mut i: u64 = 0;
            while i < dir_count
                invariant
                    d == data@,
                    len == d.len(),
                    d.len() <= usize::MAX,
                    i <= dir_count,
                    dir_count == directory_count(d),
                    dir_offset == directory_offset(d),
                    dir_offset + dir_count * 8 <= len,
                    data_directories@ == Seq::new(
                        i as nat,
                        |j: int| spec_data_directory(d, directory_offset(d) + 8 * j),
                    ),
                decreases dir_count - i,
            {
                let dir_start: u64 = dir_offset + i * 8;
                assert(dir_start + 8 <= len) by (nonlinear_arith)
                    requires
                        i < dir_count,
                        dir_offset + dir_count * 8 <= len,
                        dir_start == dir_offset + i * 8,
                ;
                let virtual_address = read_u32_le(data, dir_start as usize);
                let size = read_u32_le(data, (dir_start + 4) as usize);
                data_directories.push(DataDirectory { virtual_address, size });
                i = i + 1;
                assert(data_directories@ =~= Seq::new(
                    i as nat,
                    |j: int| spec_data_directory(d, directory_offset(d) + 8 * j),
                ));
            }
        }
        assert(data_directories@ =~= Seq::new(
            directory_count(d) as nat,
            |j: int| spec_data_directory(d, directory_offset(d) + 8 * j),
        ));
        // Parse section headers
        let sec_offset: u64 = dir_offset + data_directories.len() as u64 * 8;
        let sec_count: u64 = coff_header.number_of_sections as u64;
        if sec_offset + sec_count * 40 > len {
            return Err(PeError::SectionHeadersOutOfBounds);
        }
        let mut sections: Vec<SectionHeader> = Vec::new();
        let mut i: u64 = 0;
        while i < sec_count
            invariant
                d == data@,
                len == d.len(),
                d.len() <= usize::MAX,
                i <= sec_count,
                sec_count == section_count(d),
                sec_offset == sections_offset(d),
                sec_offset + sec_count * 40 <= len,
                sections@.len() == i,
                forall|j: int|
                    0 <= j < i ==> #[trigger] section_header_of(
                        sections@[j],
                        d.subrange(sections_offset(d) + 40 * j, sections_offset(d) + 40 * j + 40),
                    ),
            decreases sec_count - i,
        {
            let section_offset: u64 = sec_offset + i * 40;
            assert(section_offset + 40 <= len) by (nonlinear_arith)
                requires
                    i < sec_count,
                    sec_offset + sec_count * 40 <= len,
                    section_offset == sec_offset + i * 40,
            ;
            let section = match self.parse_section_header(
                &data[section_offset as usize..(section_offset + 40) as usize],
            ) {
                Ok(s) => s,
                Err(e) => return Err(e),
            };
            sections.push(section);
            i = i + 1;
        }
        let raw_data = slice_to_vec(data);
        Ok(
            PEFile {
                dos_header,
                coff_header,
                optional_header,
                data_directories,
                sections,
                raw_data,
            },
        )
    }
    /// Allocates memory for the PE image: at its preferred base where that
    /// is free, otherwise wherever there is room.
    fn allocate_image_memory(&self, pe_file: &PEFile, memory: &mut MemoryManager) -> (r: Result<
        u32,
        PeError,
    >)
        requires
            pe_file.optional_header is Some,
            old(memory).wf(),
        ensures
            final(memory).wf(),
            image_allocated(old(memory), final(memory), pe_file.optional_header.unwrap(), r),
    {
        let opt_header = match &pe_file.optional_header {
            Some(h) => h,
            None => return Err(PeError::AddressOverflow),
        };
        let image_size = opt_header.image_size;
        let preferred_base = opt_header.image_base;
        match memory.allocate_at(preferred_base, image_size, MemoryProtection::read_write()) {
            Ok(_) => return Ok(preferred_base),
            Err(_) => {},
        }
        match memory.allocate(image_size, MemoryProtection::read_write()) {
            Ok(base_address) => Ok(base_address),
            Err(e) => Err(PeError::Memory(e)),
        }
    }

    /// Converts section characteristics to memory protection
    fn section_characteristics_to_protection(&self, characteristics: u32) -> (r: MemoryProtection)
        ensures
            r == section_protection(characteristics),
    {
        let is_code = characteristics & 0x20 != 0;  // IMAGE_SCN_CNT_CODE
        let is_writable = characteristics & 0x8000_0000 != 0;  // IMAGE_SCN_MEM_WRITE
        let is_executable = characteristics & 0x2000_0000 != 0;  // IMAGE_SCN_MEM_EXECUTE
        match (is_code, is_writable, is_executable) {
            (true, false, true) => MemoryProtection::execute_read(),
            (true, true, true) => MemoryProtection::execute_read_write(),
            (false, true, false) => MemoryProtection::read_write(),
            (false, false, false) => MemoryProtection::read_only(),
            _ => MemoryProtection::read_write(),
        }
    }

    /// Reads a null-terminated string from memory
    fn read_null_terminated_string(&self, address: u32, memory: &MemoryManager) -> (r: Result<
        Vec<u8>,
        PeError,
    >)
        requires
            memory.wf(),
        ensures
            match r {
                Ok(s) => c_string_at(memory, address as int, s@),
                Err(e) => exists|k: int|
                    c_string_fails_at(memory, address as int, k) && e == PeError::Memory(
                        memory.read_error_at(address + k),
                    ),
            },
    {
        let mut string: Vec<u8> = Vec::new();
        let mut current_address: u64 = address as u64;
        loop
            invariant
                memory.wf(),
                current_address == address + string@.len(),
                current_address <= 0x1_0000_0000u64,
                forall|j: int|
                    0 <= j < string@.len() ==> #[trigger] memory.spec_read_u8(address + j)
                        == Ok::<u8, MemoryError>(string@[j]) && string@[j] != 0,
            decreases 0x1_0000_0000u64 - current_address,
        {
            if current_address >= 0x1_0000_0000u64 {
                assert(c_string_fails_at(memory, address as int, string@.len() as int));
                return Err(PeError::Memory(MemoryError::InvalidPageAddress));
            }
            let byte = match memory.read_u8(current_address as u32) {
                Ok(b) => b,
                Err(e) => {
                    assert(c_string_fails_at(memory, address as int, string@.len() as int));
                    return Err(PeError::Memory(e));
                },
            };
            if byte == 0 {
                return Ok(string);
            }
            string.push(byte);
            current_address = current_address + 1;
        }
    }

    /// Resolves import function address
    fn resolve_import_function(&self, dll_name: &[u8], function_name: &[u8]) -> (r: Result<
        u32,
        PeError,
    >)
        ensures
            r == Ok::<u32, PeError>(known_import(dll_name@, function_name@)),
    {
        let kernel32 = same_bytes(dll_name, "kernel32.dll".as_bytes());
        let user32 = same_bytes(dll_name, "user32.dll".as_bytes());
        if kernel32 && same_bytes(function_name, "GetLastError".as_bytes()) {
            Ok(0x7c801d7a)
        } else if kernel32 && same_bytes(function_name, "GetCurrentProcess".as_bytes()) {
            Ok(0x7c8020ba)
        } else if kernel32 && same_bytes(function_name, "VirtualAlloc".as_bytes()) {
            Ok(0x7c809a90)
        } else if kernel32 && same_bytes(function_name, "VirtualFree".as_bytes()) {
            Ok(0x7c809c4c)
        } else if kernel32 && same_bytes(function_name, "ExitProcess".as_bytes()) {
            Ok(0x7c81caa2)
        } else if user32 && same_bytes(function_name, "MessageBoxA".as_bytes()) {
            Ok(0x77d5050b)
        } else if user32 && same_bytes(function_name, "GetWindowTextA".as_bytes()) {
            Ok(0x77d4c6e0)
        } else {
            // Placeholder address for imports that are not known
            Ok(0xDEADBEEF)
        }
    }
    /// Loads one section: sets the protection of its pages, copies its raw
    /// data and zero-fills the rest of its virtual size.
    fn load_section(
        &self,
        section: &SectionHeader,
        raw_data: &[u8],
        image_base: u32,
        memory: &mut MemoryManager,
    ) -> (r: Result<(), PeError>)
        requires
            old(memory).wf(),
        ensures
            final(memory).wf(),
            layout_kept(final(memory), old(memory)),
            image_base + section.virtual_address > u32::MAX ==> r == Err::<(), PeError>(
                PeError::AddressOverflow,
            ),
            r is Ok ==> section_loaded(final(memory), *section, raw_data@, image_base),
            r is Ok ==> bytes_kept_outside(
                final(memory),
                old(memory),
                image_base + section.virtual_address,
                image_base + section.virtual_address + section_span(*section),
            ),
            section_load_outcome(old(memory), final(memory), *section, raw_data@, image_base, r),
    {
        let section_va = match image_base.checked_add(section.virtual_address) {
            Some(v) => v,
            None => return Err(PeError::AddressOverflow),
        };
        let section_size = if section.virtual_size > section.raw_data_size {
            section.virtual_size
        } else {
            section.raw_data_size
        };
        // Determine and set the memory protection
        let protection = self.section_characteristics_to_protection(section.characteristics);
        let _ = memory.protect(section_va, section_size, protection);
        let ghost m1 = *memory;
        // Copy raw data if present
        let rds = section.raw_data_size;
        let copies = rds > 0 && section.raw_data_offset > 0 && section.raw_data_offset as u64
            + rds as u64 <= raw_data.len() as u64;
        proof {
            lemma_same_dom_range(old(memory), &m1, section_va as int, rds as int);
        }
        if copies {
            let raw_start = section.raw_data_offset as usize;
            let raw_end = raw_start + rds as usize;
            let res = memory.write_bytes(section_va, &raw_data[raw_start..raw_end]);
            proof {
                assert(raw_data@.subrange(raw_start as int, raw_end as int) == section_raw(
                    *section,
                    raw_data@,
                ));
                assert(raw_copied(&m1, memory, *section, raw_data@, section_va as int));
            }
            match res {
                Ok(()) => {},
                Err(e) => {
                    assert(section_load_outcome(
                        old(memory),
                        memory,
                        *section,
                        raw_data@,
                        image_base,
                        Err::<(), PeError>(PeError::Memory(e)),
                    ));
                    return Err(PeError::Memory(e));
                },
            }
        }
        let ghost m2 = *memory;
        assert(raw_copied(&m1, &m2, *section, raw_data@, section_va as int));
        assert(copies ==> forall|i: int|
            0 <= i < rds ==> #[trigger] m2.holds(section_va + i, raw_data@[section.raw_data_offset + i]))
            by {
            if copies {
                assert forall|i: int| 0 <= i < rds implies #[trigger] m2.holds(
                    section_va + i,
                    raw_data@[section.raw_data_offset + i],
                ) by {
                    assert(m1.is_mapped(section_va + i));
                }
            }
        }
        // Zero-fill the rest of the virtual size
        if section.virtual_size > rds {
            let fill_start = match section_va.checked_add(rds) {
                Some(v) => v,
                None => {
                    assert(section_load_outcome(
                        old(memory),
                        memory,
                        *section,
                        raw_data@,
                        image_base,
                        Err::<(), PeError>(PeError::AddressOverflow),
                    ));
                    return Err(PeError::AddressOverflow);
                },
            };
            let fill_size = section.virtual_size - rds;
            let mut fill_data: Vec<u8> = Vec::new();
            let mut k: u32 = 0;
            while k < fill_size
                invariant
                    k <= fill_size,
                    fill_data@ == Seq::new(k as nat, |i: int| 0u8),
                decreases fill_size - k,
            {
                fill_data.push(0);
                k = k + 1;
                assert(fill_data@ =~= Seq::new(k as nat, |i: int| 0u8));
            }
            proof {
                assert(fill_data@ == zeros(fill_size as int));
                lemma_same_dom_range(old(memory), &m2, fill_start as int, fill_size as int);
            }
            match memory.write_bytes(fill_start, fill_data.as_slice()) {
                Ok(()) => {},
                Err(e) => {
                    assert(section_load_outcome(
                        old(memory),
                        memory,
                        *section,
                        raw_data@,
                        image_base,
                        Err::<(), PeError>(PeError::Memory(e)),
                    ));
                    return Err(PeError::Memory(e));
                },
            }
            assert forall|i: int|
                rds <= i < section.virtual_size implies #[trigger] memory.holds(section_va + i, 0) by {
                let j = i - rds;
                assert(fill_start + j == section_va + i);
                assert(m2.is_mapped(fill_start + j));
                assert(memory.is_mapped(fill_start + j));
                assert(memory.byte_at(fill_start + j) == fill_data@[j]);
            }
            assert(copies ==> forall|i: int|
                0 <= i < rds ==> #[trigger] memory.holds(
                    section_va + i,
                    raw_data@[section.raw_data_offset + i],
                )) by {
                if copies {
                    assert forall|i: int| 0 <= i < rds implies #[trigger] memory.holds(
                        section_va + i,
                        raw_data@[section.raw_data_offset + i],
                    ) by {
                        assert(m2.holds(section_va + i, raw_data@[section.raw_data_offset + i]));
                    }
                }
            }
            assert(section_load_outcome(
                old(memory),
                memory,
                *section,
                raw_data@,
                image_base,
                Ok::<(), PeError>(()),
            ));
        } else {
            assert(section_load_outcome(
                old(memory),
                memory,
                *section,
                raw_data@,
                image_base,
                Ok::<(), PeError>(()),
            ));
        }
        Ok(())
    }

    /// Loads sections into memory
    fn load_sections(&self, pe_file: &PEFile, image_base: u32, memory: &mut MemoryManager) -> (r:
        Result<(), PeError>)
        requires
            old(memory).wf(),
        ensures
            final(memory).wf(),
            layout_kept(final(memory), old(memory)),
            r is Ok ==> forall|j: int|
                0 <= j < pe_file.sections@.len() && (forall|k: int|
                    j < k < pe_file.sections@.len() ==> sections_apart(
                        pe_file.sections@[j],
                        #[trigger] pe_file.sections@[k],
                    )) ==> section_loaded(
                    final(memory),
                    #[trigger] pe_file.sections@[j],
                    pe_file.raw_data@,
                    image_base,
                ),
            sections_load_outcome(
                old(memory),
                final(memory),
                pe_file.sections@,
                0,
                pe_file.raw_data@,
                image_base,
                r,
            ),
    {
        let ghost secs = pe_file.sections@;
        let ghost raw = pe_file.raw_data@;
        let mut i: usize = 0;
        while i < pe_file.sections.len()
            invariant
                secs == pe_file.sections@,
                raw == pe_file.raw_data@,
                0 <= i <= secs.len(),
                memory.wf(),
                layout_kept(memory, old(memory)),
                forall|j: int|
                    0 <= j < i && (forall|k: int|
                        j < k < i ==> sections_apart(secs[j], #[trigger] secs[k]))
                        ==> section_loaded(memory, #[trigger] secs[j], raw, image_base),
                forall|m_end: MemoryManager, rr: Result<(), PeError>|
                    #[trigger] sections_load_outcome(memory, &m_end, secs, i as int, raw, image_base, rr)
                        ==> sections_load_outcome(old(memory), &m_end, secs, 0, raw, image_base, rr),
            decreases secs.len() - i,
        {
            let ghost pre = *memory;
            let res = self.load_section(&pe_file.sections[i], pe_file.raw_data.as_slice(), image_base, memory);
            match res {
                Ok(()) => {},
                Err(e) => {
                    assert(section_load_outcome(&pre, memory, secs[i as int], raw, image_base, res));
                    assert(sections_load_outcome(&pre, memory, secs, i as int, raw, image_base, res));
                    return Err(e);
                },
            }
            proof {
                assert forall|m_end: MemoryManager, rr: Result<(), PeError>|
                    #[trigger] sections_load_outcome(memory, &m_end, secs, i + 1, raw, image_base, rr)
                    implies sections_load_outcome(old(memory), &m_end, secs, 0, raw, image_base, rr) by {
                    assert(section_load_outcome(&pre, memory, secs[i as int], raw, image_base, res));
                    assert(sections_load_outcome(&pre, &m_end, secs, i as int, raw, image_base, rr));
                }
            }
            proof {
                let si = secs[i as int];
                let lo = image_base + si.virtual_address;
                let hi = image_base + si.virtual_address + section_span(si);
                assert forall|j: int|
                    0 <= j < i + 1 && (forall|k: int|
                        j < k < i + 1 ==> sections_apart(secs[j], #[trigger] secs[k]))
                        implies section_loaded(memory, #[trigger] secs[j], raw, image_base) by {
                    if j < i {
                        assert(sections_apart(secs[j], secs[i as int]));
                        assert(forall|k: int| j < k < i ==> sections_apart(secs[j], #[trigger] secs[k]));
                        assert(section_loaded(&pre, secs[j], raw, image_base));
                        lemma_section_kept(&pre, memory, secs[j], raw, image_base, lo, hi);
                    }
                }
            }
            i = i + 1;
        }
        assert(sections_load_outcome(memory, memory, secs, i as int, raw, image_base, Ok::<(), PeError>(())));
        Ok(())
    }

    /// Resolves one entry of an import address table.
    fn resolve_iat_entry(
        &self,
        dll_name: &[u8],
        entry_va: u32,
        entry_value: u32,
        image_base: u32,
        memory: &mut MemoryManager,
    ) -> (r: Result<(), PeError>)
        requires
            old(memory).wf(),
        ensures
            final(memory).wf(),
            final(memory).same_layout(old(memory)),
            import_entry_resolved(
                old(memory),
                final(memory),
                dll_name@,
                entry_va,
                entry_value,
                image_base,
                r,
            ),
    {
        if entry_value & 0x8000_0000 != 0 {
            assert(entry_value >= 0x8000_0000) by (bit_vector)
                requires
                    entry_value & 0x8000_0000 != 0,
            ;
            // Ordinal imports are not resolved
            return Ok(());
        }
        assert(entry_value < 0x8000_0000) by (bit_vector)
            requires
                entry_value & 0x8000_0000 == 0,
        ;
        let hint_name_va = match image_base.checked_add(entry_value) {
            Some(v) => v,
            None => return Err(PeError::AddressOverflow),
        };
        let name_va = match hint_name_va.checked_add(2) {
            Some(v) => v,
            None => return Err(PeError::AddressOverflow),
        };
        match memory.read_u16(hint_name_va) {
            Ok(_) => {},
            Err(e) => return Err(PeError::Memory(e)),
        }
        let function_name = match self.read_null_terminated_string(name_va, memory) {
            Ok(n) => n,
            Err(e) => return Err(e),
        };
        let function_address = match self.resolve_import_function(dll_name, function_name.as_slice()) {
            Ok(a) => a,
            Err(e) => return Err(e),
        };
        let ghost pre = *memory;
        let res = memory.write_u32(entry_va, function_address);
        proof {
            lemma_write_keeps_layout(memory, &pre, entry_va as int, le_u32_bytes(function_address), res);
            assert(c_string_at(old(memory), hint_name_va + 2, function_name@));
        }
        match res {
            Ok(()) => {
                assert(memory.write_outcome(
                    &pre,
                    entry_va as int,
                    le_u32_bytes(function_address),
                    store_result(Ok::<(), PeError>(())),
                ));
                Ok(())
            },
            Err(e) => {
                assert(memory.write_outcome(
                    &pre,
                    entry_va as int,
                    le_u32_bytes(function_address),
                    store_result(Err::<(), PeError>(PeError::Memory(e))),
                ));
                Err(PeError::Memory(e))
            },
        }
    }

    /// Processes imports from a single DLL
    fn process_single_import(
        &self,
        dll_name: &[u8],
        iat_rva: u32,
        image_base: u32,
        memory: &mut MemoryManager,
    ) -> (r: Result<(), PeError>)
        requires
            old(memory).wf(),
        ensures
            final(memory).wf(),
            final(memory).same_layout(old(memory)),
            single_import_processed(old(memory), final(memory), dll_name@, iat_rva, image_base, r),
    {
        let iat_va = match image_base.checked_add(iat_rva) {
            Some(v) => v,
            None => return Err(PeError::AddressOverflow),
        };
        let mut current_entry_va: u32 = iat_va;
        loop
            invariant
                memory.wf(),
                memory.same_layout(old(memory)),
                iat_va == image_base + iat_rva,
                forall|m_end: MemoryManager, rr: Result<(), PeError>|
                    #[trigger] iat_entries_resolved(
                        memory,
                        &m_end,
                        dll_name@,
                        current_entry_va,
                        image_base,
                        rr,
                    ) ==> iat_entries_resolved(old(memory), &m_end, dll_name@, iat_va, image_base, rr),
            decreases u32::MAX - current_entry_va,
        {
            let ghost pre = *memory;
            let entry_value = match memory.read_u32(current_entry_va) {
                Ok(v) => v,
                Err(e) => {
                    assert(iat_entries_resolved(
                        &pre,
                        &pre,
                        dll_name@,
                        current_entry_va,
                        image_base,
                        Err::<(), PeError>(PeError::Memory(e)),
                    ));
                    return Err(PeError::Memory(e));
                },
            };
            // End of table
            if entry_value == 0 {
                assert(iat_entries_resolved(
                    &pre,
                    &pre,
                    dll_name@,
                    current_entry_va,
                    image_base,
                    Ok::<(), PeError>(()),
                ));
                return Ok(());
            }
            let res = self.resolve_iat_entry(dll_name, current_entry_va, entry_value, image_base, memory);
            proof {
                lemma_same_layout_trans(old(memory), &pre, memory);
            }
            match res {
                Ok(()) => {},
                Err(e) => {
                    assert(import_entry_resolved(
                        &pre,
                        memory,
                        dll_name@,
                        current_entry_va,
                        entry_value,
                        image_base,
                        res,
                    ));
                    assert(iat_entries_resolved(
                        &pre,
                        memory,
                        dll_name@,
                        current_entry_va,
                        image_base,
                        res,
                    ));
                    return Err(e);
                },
            }
            let next_entry_va = match current_entry_va.checked_add(4) {
                Some(v) => v,
                None => {
                    assert(iat_entries_resolved(
                        &pre,
                        memory,
                        dll_name@,
                        current_entry_va,
                        image_base,
                        Err::<(), PeError>(PeError::AddressOverflow),
                    ));
                    return Err(PeError::AddressOverflow);
                },
            };
            proof {
                assert forall|m_end: MemoryManager, rr: Result<(), PeError>|
                    #[trigger] iat_entries_resolved(
                        memory,
                        &m_end,
                        dll_name@,
                        next_entry_va,
                        image_base,
                        rr,
                    ) implies iat_entries_resolved(
                        old(memory),
                        &m_end,
                        dll_name@,
                        iat_va,
                        image_base,
                        rr,
                    ) by {
                    assert(import_entry_resolved(
                        &pre,
                        memory,
                        dll_name@,
                        current_entry_va,
                        entry_value,
                        image_base,
                        res,
                    ));
                    assert(iat_entries_resolved(
                        &pre,
                        &m_end,
                        dll_name@,
                        current_entry_va,
                        image_base,
                        rr,
                    ));
                }
            }
            current_entry_va = next_entry_va;
        }
    }

    /// Processes import table
    fn process_imports(&self, pe_file: &PEFile, image_base: u32, memory: &mut MemoryManager) -> (r:
        Result<(), PeError>)
        requires
            old(memory).wf(),
            pe_file.optional_header is Some,
            pe_file.data_directories@.len() == pe_file.optional_header.unwrap().data_directories_count,
        ensures
            final(memory).wf(),
            final(memory).same_layout(old(memory)),
            imports_processed(pe_file, image_base, old(memory), final(memory), r),
    {
        let count = match &pe_file.optional_header {
            Some(h) => h.data_directories_count,
            None => 0,
        };
        // Find import directory
        if count < 2 {
            return Ok(());
        }
        let import_dir = pe_file.data_directories[1];
        if import_dir.virtual_address == 0 || import_dir.size == 0 {
            return Ok(());
        }
        let import_table_va = match image_base.checked_add(import_dir.virtual_address) {
            Some(v) => v,
            None => return Err(PeError::AddressOverflow),
        };
        let mut current_entry_va: u32 = import_table_va;
        loop
            invariant
                memory.wf(),
                memory.same_layout(old(memory)),
                count >= 2,
                count == pe_file.optional_header.unwrap().data_directories_count,
                import_dir == pe_file.data_directories@[1],
                import_dir.virtual_address != 0 && import_dir.size != 0,
                import_table_va == image_base + import_dir.virtual_address,
                forall|m_end: MemoryManager, rr: Result<(), PeError>|
                    #[trigger] import_directory_walked(
                        memory,
                        &m_end,
                        current_entry_va,
                        image_base,
                        rr,
                    ) ==> import_directory_walked(old(memory), &m_end, import_table_va, image_base, rr),
            decreases u32::MAX - current_entry_va,
        {
            let ghost pre = *memory;
            // Read import directory entry
            let entry_data = match memory.read_bytes(current_entry_va, 20) {
                Ok(d) => d,
                Err(e) => {
                    assert(import_directory_walked(
                        &pre,
                        &pre,
                        current_entry_va,
                        image_base,
                        Err::<(), PeError>(PeError::Memory(e)),
                    ));
                    return Err(PeError::Memory(e));
                },
            };
            let entry = ImportDirectoryEntry {
                import_lookup_table: read_u32_le(entry_data.as_slice(), 0),
                time_date_stamp: read_u32_le(entry_data.as_slice(), 4),
                forwarder_chain: read_u32_le(entry_data.as_slice(), 8),
                dll_name_rva: read_u32_le(entry_data.as_slice(), 12),
                import_address_table: read_u32_le(entry_data.as_slice(), 16),
            };
            // Check for end of table
            if entry.import_lookup_table == 0 && entry.time_date_stamp == 0
                && entry.forwarder_chain == 0 && entry.dll_name_rva == 0
                && entry.import_address_table == 0 {
                assert(import_directory_walked(
                    &pre,
                    &pre,
                    current_entry_va,
                    image_base,
                    Ok::<(), PeError>(()),
                ));
                return Ok(());
            }
            // Read DLL name
            let dll_name_va = match image_base.checked_add(entry.dll_name_rva) {
                Some(v) => v,
                None => {
                    assert(import_directory_walked(
                        &pre,
                        &pre,
                        current_entry_va,
                        image_base,
                        Err::<(), PeError>(PeError::AddressOverflow),
                    ));
                    return Err(PeError::AddressOverflow);
                },
            };
            let dll_name = match self.read_null_terminated_string(dll_name_va, memory) {
                Ok(n) => n,
                Err(e) => {
                    assert(import_directory_walked(&pre, &pre, current_entry_va, image_base, Err::<(), PeError>(e)));
                    return Err(e);
                },
            };
            proof {
                if exists|k: int| #[trigger] c_string_fails_at(&pre, dll_name_va as int, k) {
                    let k = choose|k: int| #[trigger] c_string_fails_at(&pre, dll_name_va as int, k);
                    lemma_c_string_exclusive(&pre, dll_name_va as int, dll_name@, k);
                }
            }
            // Process this import
            let res = self.process_single_import(
                dll_name.as_slice(),
                entry.import_address_table,
                image_base,
                memory,
            );
            proof {
                lemma_same_layout_trans(old(memory), &pre, memory);
            }
            match res {
                Ok(()) => {},
                Err(e) => {
                    assert(single_import_processed(
                        &pre,
                        memory,
                        dll_name@,
                        entry.import_address_table,
                        image_base,
                        res,
                    ));
                    assert(import_directory_walked(&pre, memory, current_entry_va, image_base, res));
                    return Err(e);
                },
            }
            let next_entry_va = match current_entry_va.checked_add(20) {
                Some(v) => v,
                None => {
                    assert(single_import_processed(
                        &pre,
                        memory,
                        dll_name@,
                        entry.import_address_table,
                        image_base,
                        res,
                    ));
                    assert(import_directory_walked(
                        &pre,
                        memory,
                        current_entry_va,
                        image_base,
                        Err::<(), PeError>(PeError::AddressOverflow),
                    ));
                    return Err(PeError::AddressOverflow);
                },
            };
            proof {
                assert forall|m_end: MemoryManager, rr: Result<(), PeError>|
                    #[trigger] import_directory_walked(memory, &m_end, next_entry_va, image_base, rr)
                    implies import_directory_walked(
                        old(memory),
                        &m_end,
                        import_table_va,
                        image_base,
                        rr,
                    ) by {
                    assert(single_import_processed(
                        &pre,
                        memory,
                        dll_name@,
                        entry.import_address_table,
                        image_base,
                        res,
                    ));
                    assert(import_directory_walked(&pre, &m_end, current_entry_va, image_base, rr));
                }
            }
            current_entry_va = next_entry_va;
        }
    }

    /// Applies one relocation entry of the block for page `page_rva`.
    fn apply_relocation(
        &self,
        entry: u16,
        page_rva: u32,
        image_base: u32,
        delta: u32,
        memory: &mut MemoryManager,
    ) -> (r: Result<(), PeError>)
        requires
            old(memory).wf(),
        ensures
            final(memory).wf(),
            final(memory).same_layout(old(memory)),
            relocation_applied(old(memory), final(memory), entry, page_rva, image_base, delta, r),
    {
        let reloc_type = entry >> 12;
        let offset = entry & 0xFFF;
        assert(reloc_type == entry / 4096 && offset == entry % 4096) by (bit_vector)
            requires
                reloc_type == entry >> 12,
                offset == entry & 0xFFF,
        ;
        if reloc_type == 0 {
            // Absolute relocation, ignored
            return Ok(());
        }
        let target_va = match image_base.checked_add(page_rva) {
            Some(v) => match v.checked_add(offset as u32) {
                Some(t) => t,
                None => return Err(PeError::AddressOverflow),
            },
            None => return Err(PeError::AddressOverflow),
        };
        if reloc_type == 3 {
            // IMAGE_REL_BASED_HIGHLOW
            let current_value = match memory.read_u32(target_va) {
                Ok(v) => v,
                Err(e) => return Err(PeError::Memory(e)),
            };
            let relocated = current_value.wrapping_add(delta);
            let ghost pre = *memory;
            let res = memory.write_u32(target_va, relocated);
            proof {
                lemma_write_keeps_layout(memory, &pre, target_va as int, le_u32_bytes(relocated), res);
            }
            match res {
                Ok(()) => Ok(()),
                Err(e) => Err(PeError::Memory(e)),
            }
        } else {
            // Other types (DIR64 among them) are not applied in a 32-bit image
            Ok(())
        }
    }

    /// Applies the `entry_count` relocation entries that start at
    /// `entries_start`, in the block for page `page_rva`.
    fn apply_relocation_block(
        &self,
        entries_start: u32,
        entry_count: u32,
        page_rva: u32,
        image_base: u32,
        delta: u32,
        memory: &mut MemoryManager,
    ) -> (r: Result<(), PeError>)
        requires
            old(memory).wf(),
            entry_count <= 0x7FFF_FFFF,
        ensures
            final(memory).wf(),
            final(memory).same_layout(old(memory)),
            relocation_entries_applied(
                old(memory),
                final(memory),
                entries_start,
                0,
                entry_count as int,
                page_rva,
                image_base,
                delta,
                r,
            ),
    {
        let mut i: u32 = 0;
        while i < entry_count
            invariant
                memory.wf(),
                memory.same_layout(old(memory)),
                i <= entry_count,
                entry_count <= 0x7FFF_FFFF,
                forall|m_end: MemoryManager, rr: Result<(), PeError>|
                    #[trigger] relocation_entries_applied(
                        memory,
                        &m_end,
                        entries_start,
                        i as int,
                        entry_count as int,
                        page_rva,
                        image_base,
                        delta,
                        rr,
                    ) ==> relocation_entries_applied(
                        old(memory),
                        &m_end,
                        entries_start,
                        0,
                        entry_count as int,
                        page_rva,
                        image_base,
                        delta,
                        rr,
                    ),
            decreases entry_count - i,
        {
            let ghost pre = *memory;
            let entry_va = match entries_start.checked_add(i * 2) {
                Some(v) => v,
                None => {
                    assert(relocation_entries_applied(
                        &pre,
                        &pre,
                        entries_start,
                        i as int,
                        entry_count as int,
                        page_rva,
                        image_base,
                        delta,
                        Err::<(), PeError>(PeError::AddressOverflow),
                    ));
                    return Err(PeError::AddressOverflow);
                },
            };
            let entry_data = match memory.read_u16(entry_va) {
                Ok(v) => v,
                Err(e) => {
                    assert(relocation_entries_applied(
                        &pre,
                        &pre,
                        entries_start,
                        i as int,
                        entry_count as int,
                        page_rva,
                        image_base,
                        delta,
                        Err::<(), PeError>(PeError::Memory(e)),
                    ));
                    return Err(PeError::Memory(e));
                },
            };
            let res = self.apply_relocation(entry_data, page_rva, image_base, delta, memory);
            proof {
                lemma_same_layout_trans(old(memory), &pre, memory);
            }
            match res {
                Ok(()) => {},
                Err(e) => {
                    assert(relocation_applied(&pre, memory, entry_data, page_rva, image_base, delta, res));
                    assert(relocation_entries_applied(
                        &pre,
                        memory,
                        entries_start,
                        i as int,
                        entry_count as int,
                        page_rva,
                        image_base,
                        delta,
                        res,
                    ));
                    return Err(e);
                },
            }
            proof {
                assert forall|m_end: MemoryManager, rr: Result<(), PeError>|
                    #[trigger] relocation_entries_applied(
                        memory,
                        &m_end,
                        entries_start,
                        i + 1,
                        entry_count as int,
                        page_rva,
                        image_base,
                        delta,
                        rr,
                    ) implies relocation_entries_applied(
                        old(memory),
                        &m_end,
                        entries_start,
                        0,
                        entry_count as int,
                        page_rva,
                        image_base,
                        delta,
                        rr,
                    ) by {
                    assert(relocation_applied(&pre, memory, entry_data, page_rva, image_base, delta, res));
                    assert(relocation_entries_applied(
                        &pre,
                        &m_end,
                        entries_start,
                        i as int,
                        entry_count as int,
                        page_rva,
                        image_base,
                        delta,
                        rr,
                    ));
                }
            }
            i = i + 1;
        }
        assert(relocation_entries_applied(
            memory,
            memory,
            entries_start,
            i as int,
            entry_count as int,
            page_rva,
            image_base,
            delta,
            Ok::<(), PeError>(()),
        ));
        Ok(())
    }

    /// Processes base relocations when the image was not placed at its
    /// preferred base.
    fn process_relocations(&self, pe_file: &PEFile, image_base: u32, memory: &mut MemoryManager) -> (r:
        Result<(), PeError>)
        requires
            old(memory).wf(),
            pe_file.optional_header is Some,
            pe_file.data_directories@.len() == pe_file.optional_header.unwrap().data_directories_count,
        ensures
            final(memory).wf(),
            final(memory).same_layout(old(memory)),
            relocations_processed(pe_file, image_base, old(memory), final(memory), r),
    {
        let (count, preferred_base) = match &pe_file.optional_header {
            Some(h) => (h.data_directories_count, h.image_base),
            None => (0, 0),
        };
        // Find relocation directory
        if count < 6 {
            return Ok(());
        }
        let reloc_dir = pe_file.data_directories[5];
        if reloc_dir.virtual_address == 0 || reloc_dir.size == 0 {
            return Ok(());
        }
        let delta = image_base.wrapping_sub(preferred_base);
        if delta == 0 {
            return Ok(());
        }
        let reloc_table_va = match image_base.checked_add(reloc_dir.virtual_address) {
            Some(v) => v,
            None => return Err(PeError::AddressOverflow),
        };
        let block_end_va = match reloc_table_va.checked_add(reloc_dir.size) {
            Some(v) => v,
            None => return Err(PeError::AddressOverflow),
        };
        let mut current_block_va: u32 = reloc_table_va;
        assert(image_base != preferred_base);
        while current_block_va < block_end_va
            invariant
                memory.wf(),
                memory.same_layout(old(memory)),
                count >= 6,
                count == pe_file.optional_header.unwrap().data_directories_count,
                preferred_base == pe_file.optional_header.unwrap().image_base,
                image_base != preferred_base,
                delta == wrapping_sub(image_base, preferred_base),
                reloc_dir == pe_file.data_directories@[5],
                reloc_dir.virtual_address != 0 && reloc_dir.size != 0,
                reloc_table_va == image_base + reloc_dir.virtual_address,
                block_end_va == reloc_table_va + reloc_dir.size,
                forall|m_end: MemoryManager, rr: Result<(), PeError>|
                    #[trigger] relocation_blocks_applied(
                        memory,
                        &m_end,
                        current_block_va,
                        block_end_va,
                        image_base,
                        delta,
                        rr,
                    ) ==> relocation_blocks_applied(
                        old(memory),
                        &m_end,
                        reloc_table_va,
                        block_end_va,
                        image_base,
                        delta,
                        rr,
                    ),
            decreases u32::MAX - current_block_va,
        {
            let ghost pre = *memory;
            // Read relocation block header
            let block_data = match memory.read_bytes(current_block_va, 8) {
                Ok(d) => d,
                Err(e) => {
                    assert(relocation_blocks_applied(
                        &pre,
                        &pre,
                        current_block_va,
                        block_end_va,
                        image_base,
                        delta,
                        Err::<(), PeError>(PeError::Memory(e)),
                    ));
                    return Err(PeError::Memory(e));
                },
            };
            let page_rva = read_u32_le(block_data.as_slice(), 0);
            let block_size = read_u32_le(block_data.as_slice(), 4);
            if block_size < 8 {
                // Invalid block size ends the table
                assert(relocation_blocks_applied(
                    &pre,
                    &pre,
                    current_block_va,
                    block_end_va,
                    image_base,
                    delta,
                    Ok::<(), PeError>(()),
                ));
                return Ok(());
            }
            let entry_count = (block_size - 8) / 2;
            let entries_start = match current_block_va.checked_add(8) {
                Some(v) => v,
                None => {
                    assert(relocation_blocks_applied(
                        &pre,
                        &pre,
                        current_block_va,
                        block_end_va,
                        image_base,
                        delta,
                        Err::<(), PeError>(PeError::AddressOverflow),
                    ));
                    return Err(PeError::AddressOverflow);
                },
            };
            let res = self.apply_relocation_block(
                entries_start,
                entry_count,
                page_rva,
                image_base,
                delta,
                memory,
            );
            proof {
                lemma_same_layout_trans(old(memory), &pre, memory);
            }
            match res {
                Ok(()) => {},
                Err(e) => {
                    assert(relocation_blocks_applied(
                        &pre,
                        memory,
                        current_block_va,
                        block_end_va,
                        image_base,
                        delta,
                        res,
                    ));
                    return Err(e);
                },
            }
            let next_block_va = match current_block_va.checked_add(block_size) {
                Some(v) => v,
                None => {
                    assert(relocation_blocks_applied(
                        &pre,
                        memory,
                        current_block_va,
                        block_end_va,
                        image_base,
                        delta,
                        Err::<(), PeError>(PeError::AddressOverflow),
                    ));
                    return Err(PeError::AddressOverflow);
                },
            };
            proof {
                assert forall|m_end: MemoryManager, rr: Result<(), PeError>|
                    #[trigger] relocation_blocks_applied(
                        memory,
                        &m_end,
                        next_block_va,
                        block_end_va,
                        image_base,
                        delta,
                        rr,
                    ) implies relocation_blocks_applied(
                        old(memory),
                        &m_end,
                        reloc_table_va,
                        block_end_va,
                        image_base,
                        delta,
                        rr,
                    ) by {
                    assert(relocation_blocks_applied(
                        &pre,
                        &m_end,
                        current_block_va,
                        block_end_va,
                        image_base,
                        delta,
                        rr,
                    ));
                }
            }
            current_block_va = next_block_va;
        }
        assert(relocation_blocks_applied(
            memory,
            memory,
            current_block_va,
            block_end_va,
            image_base,
            delta,
            Ok::<(), PeError>(()),
        ));
        Ok(())
    }
    /// Whether loading `data` would stop the loader (see `load_panics`);
    /// callers test this before `load`.
    pub fn load_would_panic(data: &[u8]) -> (r: bool)
        ensures
            r == load_panics(data@),
    {
        let len: u64 = data.len() as u64;
        if len < 64 || read_u16_le(data, 0) != PE_MAGIC {
            return false;
        }
        let pe_offset: u64 = read_u32_le(data, 60) as u64;
        if pe_offset >= len || pe_offset + 4 > len || read_u32_le(data, pe_offset as usize)
            != PE_SIGNATURE {
            return false;
        }
        let coff_offset: u64 = pe_offset + 4;
        if coff_offset + 20 > len {
            return false;
        }
        let opt_size: u64 = read_u16_le(data, (coff_offset + 16) as usize) as u64;
        let opt_offset: u64 = coff_offset + 20;
        if opt_size > 0 {
            opt_size < 96 && opt_offset + opt_size <= len
        } else {
            let sec_count: u64 = read_u16_le(data, (coff_offset + 2) as usize) as u64;
            opt_offset + sec_count * 40 <= len
        }
    }

    /// How many modules were loaded.
    pub closed spec fn module_count(&self) -> nat {
        self.loaded_modules@.len()
    }

    /// Records that module `name` was loaded at `base`, replacing an earlier
    /// record of the same name.
    fn record_module(&mut self, name: String, base: u32)
        requires
            old(self).wf(),
        ensures
            final(self).wf(),
            final(self).modules() == old(self).modules().insert(name@, base),
    {
        let mut i: usize = 0;
        while i < self.loaded_modules.len()
            invariant
                self.wf(),
                self.loaded_modules@ == old(self).loaded_modules@,
                0 <= i <= self.loaded_modules@.len(),
                forall|j: int| 0 <= j < i ==> self.loaded_modules@[j].0@ != name@,
            decreases self.loaded_modules@.len() - i,
        {
            if self.loaded_modules[i].0 == name {
                let ghost pre = self.loaded_modules@;
                let ghost n = name@;
                self.loaded_modules.set(i, (name, base));
                proof {
                    assert forall|k: Seq<char>| #[trigger]
                        self.modules().contains_key(k) == old(self).modules().insert(
                            n,
                            base,
                        ).contains_key(k) by {
                        if old(self).modules().contains_key(k) {
                            let j = choose|j: int|
                                0 <= j < pre.len() && pre[j].0@ == k;
                            if j != i {
                                assert(self.loaded_modules@[j].0@ == k);
                            }
                        }
                        if k == n {
                            assert(self.loaded_modules@[i as int].0@ == k);
                        }
                    }
                    assert forall|k: Seq<char>| #[trigger]
                        self.modules().contains_key(k) implies self.modules()[k] == old(
                        self,
                    ).modules().insert(n, base)[k] by {
                        let j = choose|j: int|
                            0 <= j < self.loaded_modules@.len() && self.loaded_modules@[j].0@ == k;
                        if k == n {
                            if j != i {
                                if j < i {
                                    assert(self.loaded_modules@[j].0@ != self.loaded_modules@[i as int].0@);
                                } else {
                                    assert(self.loaded_modules@[i as int].0@ != self.loaded_modules@[j].0@);
                                }
                            }
                        } else {
                            let j0 = choose|j0: int| 0 <= j0 < pre.len() && pre[j0].0@ == k;
                            if j0 != j {
                                if j0 < j {
                                    assert(pre[j0].0@ != pre[j].0@);
                                } else {
                                    assert(pre[j].0@ != pre[j0].0@);
                                }
                            }
                        }
                    }
                    assert(self.modules() =~= old(self).modules().insert(n, base));
                }
                return ;
            }
            i = i + 1;
        }
        let ghost pre = self.loaded_modules@;
        let ghost n = name@;
        self.loaded_modules.push((name, base));
        proof {
            let len = pre.len();
            assert forall|a: int, b: int|
                0 <= a < b < self.loaded_modules@.len() implies #[trigger] self.loaded_modules@[a].0@
                != #[trigger] self.loaded_modules@[b].0@ by {
                if b < len {
                    assert(pre[a].0@ != pre[b].0@);
                }
            }
            assert forall|k: Seq<char>| #[trigger]
                self.modules().contains_key(k) == old(self).modules().insert(n, base).contains_key(
                    k,
                ) by {
                if old(self).modules().contains_key(k) {
                    let j = choose|j: int| 0 <= j < pre.len() && pre[j].0@ == k;
                    assert(self.loaded_modules@[j].0@ == k);
                }
                if k == n {
                    assert(self.loaded_modules@[len as int].0@ == k);
                }
            }
            assert forall|k: Seq<char>| #[trigger]
                self.modules().contains_key(k) implies self.modules()[k] == old(
                self,
            ).modules().insert(n, base)[k] by {
                let j = choose|j: int|
                    0 <= j < self.loaded_modules@.len() && self.loaded_modules@[j].0@ == k;
                if k == n {
                    if j != len {
                        assert(self.loaded_modules@[j].0@ != self.loaded_modules@[len as int].0@);
                    }
                } else {
                    let j0 = choose|j0: int| 0 <= j0 < pre.len() && pre[j0].0@ == k;
                    if j0 != j {
                        if j0 < j {
                            assert(self.loaded_modules@[j0].0@ != self.loaded_modules@[j].0@);
                        } else {
                            assert(self.loaded_modules@[j].0@ != self.loaded_modules@[j0].0@);
                        }
                    }
                }
            }
            assert(self.modules() =~= old(self).modules().insert(n, base));
        }
    }

    /// Gets loaded modules: (module name, base address) pairs.
    pub fn get_loaded_modules(&self) -> (r: &Vec<(String, u32)>)
        requires
            self.wf(),
        ensures
            r@.len() == self.module_count(),
            forall|i: int|
                0 <= i < r@.len() ==> self.modules().contains_key(#[trigger] r@[i].0@)
                    && self.modules()[r@[i].0@] == r@[i].1,
    {
        proof {
            assert forall|i: int| 0 <= i < self.loaded_modules@.len() implies self.modules().contains_key(
                #[trigger] self.loaded_modules@[i].0@,
            ) && self.modules()[self.loaded_modules@[i].0@] == self.loaded_modules@[i].1 by {
                let k = self.loaded_modules@[i].0@;
                assert(self.modules().contains_key(k));
                let j = choose|j: int|
                    0 <= j < self.loaded_modules@.len() && self.loaded_modules@[j].0@ == k;
                if j != i {
                    if j < i {
                        assert(self.loaded_modules@[j].0@ != self.loaded_modules@[i].0@);
                    } else {
                        assert(self.loaded_modules@[i].0@ != self.loaded_modules@[j].0@);
                    }
                }
            }
        }
        &self.loaded_modules
    }
    /// Loads a PE image into memory under the name `module_name`, and
    /// returns the address of its entry point.
    pub fn load(&mut self, file_data: &[u8], module_name: String, memory: &mut MemoryManager) -> (r:
        Result<u32, PeError>)
        requires
            old(self).wf(),
            old(memory).wf(),
            !load_panics(file_data@),
        ensures
            final(self).wf(),
            final(memory).wf(),
            pe_error(file_data@) matches Some(e) ==> r == Err::<u32, PeError>(e) && *final(memory)
                == *old(memory),
            r is Err ==> final(self).modules() == old(self).modules(),
            r matches Ok(entry) ==> {
                let opt = file_optional_header(file_data@);
                &&& pe_error(file_data@) is None
                &&& exists|base: u32|
                    {
                        &&& entry == base + opt.entry_point
                        &&& (can_allocate_at(old(memory), opt.image_base, opt.image_size) ==> base
                            == opt.image_base)
                        &&& (!can_allocate_at(old(memory), opt.image_base, opt.image_size)
                            ==> old(memory).free_region_outcome(opt.image_size as int, Ok(base)))
                        &&& final(self).modules() == old(self).modules().insert(module_name@, base)
                    }
            },
            pe_error(file_data@) is None ==> exists|pe: PEFile|
                parsed_pe(file_data@, pe) && #[trigger] image_loaded(old(memory), final(memory), &pe, r),
    {
        // Parse PE file
        let pe_file = match self.parse_pe(file_data) {
            Ok(p) => p,
            Err(e) => return Err(e),
        };
        let ghost opt = file_optional_header(file_data@);
        assert(pe_file.optional_header == Some(opt));
        let (preferred_base, entry_point) = match &pe_file.optional_header {
            Some(h) => (h.image_base, h.entry_point),
            None => (0, 0),
        };
        // Allocate memory for the image
        let res_a = self.allocate_image_memory(&pe_file, memory);
        let image_base = match res_a {
            Ok(b) => b,
            Err(e) => {
                assert(image_allocated(old(memory), memory, opt, res_a));
                assert(image_loaded(old(memory), memory, &pe_file, Err::<u32, PeError>(e)));
                return Err(e);
            },
        };
        let ghost m1 = *memory;
        assert(image_allocated(old(memory), &m1, opt, res_a));
        // Load sections into memory
        let res_s = self.load_sections(&pe_file, image_base, memory);
        match res_s {
            Ok(()) => {},
            Err(e) => {
                assert(sections_load_outcome(&m1, memory, pe_file.sections@, 0, pe_file.raw_data@, image_base, res_s));
                assert(image_filled(&m1, memory, &pe_file, image_base, Err::<u32, PeError>(e)));
                assert(image_loaded(old(memory), memory, &pe_file, Err::<u32, PeError>(e)));
                return Err(e);
            },
        }
        let ghost m2 = *memory;
        assert(sections_load_outcome(&m1, &m2, pe_file.sections@, 0, pe_file.raw_data@, image_base, res_s));
        // Process imports
        let res_i = self.process_imports(&pe_file, image_base, memory);
        match res_i {
            Ok(()) => {},
            Err(e) => {
                assert(imports_processed(&pe_file, image_base, &m2, memory, res_i));
                assert(image_linked(&m2, memory, &pe_file, image_base, Err::<u32, PeError>(e)));
                assert(image_filled(&m1, memory, &pe_file, image_base, Err::<u32, PeError>(e)));
                assert(image_loaded(old(memory), memory, &pe_file, Err::<u32, PeError>(e)));
                return Err(e);
            },
        }
        let ghost m3 = *memory;
        assert(imports_processed(&pe_file, image_base, &m2, &m3, res_i));
        // Process relocations if needed
        if image_base != preferred_base {
            let res_r = self.process_relocations(&pe_file, image_base, memory);
            match res_r {
                Ok(()) => {},
                Err(e) => {
                    assert(relocations_processed(&pe_file, image_base, &m3, memory, res_r));
                    assert(image_relocated(&m3, memory, &pe_file, image_base, Err::<u32, PeError>(e)));
                    assert(image_linked(&m2, memory, &pe_file, image_base, Err::<u32, PeError>(e)));
                    assert(image_filled(&m1, memory, &pe_file, image_base, Err::<u32, PeError>(e)));
                    assert(image_loaded(old(memory), memory, &pe_file, Err::<u32, PeError>(e)));
                    return Err(e);
                },
            }
            assert(relocations_processed(&pe_file, image_base, &m3, memory, res_r));
        }
        let entry = match image_base.checked_add(entry_point) {
            Some(v) => v,
            None => {
                assert(image_relocated(&m3, memory, &pe_file, image_base, Err::<u32, PeError>(PeError::AddressOverflow)));
                assert(image_linked(&m2, memory, &pe_file, image_base, Err::<u32, PeError>(PeError::AddressOverflow)));
                assert(image_filled(&m1, memory, &pe_file, image_base, Err::<u32, PeError>(PeError::AddressOverflow)));
                assert(image_loaded(old(memory), memory, &pe_file, Err::<u32, PeError>(PeError::AddressOverflow)));
                return Err(PeError::AddressOverflow);
            },
        };
        assert(image_relocated(&m3, memory, &pe_file, image_base, Ok::<u32, PeError>(entry)));
        assert(image_linked(&m2, memory, &pe_file, image_base, Ok::<u32, PeError>(entry)));
        assert(image_filled(&m1, memory, &pe_file, image_base, Ok::<u32, PeError>(entry)));
        assert(image_loaded(old(memory), memory, &pe_file, Ok::<u32, PeError>(entry)));
        // Store loaded module info
        self.record_module(module_name, image_base);
        Ok(entry)
    }
}

} // verus!
