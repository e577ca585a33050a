//! Windows API emulation: the calls a guest program makes into the system
//! libraries are answered here, against the emulated memory.
use crate::memory::{address_space_end, align_up, is_page_of_range, page_base_of, le_u16_bytes, le_u32_bytes, MemoryError, MemoryManager, MemoryProtection};
use crate::pe::{c_string_at, c_string_fails_at, can_allocate_at, store_answer, zeros};
use std::collections::HashMap;
use vstd::prelude::*;

verus! {

broadcast use vstd::std_specs::hash::group_hash_axioms;

/// Windows API function identifiers
#[derive(Debug, Clone, Copy, PartialEq, Eq, Structural)]
pub enum WindowsAPI {
    // Kernel32.dll functions
    GetLastError,
    GetCurrentProcess,
    GetCurrentThreadId,
    GetCurrentProcessId,
    VirtualAlloc,
    VirtualFree,
    VirtualProtect,
    CreateFileA,
    ReadFile,
    WriteFile,
    CloseHandle,
    GetTickCount,
    GetSystemTime,
    ExitProcess,
    // User32.dll functions
    MessageBoxA,
    MessageBoxW,
    GetWindowTextA,
    GetWindowTextW,
    SetWindowTextA,
    SetWindowTextW,
    FindWindowA,
    FindWindowW,
    SendMessageA,
    SendMessageW,
    PostMessageA,
    PostMessageW,
    // GDI32.dll functions
    CreateCompatibleDC,
    CreateCompatibleBitmap,
    SelectObject,
    DeleteObject,
    BitBlt,
    StretchBlt,
    // Kernel32.dll file functions
    CreateFileMappingA,
    MapViewOfFile,
    UnmapViewOfFile,
    FlushViewOfFile,
    // Registry functions
    RegOpenKeyA,
    RegOpenKeyW,
    RegQueryValueA,
    RegQueryValueW,
    RegSetValueA,
    RegSetValueW,
    RegCloseKey,
    // Thread functions
    CreateThread,
    WaitForSingleObject,
    WaitForMultipleObjects,
    SetEvent,
    ResetEvent,
    // Memory functions
    GlobalAlloc,
    GlobalFree,
    GlobalLock,
    GlobalUnlock,
    LocalAlloc,
    LocalFree,
    LocalLock,
    LocalUnlock,
    // Unknown/unsupported
    Unknown,
}

/// System call context
#[derive(Debug)]
pub struct SyscallContext {
    pub api_function: WindowsAPI,
    pub args: Vec<u32>,
    pub return_address: u32,
    pub thread_id: u32,
}

/// File handle representation
#[derive(Debug)]
pub struct FileHandle {
    pub id: u32,
    pub path: Vec<u8>,
    pub mode: FileMode,
    pub position: u64,
}

#[derive(Debug, Clone, Copy, PartialEq, Eq, Structural)]
pub enum FileMode {
    Read,
    Write,
    ReadWrite,
    Append,
}

/// Memory allocation tracking
#[derive(Debug, Clone, Copy, PartialEq, Eq, Structural)]
pub struct MemoryAllocation {
    pub address: u32,
    pub size: u32,
    pub protection: u32,
}

/// Registry value
#[derive(Debug)]
pub enum RegistryValue {
    String(String),
    Dword(u32),
    Binary(Vec<u8>),
}

/// Why an emulated call did not return a value to the guest.
#[derive(Debug, Clone, Copy, PartialEq, Eq, Structural)]
pub enum SyscallError {
    /// An access to emulated memory failed.
    Memory(MemoryError),
    /// An address computed from the arguments lies past the address space.
    AddressOverflow,
    /// The counter that numbers handles or threads is used up.
    HandleExhausted,
    /// The guest called ExitProcess with this exit code.
    ProcessExit(u32),
}

/// System state information
#[derive(Debug)]
pub struct SystemState {
    pub current_thread_id: u32,
    pub current_process_id: u32,
    pub last_error: u32,
    pub open_file_handles: usize,
    pub memory_allocations: usize,
}

/// System call emulator
pub struct SyscallEmulator {
    // File handles
    next_file_handle: u32,
    file_handles: HashMap<u32, FileHandle>,
    // Memory allocations
    next_memory_handle: u32,
    memory_allocations: HashMap<u32, MemoryAllocation>,
    // Thread information
    current_thread_id: u32,
    current_process_id: u32,
    // System state
    last_error: u32,
    system_time: u64,
    // Registry simulation
    registry: HashMap<String, RegistryValue>,
}

#[verifier::external_type_specification]
#[verifier::external_body]
pub struct ExSystemTime(std::time::SystemTime);

/// `std::time::SystemTime::now`: the current wall-clock time. Nothing is
/// claimed of the value.
#[verifier::external_body]
fn system_time_now() -> std::time::SystemTime {
    std::time::SystemTime::now()
}

/// `SystemTime::duration_since(UNIX_EPOCH)`: the time elapsed since the
/// Unix epoch, or `None` for a time before it. Nothing is claimed of the
/// value.
#[verifier::external_body]
fn since_unix_epoch(t: std::time::SystemTime) -> Option<std::time::Duration> {
    match t.duration_since(std::time::UNIX_EPOCH) {
        Ok(d) => Some(d),
        Err(_) => None,
    }
}

/// `Duration::as_millis`: the whole milliseconds of a duration. Nothing is
/// claimed of the value.
#[verifier::external_body]
fn duration_millis(d: std::time::Duration) -> u128 {
    d.as_millis()
}

/// Milliseconds since the Unix epoch, truncated to 64 bits; a clock set
/// before the epoch reads zero.
fn unix_millis() -> u64 {
    match since_unix_epoch(system_time_now()) {
        Some(d) => duration_millis(d) as u64,
        None => 0,
    }
}

/// ERROR_INVALID_PARAMETER
pub const ERROR_INVALID_PARAMETER: u32 = 87;

/// ERROR_INVALID_HANDLE
pub const ERROR_INVALID_HANDLE: u32 = 6;

/// ERROR_INVALID_FUNCTION
pub const ERROR_INVALID_FUNCTION: u32 = 1;

/// `post` has these counters, tables and last error, and the rest of `pre`.
pub closed spec fn state_is(
    post: &SyscallEmulator,
    pre: &SyscallEmulator,
    next_file: u32,
    files: Map<u32, FileHandle>,
    next_mem: u32,
    allocs: Map<u32, MemoryAllocation>,
    thread: u32,
    error: u32,
) -> bool {
    &&& post.next_file_handle == next_file
    &&& post.file_handles@ == files
    &&& post.next_memory_handle == next_mem
    &&& post.memory_allocations@ == allocs
    &&& post.current_thread_id == thread
    &&& post.current_process_id == pre.current_process_id
    &&& post.last_error == error
    &&& post.system_time == pre.system_time
    &&& post.registry@ == pre.registry@
}

/// `post` is `pre` with last error `error`.
pub closed spec fn kept_with_error(post: &SyscallEmulator, pre: &SyscallEmulator, error: u32) -> bool {
    state_is(
        post,
        pre,
        pre.next_file_handle,
        pre.file_handles@,
        pre.next_memory_handle,
        pre.memory_allocations@,
        pre.current_thread_id,
        error,
    )
}

/// `post` is `pre`.
pub closed spec fn kept(post: &SyscallEmulator, pre: &SyscallEmulator) -> bool {
    kept_with_error(post, pre, pre.last_error)
}

/// The call answers `value` and changes nothing.
pub closed spec fn answered(
    pre: &SyscallEmulator,
    post: &SyscallEmulator,
    m0: &MemoryManager,
    m1: &MemoryManager,
    value: u32,
    r: Result<u32, SyscallError>,
) -> bool {
    r == Ok::<u32, SyscallError>(value) && kept(post, pre) && *m1 == *m0
}

/// The call has too few arguments: it answers `value` and sets the last
/// error to ERROR_INVALID_PARAMETER.
pub closed spec fn refused(
    pre: &SyscallEmulator,
    post: &SyscallEmulator,
    m0: &MemoryManager,
    m1: &MemoryManager,
    value: u32,
    r: Result<u32, SyscallError>,
) -> bool {
    r == Ok::<u32, SyscallError>(value) && kept_with_error(post, pre, ERROR_INVALID_PARAMETER) && *m1
        == *m0
}

/// The memory-level result that a store reported, as the call passes it on.
pub open spec fn store_part(r: Result<u32, SyscallError>) -> Result<(), MemoryError> {
    match r {
        Ok(_) => Ok(()),
        Err(SyscallError::Memory(e)) => Err(e),
        Err(_) => Err(MemoryError::AddressOverflow),
    }
}

/// The text a UTF-16 unit stands for here: ASCII units as they are, every
/// other unit as U+FFFD.
pub open spec fn narrow_unit(u: u16) -> u16 {
    if u <= 0x7F {
        u
    } else {
        0xFFFD
    }
}

/// `units` are the UTF-16 units of the NUL-terminated wide string at `addr`.
pub open spec fn wide_string_at(m: &MemoryManager, addr: int, units: Seq<u16>) -> bool {
    &&& forall|j: int|
        0 <= j < units.len() ==> #[trigger] m.spec_read_u16(addr + 2 * j) == Ok::<u16, MemoryError>(
            units[j],
        ) && units[j] != 0
    &&& m.spec_read_u16(addr + 2 * units.len()) == Ok::<u16, MemoryError>(0)
}

/// Reading a wide string at `addr` fails at its `k`-th unit.
pub open spec fn wide_string_fails_at(m: &MemoryManager, addr: int, k: int) -> bool {
    &&& 0 <= k
    &&& forall|j: int|
        0 <= j < k ==> (#[trigger] m.spec_read_u16(addr + 2 * j) matches Ok(u) && u != 0)
    &&& m.spec_read_u16(addr + 2 * k) is Err
}

/// The string at `addr` can be read (a null pointer is not read).
pub open spec fn string_readable(m: &MemoryManager, addr: u32) -> bool {
    addr == 0 || exists|s: Seq<u8>| c_string_at(m, addr as int, s)
}

/// The wide string at `addr` can be read (a null pointer is not read).
pub open spec fn wide_string_readable(m: &MemoryManager, addr: u32) -> bool {
    addr == 0 || exists|u: Seq<u16>| wide_string_at(m, addr as int, u)
}

/// Why the string at `addr` (a wide one when `wide`) cannot be read: the
/// error of the first character that cannot be read.
pub open spec fn string_error(m: &MemoryManager, addr: u32, wide: bool) -> MemoryError {
    if wide {
        m.spec_read_u16(addr + 2 * (choose|k: int| wide_string_fails_at(m, addr as int, k)))->Err_0
    } else {
        m.read_error_at(addr + (choose|k: int| c_string_fails_at(m, addr as int, k)))
    }
}

/// The string behind a pointer can be read (a null pointer is not read).
pub open spec fn pointer_readable(m: &MemoryManager, addr: u32, wide: bool) -> bool {
    if wide {
        wide_string_readable(m, addr)
    } else {
        string_readable(m, addr)
    }
}

/// MessageBoxA / MessageBoxW / SetWindowTextA / SetWindowTextW: the strings
/// behind the non-null pointers among `ptrs` (one or two of them) are read
/// in turn (wide strings when `wide`), and `value` is answered; the first
/// string that cannot be read fails the call with its error.
pub closed spec fn strings_read(
    pre: &SyscallEmulator,
    post: &SyscallEmulator,
    m0: &MemoryManager,
    m1: &MemoryManager,
    ptrs: Seq<u32>,
    wide: bool,
    value: u32,
    r: Result<u32, SyscallError>,
) -> bool {
    let readable = forall|i: int|
        0 <= i < ptrs.len() ==> if wide {
            wide_string_readable(m0, #[trigger] ptrs[i])
        } else {
            string_readable(m0, ptrs[i])
        };
    let bad = if !pointer_readable(m0, ptrs[0], wide) {
        ptrs[0]
    } else {
        ptrs[1]
    };
    &&& kept(post, pre)
    &&& *m1 == *m0
    &&& readable ==> r == Ok::<u32, SyscallError>(value)
    &&& !readable ==> r == Err::<u32, SyscallError>(SyscallError::Memory(string_error(m0, bad, wide)))
}

/// A single store of `bytes` at `addr`: its outcome is what memory reports,
/// `value` is answered when it succeeds, and the emulator is unchanged.
pub closed spec fn stored(
    pre: &SyscallEmulator,
    post: &SyscallEmulator,
    m0: &MemoryManager,
    m1: &MemoryManager,
    addr: u32,
    bytes: Seq<u8>,
    value: u32,
    r: Result<u32, SyscallError>,
) -> bool {
    &&& kept(post, pre)
    &&& m1.write_outcome(m0, addr as int, bytes, store_part(r))
    &&& (r is Ok ==> r == Ok::<u32, SyscallError>(value))
    &&& (r is Err ==> r == Err::<u32, SyscallError>(
        SyscallError::Memory(MemoryError::InvalidPageAddress),
    ))
}

/// `m1` and `r` are what storing `b1` at `a1` and then `b2` at `a2` gives:
/// the second store is made only when the first succeeded; `value` is
/// answered when both succeed, else the error of the store that failed (an
/// overflow when `a2` lies past the address space).
pub open spec fn two_stores(
    m0: &MemoryManager,
    m1: &MemoryManager,
    a1: int,
    b1: Seq<u8>,
    a2: int,
    b2: Seq<u8>,
    value: u32,
    r: Result<u32, SyscallError>,
) -> bool {
    exists|mid: MemoryManager|
        {
            &&& #[trigger] mid.write_outcome(m0, a1, b1, store_answer(m0, a1, b1.len() as int))
            &&& if !m0.range_mapped(a1, b1.len() as int) {
                r == Err::<u32, SyscallError>(SyscallError::Memory(MemoryError::InvalidPageAddress))
                    && *m1 == mid
            } else if a2 > u32::MAX {
                r == Err::<u32, SyscallError>(SyscallError::AddressOverflow) && *m1 == mid
            } else {
                &&& m1.write_outcome(&mid, a2, b2, store_answer(&mid, a2, b2.len() as int))
                &&& r == if mid.range_mapped(a2, b2.len() as int) {
                    Ok::<u32, SyscallError>(value)
                } else {
                    Err::<u32, SyscallError>(SyscallError::Memory(MemoryError::InvalidPageAddress))
                }
            }
        }
}

/// What GetWindowTextA (or, when `wide`, GetWindowTextW) does: an empty
/// text is stored in a non-empty buffer, and 0 is answered.
pub closed spec fn window_text_outcome(
    pre: &SyscallEmulator,
    post: &SyscallEmulator,
    args: Seq<u32>,
    wide: bool,
    m0: &MemoryManager,
    m1: &MemoryManager,
    r: Result<u32, SyscallError>,
) -> bool {
    if args.len() < 3 {
        refused(pre, post, m0, m1, 0, r)
    } else if args[2] > 0 && args[1] != 0 {
        stored(pre, post, m0, m1, args[1], if wide { le_u16_bytes(0) } else { seq![0u8] }, 0, r)
    } else {
        answered(pre, post, m0, m1, 0, r)
    }
}

/// What WriteFile does: nothing is written anywhere but the count of bytes
/// written, stored where the guest asked for it.
pub closed spec fn write_file_outcome(
    pre: &SyscallEmulator,
    post: &SyscallEmulator,
    args: Seq<u32>,
    m0: &MemoryManager,
    m1: &MemoryManager,
    r: Result<u32, SyscallError>,
) -> bool {
    if args.len() < 4 {
        refused(pre, post, m0, m1, 0, r)
    } else if !pre.file_handles@.contains_key(args[0]) {
        r == Ok::<u32, SyscallError>(0) && kept_with_error(post, pre, ERROR_INVALID_HANDLE) && *m1
            == *m0
    } else if args[3] != 0 {
        stored(pre, post, m0, m1, args[3], le_u32_bytes(args[2]), 1, r)
    } else {
        answered(pre, post, m0, m1, 1, r)
    }
}

/// What ReadFile does: the buffer is filled with zeros and the count is
/// stored where the guest asked for it; it succeeds exactly when both lie
/// in mapped memory.
pub closed spec fn read_file_outcome(
    pre: &SyscallEmulator,
    post: &SyscallEmulator,
    args: Seq<u32>,
    m0: &MemoryManager,
    m1: &MemoryManager,
    r: Result<u32, SyscallError>,
) -> bool {
    if args.len() < 4 {
        refused(pre, post, m0, m1, 0, r)
    } else if !pre.file_handles@.contains_key(args[0]) {
        r == Ok::<u32, SyscallError>(0) && kept_with_error(post, pre, ERROR_INVALID_HANDLE) && *m1
            == *m0
    } else {
        let buffer = args[1] as int;
        let n = args[2] as int;
        let ptr = args[3] as int;
        &&& kept(post, pre)
        &&& m1.same_layout(m0)
        &&& m1.wf()
        &&& if m0.range_mapped(buffer, n) {
            if ptr == 0 {
                m1.wrote(m0, buffer, zeros(n)) && r == Ok::<u32, SyscallError>(1)
            } else {
                exists|mid: MemoryManager|
                    {
                        &&& #[trigger] mid.wrote(m0, buffer, zeros(n))
                        &&& m1.write_outcome(&mid, ptr, le_u32_bytes(args[2]), store_answer(&mid, ptr, 4))
                        &&& r == if mid.range_mapped(ptr, 4) {
                            Ok::<u32, SyscallError>(1)
                        } else {
                            Err::<u32, SyscallError>(
                                SyscallError::Memory(MemoryError::InvalidPageAddress),
                            )
                        }
                    }
            }
        } else {
            exists|f: int|
                {
                    &&& 0 <= f < n
                    &&& m0.range_mapped(buffer, f)
                    &&& !m0.is_mapped(buffer + f)
                    &&& #[trigger] m1.wrote(m0, buffer, zeros(f))
                    &&& r == if buffer + f > u32::MAX {
                        Err::<u32, SyscallError>(SyscallError::AddressOverflow)
                    } else {
                        Err::<u32, SyscallError>(SyscallError::Memory(MemoryError::InvalidPageAddress))
                    }
                }
        }
        &&& (r is Ok <==> m0.range_mapped(buffer, n) && (ptr != 0 ==> m0.range_mapped(ptr, 4)))
        &&& r is Ok ==> r == Ok::<u32, SyscallError>(1)
        &&& r is Err ==> r == Err::<u32, SyscallError>(
            SyscallError::Memory(MemoryError::InvalidPageAddress),
        ) || r == Err::<u32, SyscallError>(SyscallError::AddressOverflow)
    }
}

/// The memory protection that a Windows PAGE_* value selects.
pub open spec fn windows_protection(flags: u32) -> MemoryProtection {
    if flags == 0x01 {
        MemoryProtection { readable: true, writable: false, executable: false }
    } else if flags == 0x10 {
        MemoryProtection { readable: true, writable: false, executable: true }
    } else if flags == 0x20 || flags == 0x40 {
        MemoryProtection { readable: true, writable: true, executable: true }
    } else {
        MemoryProtection { readable: true, writable: true, executable: false }
    }
}

/// What allocating `size` bytes (at `address`, or anywhere when it is 0)
/// gives: the address, with fresh read-write pages mapped there; memory is
/// unchanged when it fails.
pub open spec fn allocated(
    m0: &MemoryManager,
    m1: &MemoryManager,
    address: u32,
    size: u32,
    r: Result<u32, MemoryError>,
) -> bool {
    let rw = MemoryProtection { readable: true, writable: true, executable: false };
    match r {
        Ok(a) => {
            &&& (address == 0 ==> m0.free_region_outcome(size as int, Ok(a)))
            &&& (address != 0 ==> a == address && can_allocate_at(m0, address, size))
            &&& m1.mapped_fresh(m0, a as int, align_up(size as int), rw)
        },
        Err(e) => {
            &&& *m1 == *m0
            &&& (address != 0 ==> !can_allocate_at(m0, address, size) && e == if !m0.range_free(
                address as int,
                size as int,
            ) {
                MemoryError::AddressInUse
            } else if address + align_up(size as int) > address_space_end() {
                MemoryError::AddressOverflow
            } else {
                MemoryError::OutOfMemory
            })
            &&& (address == 0 ==> e == MemoryError::OutOfMemory && (m0.free_region_outcome(
                size as int,
                Err(e),
            ) || m0.spec_used_memory() + align_up(size as int) > u32::MAX))
        },
    }
}

/// What VirtualAlloc does: allocates the memory and records the
/// allocation under a new memory handle.
pub closed spec fn virtual_alloc_outcome(
    pre: &SyscallEmulator,
    post: &SyscallEmulator,
    args: Seq<u32>,
    m0: &MemoryManager,
    m1: &MemoryManager,
    r: Result<u32, SyscallError>,
) -> bool {
    if args.len() < 3 {
        refused(pre, post, m0, m1, 0, r)
    } else if pre.next_memory_handle == u32::MAX {
        r == Err::<u32, SyscallError>(SyscallError::HandleExhausted) && kept(post, pre) && *m1
            == *m0
    } else {
        let protect = if args.len() > 3 {
            args[3]
        } else {
            0x40
        };
        let h = pre.next_memory_handle;
        match r {
            Ok(a) => {
                &&& allocated(m0, m1, args[0], args[1], Ok(a))
                &&& state_is(
                    post,
                    pre,
                    pre.next_file_handle,
                    pre.file_handles@,
                    (h + 1) as u32,
                    pre.memory_allocations@.insert(
                        h,
                        MemoryAllocation { address: a, size: args[1], protection: protect },
                    ),
                    pre.current_thread_id,
                    pre.last_error,
                )
            },
            Err(e) => e matches SyscallError::Memory(me) && allocated(m0, m1, args[0], args[1], Err(me))
                && kept(post, pre),
        }
    }
}

/// What GlobalAlloc does: allocates the memory anywhere.
pub closed spec fn global_alloc_outcome(
    pre: &SyscallEmulator,
    post: &SyscallEmulator,
    args: Seq<u32>,
    m0: &MemoryManager,
    m1: &MemoryManager,
    r: Result<u32, SyscallError>,
) -> bool {
    if args.len() < 2 {
        refused(pre, post, m0, m1, 0, r)
    } else {
        &&& kept(post, pre)
        &&& match r {
            Ok(a) => allocated(m0, m1, 0, args[1], Ok(a)),
            Err(e) => e matches SyscallError::Memory(me) && allocated(m0, m1, 0, args[1], Err(me)),
        }
    }
}

/// What VirtualProtect does: gives every mapped page of the page-aligned
/// range the protection that the flags select.
pub closed spec fn virtual_protect_outcome(
    pre: &SyscallEmulator,
    post: &SyscallEmulator,
    args: Seq<u32>,
    m0: &MemoryManager,
    m1: &MemoryManager,
    r: Result<u32, SyscallError>,
) -> bool {
    if args.len() < 3 {
        refused(pre, post, m0, m1, 0, r)
    } else {
        &&& r == Ok::<u32, SyscallError>(1)
        &&& kept(post, pre)
        &&& m1.protected(m0, args[0] as int, args[1] as int, windows_protection(args[2]))
    }
}

/// What CreateFileA does: the file name is read and a new file handle is
/// opened for it (no file is touched).
pub closed spec fn create_file_outcome(
    pre: &SyscallEmulator,
    post: &SyscallEmulator,
    args: Seq<u32>,
    m0: &MemoryManager,
    m1: &MemoryManager,
    r: Result<u32, SyscallError>,
) -> bool {
    if args.len() < 5 {
        refused(pre, post, m0, m1, 0xFFFF_FFFF, r)
    } else {
        let h = pre.next_file_handle;
        &&& *m1 == *m0
        &&& if !(exists|s: Seq<u8>| c_string_at(m0, args[0] as int, s)) {
            r == Err::<u32, SyscallError>(SyscallError::Memory(string_error(m0, args[0], false)))
                && kept(post, pre)
        } else if h == u32::MAX {
            r == Err::<u32, SyscallError>(SyscallError::HandleExhausted) && kept(post, pre)
        } else {
            &&& r == Ok::<u32, SyscallError>(h)
            &&& state_is(
                post,
                pre,
                (h + 1) as u32,
                pre.file_handles@.insert(h, post.file_handles@[h]),
                pre.next_memory_handle,
                pre.memory_allocations@,
                pre.current_thread_id,
                pre.last_error,
            )
            &&& post.file_handles@[h].id == h
            &&& c_string_at(m0, args[0] as int, post.file_handles@[h].path@)
            &&& post.file_handles@[h].mode == FileMode::ReadWrite
            &&& post.file_handles@[h].position == 0
        }
    }
}

/// A store of `bytes` at `addr` that succeeds exactly when the range is
/// mapped.
pub open spec fn store_if_mapped(m0: &MemoryManager, m1: &MemoryManager, addr: u32, bytes: Seq<u8>) -> bool {
    m1.write_outcome(
        m0,
        addr as int,
        bytes,
        if m0.range_mapped(addr as int, bytes.len() as int) {
            Ok(())
        } else {
            Err(MemoryError::InvalidPageAddress)
        },
    )
}

/// What CreateThread does: no thread runs; the next thread id is taken and
/// stored where the guest asked, and a new handle is answered.
pub closed spec fn create_thread_outcome(
    pre: &SyscallEmulator,
    post: &SyscallEmulator,
    args: Seq<u32>,
    m0: &MemoryManager,
    m1: &MemoryManager,
    r: Result<u32, SyscallError>,
) -> bool {
    if args.len() < 6 {
        refused(pre, post, m0, m1, 0, r)
    } else if pre.current_thread_id == u32::MAX {
        r == Err::<u32, SyscallError>(SyscallError::HandleExhausted) && kept(post, pre) && *m1
            == *m0
    } else {
        let tid = (pre.current_thread_id + 1) as u32;
        let ptr = args[5];
        let stored_ok = ptr == 0 || m0.range_mapped(ptr as int, 4);
        let h = pre.next_file_handle;
        &&& (ptr == 0 ==> *m1 == *m0)
        &&& (ptr != 0 ==> store_if_mapped(m0, m1, ptr, le_u32_bytes(tid)))
        &&& if !stored_ok {
            &&& r == Err::<u32, SyscallError>(SyscallError::Memory(MemoryError::InvalidPageAddress))
            &&& state_is(
                post,
                pre,
                h,
                pre.file_handles@,
                pre.next_memory_handle,
                pre.memory_allocations@,
                tid,
                pre.last_error,
            )
        } else if h == u32::MAX {
            &&& r == Err::<u32, SyscallError>(SyscallError::HandleExhausted)
            &&& state_is(
                post,
                pre,
                h,
                pre.file_handles@,
                pre.next_memory_handle,
                pre.memory_allocations@,
                tid,
                pre.last_error,
            )
        } else {
            &&& r == Ok::<u32, SyscallError>(h)
            &&& state_is(
                post,
                pre,
                (h + 1) as u32,
                pre.file_handles@,
                pre.next_memory_handle,
                pre.memory_allocations@,
                tid,
                pre.last_error,
            )
        }
    }
}

/// What RegOpenKeyA does: the subkey name is read, and a new handle is
/// stored where the guest asked; ERROR_SUCCESS is answered.
pub closed spec fn reg_open_key_outcome(
    pre: &SyscallEmulator,
    post: &SyscallEmulator,
    args: Seq<u32>,
    m0: &MemoryManager,
    m1: &MemoryManager,
    r: Result<u32, SyscallError>,
) -> bool {
    if args.len() < 3 {
        refused(pre, post, m0, m1, 0, r)
    } else if !string_readable(m0, args[1]) {
        r == Err::<u32, SyscallError>(SyscallError::Memory(string_error(m0, args[1], false)))
            && kept(post, pre) && *m1 == *m0
    } else if pre.next_file_handle == u32::MAX {
        r == Err::<u32, SyscallError>(SyscallError::HandleExhausted) && kept(post, pre) && *m1
            == *m0
    } else {
        let h = pre.next_file_handle;
        let ptr = args[2];
        let stored_ok = ptr == 0 || m0.range_mapped(ptr as int, 4);
        &&& state_is(
            post,
            pre,
            (h + 1) as u32,
            pre.file_handles@,
            pre.next_memory_handle,
            pre.memory_allocations@,
            pre.current_thread_id,
            pre.last_error,
        )
        &&& (ptr == 0 ==> *m1 == *m0)
        &&& (ptr != 0 ==> store_if_mapped(m0, m1, ptr, le_u32_bytes(h)))
        &&& (stored_ok ==> r == Ok::<u32, SyscallError>(0))
        &&& (!stored_ok ==> r == Err::<u32, SyscallError>(
            SyscallError::Memory(MemoryError::InvalidPageAddress),
        ))
    }
}

/// What RegQueryValueA does: the value name is read and every value is
/// empty: a non-empty data buffer gets a NUL, and its size becomes 1.
pub closed spec fn reg_query_value_outcome(
    pre: &SyscallEmulator,
    post: &SyscallEmulator,
    args: Seq<u32>,
    m0: &MemoryManager,
    m1: &MemoryManager,
    r: Result<u32, SyscallError>,
) -> bool {
    if args.len() < 4 {
        refused(pre, post, m0, m1, 2, r)
    } else if !string_readable(m0, args[1]) {
        r == Err::<u32, SyscallError>(SyscallError::Memory(string_error(m0, args[1], false)))
            && kept(post, pre) && *m1 == *m0
    } else if args[3] == 0 {
        answered(pre, post, m0, m1, 0, r)
    } else {
        let data_ptr = args[2];
        let size_ptr = args[3];
        match m0.spec_read_u32(size_ptr as int) {
            Err(e) => r == Err::<u32, SyscallError>(SyscallError::Memory(e)) && kept(post, pre)
                && *m1 == *m0,
            Ok(current) => if current > 0 && data_ptr != 0 {
                &&& kept(post, pre)
                &&& m1.wf()
                &&& m1.same_layout(m0)
                &&& two_stores(m0, m1, data_ptr as int, seq![0u8], size_ptr as int, le_u32_bytes(1), 0, r)
                &&& if m0.is_mapped(data_ptr as int) {
                    r == Ok::<u32, SyscallError>(0)
                } else {
                    r == Err::<u32, SyscallError>(
                        SyscallError::Memory(MemoryError::InvalidPageAddress),
                    ) && m1.wrote(m0, data_ptr as int, Seq::empty())
                }
            } else {
                answered(pre, post, m0, m1, 0, r)
            },
        }
    }
}

/// What GetSystemTime does with the time `t` (milliseconds since the Unix
/// epoch): its low and high 32-bit words are stored at the guest's pointer;
/// it succeeds exactly when those eight bytes are mapped.
pub closed spec fn system_time_outcome(
    pre: &SyscallEmulator,
    post: &SyscallEmulator,
    args: Seq<u32>,
    m0: &MemoryManager,
    m1: &MemoryManager,
    t: u64,
    r: Result<u32, SyscallError>,
) -> bool {
    if args.len() == 0 {
        refused(pre, post, m0, m1, 0, r)
    } else {
        let ptr = args[0] as int;
        &&& kept(post, pre)
        &&& m1.wf()
        &&& m1.same_layout(m0)
        &&& two_stores(
            m0,
            m1,
            ptr,
            le_u32_bytes((t % 0x1_0000_0000) as u32),
            ptr + 4,
            le_u32_bytes((t / 0x1_0000_0000) as u32),
            1,
            r,
        )
        &&& (r is Ok <==> m0.range_mapped(ptr, 8))
        &&& r is Ok ==> r == Ok::<u32, SyscallError>(1)
        &&& r is Err ==> r == Err::<u32, SyscallError>(
            SyscallError::Memory(MemoryError::InvalidPageAddress),
        ) || r == Err::<u32, SyscallError>(SyscallError::AddressOverflow)
    }
}

/// What the call `api` with arguments `args` does, from the state `pre`
/// (whose last error was just reset) and memory `m0`.
pub closed spec fn syscall_outcome(
    pre: &SyscallEmulator,
    post: &SyscallEmulator,
    api: WindowsAPI,
    args: Seq<u32>,
    m0: &MemoryManager,
    m1: &MemoryManager,
    r: Result<u32, SyscallError>,
) -> bool {
    match api {
        WindowsAPI::GetLastError => r == Ok::<u32, SyscallError>(pre.last_error) && kept_with_error(
            post,
            pre,
            0,
        ) && *m1 == *m0,
        WindowsAPI::GetCurrentProcess => answered(pre, post, m0, m1, 0xFFFF_FFFF, r),
        WindowsAPI::GetCurrentThreadId => answered(pre, post, m0, m1, pre.current_thread_id, r),
        WindowsAPI::GetCurrentProcessId => answered(pre, post, m0, m1, pre.current_process_id, r),
        WindowsAPI::VirtualAlloc => virtual_alloc_outcome(pre, post, args, m0, m1, r),
        WindowsAPI::VirtualFree => if args.len() < 2 {
            refused(pre, post, m0, m1, 0, r)
        } else {
            answered(pre, post, m0, m1, 1, r)
        },
        WindowsAPI::VirtualProtect => virtual_protect_outcome(pre, post, args, m0, m1, r),
        WindowsAPI::CreateFileA => create_file_outcome(pre, post, args, m0, m1, r),
        WindowsAPI::ReadFile => read_file_outcome(pre, post, args, m0, m1, r),
        WindowsAPI::WriteFile => write_file_outcome(pre, post, args, m0, m1, r),
        WindowsAPI::CloseHandle => if args.len() == 0 {
            refused(pre, post, m0, m1, 0, r)
        } else {
            &&& r == Ok::<u32, SyscallError>(1)
            &&& *m1 == *m0
            &&& state_is(
                post,
                pre,
                pre.next_file_handle,
                pre.file_handles@.remove(args[0]),
                pre.next_memory_handle,
                pre.memory_allocations@,
                pre.current_thread_id,
                pre.last_error,
            )
        },
        WindowsAPI::GetTickCount => answered(pre, post, m0, m1, (pre.system_time / 1000) as u32, r),
        WindowsAPI::GetSystemTime => exists|t: u64|
            system_time_outcome(pre, post, args, m0, m1, t, r),
        WindowsAPI::ExitProcess => r == Err::<u32, SyscallError>(
            SyscallError::ProcessExit(
                if args.len() > 0 {
                    args[0]
                } else {
                    0
                },
            ),
        ) && kept(post, pre) && *m1 == *m0,
        WindowsAPI::MessageBoxA => if args.len() < 4 {
            refused(pre, post, m0, m1, 0, r)
        } else {
            strings_read(pre, post, m0, m1, seq![args[1], args[2]], false, 1, r)
        },
        WindowsAPI::MessageBoxW => if args.len() < 4 {
            refused(pre, post, m0, m1, 0, r)
        } else {
            strings_read(pre, post, m0, m1, seq![args[1], args[2]], true, 1, r)
        },
        WindowsAPI::GetWindowTextA => window_text_outcome(pre, post, args, false, m0, m1, r),
        WindowsAPI::GetWindowTextW => window_text_outcome(pre, post, args, true, m0, m1, r),
        WindowsAPI::SetWindowTextA => if args.len() < 2 {
            refused(pre, post, m0, m1, 0, r)
        } else {
            strings_read(pre, post, m0, m1, seq![args[1]], false, 1, r)
        },
        WindowsAPI::SetWindowTextW => if args.len() < 2 {
            refused(pre, post, m0, m1, 0, r)
        } else {
            strings_read(pre, post, m0, m1, seq![args[1]], true, 1, r)
        },
        WindowsAPI::CreateThread => create_thread_outcome(pre, post, args, m0, m1, r),
        WindowsAPI::WaitForSingleObject => if args.len() < 2 {
            refused(pre, post, m0, m1, 0xFFFF_FFFF, r)
        } else {
            answered(pre, post, m0, m1, 0, r)
        },
        WindowsAPI::GlobalAlloc => global_alloc_outcome(pre, post, args, m0, m1, r),
        WindowsAPI::GlobalFree => if args.len() == 0 {
            refused(pre, post, m0, m1, 0, r)
        } else {
            answered(pre, post, m0, m1, 0, r)
        },
        WindowsAPI::RegOpenKeyA => reg_open_key_outcome(pre, post, args, m0, m1, r),
        WindowsAPI::RegQueryValueA => reg_query_value_outcome(pre, post, args, m0, m1, r),
        _ => r == Ok::<u32, SyscallError>(0) && kept_with_error(post, pre, ERROR_INVALID_FUNCTION)
            && *m1 == *m0,
    }
}

/// The API that a lower-cased function name selects.
pub open spec fn api_for_lowercase_name(s: Seq<char>) -> WindowsAPI {
    if s == "getlasterror"@ {
        WindowsAPI::GetLastError
    } else if s == "getcurrentprocess"@ {
        WindowsAPI::GetCurrentProcess
    } else if s == "getcurrentthreadid"@ {
        WindowsAPI::GetCurrentThreadId
    } else if s == "getcurrentprocessid"@ {
        WindowsAPI::GetCurrentProcessId
    } else if s == "virtualalloc"@ {
        WindowsAPI::VirtualAlloc
    } else if s == "virtualfree"@ {
        WindowsAPI::VirtualFree
    } else if s == "virtualprotect"@ {
        WindowsAPI::VirtualProtect
    } else if s == "createfilea"@ {
        WindowsAPI::CreateFileA
    } else if s == "readfile"@ {
        WindowsAPI::ReadFile
    } else if s == "writefile"@ {
        WindowsAPI::WriteFile
    } else if s == "closehandle"@ {
        WindowsAPI::CloseHandle
    } else if s == "gettickcount"@ {
        WindowsAPI::GetTickCount
    } else if s == "getsystemtime"@ {
        WindowsAPI::GetSystemTime
    } else if s == "exitprocess"@ {
        WindowsAPI::ExitProcess
    } else if s == "messageboxa"@ {
        WindowsAPI::MessageBoxA
    } else if s == "messageboxw"@ {
        WindowsAPI::MessageBoxW
    } else if s == "getwindowtexta"@ {
        WindowsAPI::GetWindowTextA
    } else if s == "getwindowtextw"@ {
        WindowsAPI::GetWindowTextW
    } else if s == "setwindowtexta"@ {
        WindowsAPI::SetWindowTextA
    } else if s == "setwindowtextw"@ {
        WindowsAPI::SetWindowTextW
    } else if s == "createthread"@ {
        WindowsAPI::CreateThread
    } else if s == "waitforsingleobject"@ {
        WindowsAPI::WaitForSingleObject
    } else if s == "globalalloc"@ {
        WindowsAPI::GlobalAlloc
    } else if s == "globalfree"@ {
        WindowsAPI::GlobalFree
    } else if s == "regopenkeya"@ {
        WindowsAPI::RegOpenKeyA
    } else if s == "regqueryvaluea"@ {
        WindowsAPI::RegQueryValueA
    } else {
        WindowsAPI::Unknown
    }
}

/// The lower-case form of a text, as `str::to_lowercase` gives it.
pub uninterp spec fn lowercase_of(s: Seq<char>) -> Seq<char>;

/// Every character of the text is ASCII.
pub open spec fn is_ascii_text(s: Seq<char>) -> bool {
    forall|i: int| 0 <= i < s.len() ==> (#[trigger] s[i] as u32) < 128
}

/// An ASCII character in lower case: 'A' to 'Z' become 'a' to 'z'.
pub open spec fn ascii_lower_char(c: char) -> char {
    if 'A' <= c <= 'Z' {
        ((c as u32) + 32) as char
    } else {
        c
    }
}

/// An ASCII character in upper case: 'a' to 'z' become 'A' to 'Z'.
pub open spec fn ascii_upper_char(c: char) -> char {
    if 'a' <= c <= 'z' {
        ((c as u32) - 32) as char
    } else {
        c
    }
}

/// A text with its ASCII letters in lower case.
pub open spec fn ascii_lowercase(s: Seq<char>) -> Seq<char> {
    s.map_values(|c: char| ascii_lower_char(c))
}

/// A text with its ASCII letters in upper case.
pub open spec fn ascii_uppercase(s: Seq<char>) -> Seq<char> {
    s.map_values(|c: char| ascii_upper_char(c))
}

/// `str::to_lowercase`: the lower-case mapping of every character. Its
/// result is named `lowercase_of` of the text's characters; what the
/// Unicode mapping gives is not stated, save for ASCII text, where the
/// lower-case mapping takes 'A' to 'Z' to 'a' to 'z' and keeps every other
/// character, as `str::to_ascii_lowercase` does (whose documentation points
/// to `to_lowercase` for lower-casing non-ASCII characters in addition).
#[verifier::external_body]
fn to_lowercase(s: &str) -> (r: String)
    ensures
        r@ == lowercase_of(s@),
        is_ascii_text(s@) ==> r@ == ascii_lowercase(s@),
{
    s.to_lowercase()
}

/// Whether `s` holds the text `lit`.
pub(crate) fn is_text(s: &String, lit: &str) -> (r: bool)
    ensures
        r == (s@ == lit@),
{
    let t = lit.to_owned();
    *s == t
}

/// A string fails to read at one place only: the first character that
/// cannot be read.
proof fn lemma_c_string_fails_once(m: &MemoryManager, addr: int, k: int)
    requires
        c_string_fails_at(m, addr, k),
    ensures
        (choose|j: int| c_string_fails_at(m, addr, j)) == k,
{
    let j = choose|j: int| c_string_fails_at(m, addr, j);
    if j < k {
        assert(m.spec_read_u8(addr + j) is Ok);
    } else if k < j {
        assert(m.spec_read_u8(addr + k) is Ok);
    }
}

/// A wide string fails to read at one place only: the first character that
/// cannot be read.
proof fn lemma_wide_string_fails_once(m: &MemoryManager, addr: int, k: int)
    requires
        wide_string_fails_at(m, addr, k),
    ensures
        (choose|j: int| wide_string_fails_at(m, addr, j)) == k,
{
    let j = choose|j: int| wide_string_fails_at(m, addr, j);
    if j < k {
        assert(m.spec_read_u16(addr + 2 * j) is Ok);
    } else if k < j {
        assert(m.spec_read_u16(addr + 2 * k) is Ok);
    }
}

/// Memories of the same layout map the same addresses.
proof fn lemma_same_mapping(a: &MemoryManager, b: &MemoryManager, addr: int, len: int)
    requires
        b.same_layout(a),
    ensures
        b.range_mapped(addr, len) == a.range_mapped(addr, len),
        forall|x: int| #[trigger] b.is_mapped(x) == a.is_mapped(x),
{
    assert forall|x: int| #[trigger] b.is_mapped(x) == a.is_mapped(x) by {
        if 0 <= x < crate::memory::address_space_end() {
            assert(b.page_map().contains_key(crate::memory::page_base_of(x) as u32) == a.page_map().contains_key(
                crate::memory::page_base_of(x) as u32,
            ));
        }
    }
    if a.range_mapped(addr, len) {
        assert forall|i: int| 0 <= i < len implies #[trigger] b.is_mapped(addr + i) by {
            assert(a.is_mapped(addr + i));
        }
    }
    if b.range_mapped(addr, len) {
        assert forall|i: int| 0 <= i < len implies #[trigger] a.is_mapped(addr + i) by {
            assert(b.is_mapped(addr + i));
        }
    }
}

impl SyscallEmulator {
    /// The handle the next opened file (or thread, or registry key) gets.
    pub closed spec fn spec_next_file_handle(&self) -> u32 {
        self.next_file_handle
    }

    /// The open files, by handle.
    pub closed spec fn spec_file_handles(&self) -> Map<u32, FileHandle> {
        self.file_handles@
    }

    /// The handle the next memory allocation gets.
    pub closed spec fn spec_next_memory_handle(&self) -> u32 {
        self.next_memory_handle
    }

    /// The recorded memory allocations, by handle.
    pub closed spec fn spec_memory_allocations(&self) -> Map<u32, MemoryAllocation> {
        self.memory_allocations@
    }

    /// The id of the current (last created) thread.
    pub closed spec fn spec_current_thread_id(&self) -> u32 {
        self.current_thread_id
    }

    /// The id of the emulated process.
    pub closed spec fn spec_current_process_id(&self) -> u32 {
        self.current_process_id
    }

    /// The last error code.
    pub closed spec fn spec_last_error(&self) -> u32 {
        self.last_error
    }

    /// The start time, in milliseconds since the Unix epoch.
    pub closed spec fn spec_system_time(&self) -> u64 {
        self.system_time
    }

    /// Every open file's handle was handed out before: it lies below the
    /// next handle.
    pub closed spec fn wf(&self) -> bool {
        forall|h: u32| #[trigger] self.file_handles@.contains_key(h) ==> h < self.next_file_handle
    }

    /// Creates a new system call emulator
    pub fn new() -> (r: Self)
        ensures
            r.wf(),
            r.spec_next_file_handle() == 1000,
            r.spec_file_handles().is_empty(),
            r.spec_next_memory_handle() == 2000,
            r.spec_memory_allocations().is_empty(),
            r.spec_current_thread_id() == 1,
            r.spec_current_process_id() == 100,
            r.spec_last_error() == 0,
    {
        SyscallEmulator {
            next_file_handle: 1000,
            file_handles: HashMap::new(),
            next_memory_handle: 2000,
            memory_allocations: HashMap::new(),
            current_thread_id: 1,
            current_process_id: 100,
            last_error: 0,
            system_time: unix_millis(),
            registry: HashMap::new(),
        }
    }

    /// Handles GetLastError(): answers the last error and clears it.
    pub fn handle_get_last_error(&mut self) -> (r: u32)
        ensures
            r == old(self).spec_last_error(),
            kept_with_error(final(self), old(self), 0),
    {
        let error = self.last_error;
        self.last_error = 0;
        error
    }

    /// Handles GetCurrentProcess(): the pseudo handle of the current process.
    fn handle_get_current_process(&self) -> (r: u32)
        ensures
            r == 0xFFFF_FFFFu32,
    {
        0xFFFF_FFFF
    }

    /// Handles GetCurrentThreadId()
    fn handle_get_current_thread_id(&self) -> (r: u32)
        ensures
            r == self.current_thread_id,
    {
        self.current_thread_id
    }

    /// Handles GetCurrentProcessId()
    fn handle_get_current_process_id(&self) -> (r: u32)
        ensures
            r == self.current_process_id,
    {
        self.current_process_id
    }

    /// Handles VirtualFree(): accepted without freeing anything.
    fn handle_virtual_free(&mut self, args: &[u32]) -> (r: Result<u32, SyscallError>)
        ensures
            args@.len() < 2 ==> r == Ok::<u32, SyscallError>(0) && kept_with_error(
                final(self),
                old(self),
                ERROR_INVALID_PARAMETER,
            ),
            args@.len() >= 2 ==> r == Ok::<u32, SyscallError>(1) && kept(final(self), old(self)),
    {
        if args.len() < 2 {
            self.last_error = ERROR_INVALID_PARAMETER;
            return Ok(0);
        }
        Ok(1)
    }

    /// Handles CloseHandle(): forgets the file handle, if there is one.
    fn handle_close_handle(&mut self, args: &[u32]) -> (r: Result<u32, SyscallError>)
        ensures
            args@.len() == 0 ==> r == Ok::<u32, SyscallError>(0) && kept_with_error(
                final(self),
                old(self),
                ERROR_INVALID_PARAMETER,
            ),
            args@.len() > 0 ==> r == Ok::<u32, SyscallError>(1) && state_is(
                final(self),
                old(self),
                old(self).next_file_handle,
                old(self).file_handles@.remove(args@[0]),
                old(self).next_memory_handle,
                old(self).memory_allocations@,
                old(self).current_thread_id,
                old(self).last_error,
            ),
    {
        if args.len() == 0 {
            self.last_error = ERROR_INVALID_PARAMETER;
            return Ok(0);
        }
        let handle = args[0];
        self.file_handles.remove(&handle);
        Ok(1)
    }

    /// Handles GetTickCount(): the start time in seconds, truncated to 32 bits.
    fn handle_get_tick_count(&self) -> (r: u32)
        ensures
            r == (self.system_time / 1000) as u32,
    {
        (self.system_time / 1000) as u32
    }

    /// Handles ExitProcess(): reports the exit code that ends the program.
    fn handle_exit_process(&mut self, args: &[u32]) -> (r: Result<u32, SyscallError>)
        ensures
            r == Err::<u32, SyscallError>(
                SyscallError::ProcessExit(if args@.len() > 0 { args@[0] } else { 0 }),
            ),
            kept(final(self), old(self)),
    {
        let exit_code = if args.len() > 0 {
            args[0]
        } else {
            0
        };
        Err(SyscallError::ProcessExit(exit_code))
    }

    /// Handles WaitForSingleObject(): every object is signalled at once.
    fn handle_wait_for_single_object(&mut self, args: &[u32]) -> (r: Result<u32, SyscallError>)
        ensures
            args@.len() < 2 ==> r == Ok::<u32, SyscallError>(0xFFFF_FFFF) && kept_with_error(
                final(self),
                old(self),
                ERROR_INVALID_PARAMETER,
            ),
            args@.len() >= 2 ==> r == Ok::<u32, SyscallError>(0) && kept(final(self), old(self)),
    {
        if args.len() < 2 {
            self.last_error = ERROR_INVALID_PARAMETER;
            return Ok(0xFFFF_FFFF);  // WAIT_FAILED
        }
        Ok(0)  // WAIT_OBJECT_0
    }

    /// Handles GlobalFree(): accepted without freeing anything.
    fn handle_global_free(&mut self, args: &[u32]) -> (r: Result<u32, SyscallError>)
        ensures
            args@.len() == 0 ==> r == Ok::<u32, SyscallError>(0) && kept_with_error(
                final(self),
                old(self),
                ERROR_INVALID_PARAMETER,
            ),
            args@.len() > 0 ==> r == Ok::<u32, SyscallError>(0) && kept(final(self), old(self)),
    {
        if args.len() == 0 {
            self.last_error = ERROR_INVALID_PARAMETER;
            return Ok(0);
        }
        Ok(0)
    }

    /// Reads a null-terminated ASCII string from memory
    fn read_string_from_memory(&self, address: u32, memory: &MemoryManager) -> (r: Result<
        Vec<u8>,
        SyscallError,
    >)
        requires
            memory.wf(),
        ensures
            match r {
                Ok(s) => c_string_at(memory, address as int, s@),
                Err(e) => e == SyscallError::Memory(string_error(memory, address, false)) && exists|
                    k: int,
                | c_string_fails_at(memory, address as int, k),
            },
    {
        let mut string: Vec<u8> = Vec::new();
        let mut current_address: u64 = address as u64;
        loop
            invariant
                memory.wf(),
                current_address == address + string@.len(),
                current_address <= 0x1_0000_0000u64,
                forall|j: int|
                    0 <= j < string@.len() ==> #[trigger] memory.spec_read_u8(address + j)
                        == Ok::<u8, MemoryError>(string@[j]) && string@[j] != 0,
            decreases 0x1_0000_0000u64 - current_address,
        {
            if current_address >= 0x1_0000_0000u64 {
                assert(c_string_fails_at(memory, address as int, string@.len() as int));
                proof {
                    lemma_c_string_fails_once(memory, address as int, string@.len() as int);
                }
                return Err(SyscallError::Memory(MemoryError::InvalidPageAddress));
            }
            let byte = match memory.read_u8(current_address as u32) {
                Ok(b) => b,
                Err(e) => {
                    assert(c_string_fails_at(memory, address as int, string@.len() as int));
                    proof {
                        lemma_c_string_fails_once(memory, address as int, string@.len() as int);
                    }
                    return Err(SyscallError::Memory(e));
                },
            };
            if byte == 0 {
                return Ok(string);
            }
            string.push(byte);
            current_address = current_address + 1;
        }
    }

    /// Reads a null-terminated UTF-16 string from memory, keeping ASCII
    /// units and replacing the others with U+FFFD.
    fn read_wide_string_from_memory(&self, address: u32, memory: &MemoryManager) -> (r: Result<
        Vec<u16>,
        SyscallError,
    >)
        requires
            memory.wf(),
        ensures
            match r {
                Ok(s) => exists|units: Seq<u16>|
                    wide_string_at(memory, address as int, units) && s@ == units.map_values(
                        |u: u16| narrow_unit(u),
                    ),
                Err(e) => e == SyscallError::Memory(string_error(memory, address, true)) && exists|
                    k: int,
                | wide_string_fails_at(memory, address as int, k),
            },
    {
        let mut string: Vec<u16> = Vec::new();
        let ghost mut units: Seq<u16> = Seq::empty();
        let mut current_address: u64 = address as u64;
        loop
            invariant
                memory.wf(),
                current_address == address + 2 * units.len(),
                current_address <= 0x1_0000_0001u64,
                string@ == units.map_values(|u: u16| narrow_unit(u)),
                forall|j: int|
                    0 <= j < units.len() ==> #[trigger] memory.spec_read_u16(address + 2 * j)
                        == Ok::<u16, MemoryError>(units[j]) && units[j] != 0,
            decreases 0x1_0000_0001u64 - current_address,
        {
            if current_address >= 0x1_0000_0000u64 {
                assert(!memory.is_mapped(current_address as int));
                assert(!memory.is_readable(current_address as int));
                assert(wide_string_fails_at(memory, address as int, units.len() as int));
                proof {
                    lemma_wide_string_fails_once(memory, address as int, units.len() as int);
                    memory.lemma_has_first_unreadable(current_address as int, 2);
                    let f = memory.first_unreadable(current_address as int, 2);
                    assert(!memory.is_mapped(current_address + f));
                }
                return Err(SyscallError::Memory(MemoryError::InvalidPageAddress));
            }
            let wide_char = match memory.read_u16(current_address as u32) {
                Ok(w) => w,
                Err(e) => {
                    assert(wide_string_fails_at(memory, address as int, units.len() as int));
                    proof {
                        lemma_wide_string_fails_once(memory, address as int, units.len() as int);
                    }
                    return Err(SyscallError::Memory(e));
                },
            };
            if wide_char == 0 {
                assert(wide_string_at(memory, address as int, units));
                return Ok(string);
            }
            if wide_char <= 0x7F {
                string.push(wide_char);
            } else {
                string.push(0xFFFD);
            }
            proof {
                units = units.push(wide_char);
            }
            assert(string@ =~= units.map_values(|u: u16| narrow_unit(u)));
            current_address = current_address + 2;
        }
    }
    /// Reads the string at `ptr` unless it is null, failing the call when it
    /// cannot be read.
    fn read_optional_string(&self, ptr: u32, wide: bool, memory: &MemoryManager) -> (r: Result<
        (),
        SyscallError,
    >)
        requires
            memory.wf(),
        ensures
            r is Ok <==> if wide {
                wide_string_readable(memory, ptr)
            } else {
                string_readable(memory, ptr)
            },
            r is Err ==> r == Err::<(), SyscallError>(
                SyscallError::Memory(string_error(memory, ptr, wide)),
            ),
    {
        if ptr == 0 {
            return Ok(());
        }
        if wide {
            match self.read_wide_string_from_memory(ptr, memory) {
                Ok(_) => Ok(()),
                Err(e) => {
                    proof {
                        let k = choose|k: int| wide_string_fails_at(memory, ptr as int, k);
                        assert forall|u: Seq<u16>| !wide_string_at(memory, ptr as int, u) by {
                            if wide_string_at(memory, ptr as int, u) {
                                if k < u.len() {
                                    assert(memory.spec_read_u16(ptr + 2 * k) is Ok);
                                } else if k == u.len() {
                                } else {
                                    assert(memory.spec_read_u16(ptr + 2 * u.len()) matches Ok(
                                        x,
                                    ) && x != 0);
                                }
                            }
                        }
                    }
                    Err(e)
                },
            }
        } else {
            match self.read_string_from_memory(ptr, memory) {
                Ok(_) => Ok(()),
                Err(e) => {
                    proof {
                        let k = choose|k: int| c_string_fails_at(memory, ptr as int, k);
                        assert forall|t: Seq<u8>| !c_string_at(memory, ptr as int, t) by {
                            if c_string_at(memory, ptr as int, t) {
                                if k < t.len() {
                                    assert(memory.spec_read_u8(ptr + k) is Ok);
                                } else if k == t.len() {
                                } else {
                                    assert(memory.spec_read_u8(ptr + t.len()) matches Ok(x) && x
                                        != 0);
                                }
                            }
                        }
                    }
                    Err(e)
                },
            }
        }
    }

    /// Handles MessageBoxA(): the message is read and acknowledged with IDOK.
    fn handle_message_box_a(&mut self, args: &[u32], memory: &MemoryManager) -> (r: Result<
        u32,
        SyscallError,
    >)
        requires
            memory.wf(),
        ensures
            args@.len() < 4 ==> refused(old(self), final(self), memory, memory, 0, r),
            args@.len() >= 4 ==> strings_read(
                old(self),
                final(self),
                memory,
                memory,
                seq![args@[1], args@[2]],
                false,
                1,
                r,
            ),
    {
        self.handle_message_box(args, false, memory)
    }

    /// Handles MessageBoxW() (Unicode version)
    fn handle_message_box_w(&mut self, args: &[u32], memory: &MemoryManager) -> (r: Result<
        u32,
        SyscallError,
    >)
        requires
            memory.wf(),
        ensures
            args@.len() < 4 ==> refused(old(self), final(self), memory, memory, 0, r),
            args@.len() >= 4 ==> strings_read(
                old(self),
                final(self),
                memory,
                memory,
                seq![args@[1], args@[2]],
                true,
                1,
                r,
            ),
    {
        self.handle_message_box(args, true, memory)
    }

    /// A message box: text and caption are read, and IDOK is answered.
    fn handle_message_box(&mut self, args: &[u32], wide: bool, memory: &MemoryManager) -> (r:
        Result<u32, SyscallError>)
        requires
            memory.wf(),
        ensures
            args@.len() < 4 ==> refused(old(self), final(self), memory, memory, 0, r),
            args@.len() >= 4 ==> strings_read(
                old(self),
                final(self),
                memory,
                memory,
                seq![args@[1], args@[2]],
                wide,
                1,
                r,
            ),
    {
        if args.len() < 4 {
            self.last_error = ERROR_INVALID_PARAMETER;
            return Ok(0);
        }
        let text_ptr = args[1];
        let caption_ptr = args[2];
        let ghost ptrs = seq![text_ptr, caption_ptr];
        match self.read_optional_string(text_ptr, wide, memory) {
            Ok(()) => {},
            Err(e) => {
                assert(!(if wide {
                    wide_string_readable(memory, ptrs[0])
                } else {
                    string_readable(memory, ptrs[0])
                }));
                return Err(e);
            },
        }
        match self.read_optional_string(caption_ptr, wide, memory) {
            Ok(()) => {},
            Err(e) => {
                assert(!(if wide {
                    wide_string_readable(memory, ptrs[1])
                } else {
                    string_readable(memory, ptrs[1])
                }));
                return Err(e);
            },
        }
        Ok(1)  // IDOK
    }

    /// Handles SetWindowTextA(): the text is read and the call succeeds.
    fn handle_set_window_text_a(&mut self, args: &[u32], memory: &MemoryManager) -> (r: Result<
        u32,
        SyscallError,
    >)
        requires
            memory.wf(),
        ensures
            args@.len() < 2 ==> refused(old(self), final(self), memory, memory, 0, r),
            args@.len() >= 2 ==> strings_read(
                old(self),
                final(self),
                memory,
                memory,
                seq![args@[1]],
                false,
                1,
                r,
            ),
    {
        if args.len() < 2 {
            self.last_error = ERROR_INVALID_PARAMETER;
            return Ok(0);
        }
        let text_ptr = args[1];
        let ghost ptrs = seq![text_ptr];
        match self.read_optional_string(text_ptr, false, memory) {
            Ok(()) => {},
            Err(e) => {
                assert(!string_readable(memory, ptrs[0]));
                return Err(e);
            },
        }
        Ok(1)
    }

    /// Handles SetWindowTextW(): the wide text is read; nothing is shown.
    fn handle_set_window_text_w(&mut self, args: &[u32], memory: &MemoryManager) -> (r: Result<
        u32,
        SyscallError,
    >)
        requires
            memory.wf(),
        ensures
            args@.len() < 2 ==> refused(old(self), final(self), memory, memory, 0, r),
            args@.len() >= 2 ==> strings_read(
                old(self),
                final(self),
                memory,
                memory,
                seq![args@[1]],
                true,
                1,
                r,
            ),
    {
        if args.len() < 2 {
            self.last_error = ERROR_INVALID_PARAMETER;
            return Ok(0);
        }
        let text_ptr = args[1];
        let ghost ptrs = seq![text_ptr];
        match self.read_optional_string(text_ptr, true, memory) {
            Ok(()) => {},
            Err(e) => {
                assert(!wide_string_readable(memory, ptrs[0]));
                return Err(e);
            },
        }
        Ok(1)
    }

    /// Handles GetWindowTextA(): the window text is empty.
    fn handle_get_window_text_a(&mut self, args: &[u32], memory: &mut MemoryManager) -> (r: Result<
        u32,
        SyscallError,
    >)
        requires
            old(memory).wf(),
        ensures
            final(memory).wf(),
            window_text_outcome(old(self), final(self), args@, false, old(memory), final(memory), r),
    {
        if args.len() < 3 {
            self.last_error = ERROR_INVALID_PARAMETER;
            return Ok(0);
        }
        let buffer_ptr = args[1];
        let buffer_size = args[2];
        if buffer_size > 0 && buffer_ptr != 0 {
            // Null terminator
            match memory.write_u8(buffer_ptr, 0) {
                Ok(()) => {},
                Err(e) => return Err(SyscallError::Memory(e)),
            }
        }
        Ok(0)
    }

    /// Handles GetWindowTextW(): the window text is empty.
    fn handle_get_window_text_w(&mut self, args: &[u32], memory: &mut MemoryManager) -> (r: Result<
        u32,
        SyscallError,
    >)
        requires
            old(memory).wf(),
        ensures
            final(memory).wf(),
            window_text_outcome(old(self), final(self), args@, true, old(memory), final(memory), r),
    {
        if args.len() < 3 {
            self.last_error = ERROR_INVALID_PARAMETER;
            return Ok(0);
        }
        let buffer_ptr = args[1];
        let buffer_size = args[2];
        if buffer_size > 0 && buffer_ptr != 0 {
            // Null terminator
            match memory.write_u16(buffer_ptr, 0) {
                Ok(()) => {},
                Err(e) => return Err(SyscallError::Memory(e)),
            }
        }
        Ok(0)
    }

    /// Handles WriteFile(): the data goes nowhere; the count is reported.
    fn handle_write_file(&mut self, args: &[u32], memory: &mut MemoryManager) -> (r: Result<
        u32,
        SyscallError,
    >)
        requires
            old(memory).wf(),
        ensures
            final(memory).wf(),
            write_file_outcome(old(self), final(self), args@, old(memory), final(memory), r),
    {
        if args.len() < 4 {
            self.last_error = ERROR_INVALID_PARAMETER;
            return Ok(0);
        }
        let handle = args[0];
        let bytes_to_write = args[2];
        let bytes_written_ptr = args[3];
        if !self.file_handles.contains_key(&handle) {
            self.last_error = ERROR_INVALID_HANDLE;
            return Ok(0);
        }
        if bytes_written_ptr != 0 {
            match memory.write_u32(bytes_written_ptr, bytes_to_write) {
                Ok(()) => {},
                Err(e) => return Err(SyscallError::Memory(e)),
            }
        }
        Ok(1)
    }
    /// Handles ReadFile(): the buffer is filled with zeros.
    fn handle_read_file(&mut self, args: &[u32], memory: &mut MemoryManager) -> (r: Result<
        u32,
        SyscallError,
    >)
        requires
            old(memory).wf(),
        ensures
            final(memory).wf(),
            read_file_outcome(old(self), final(self), args@, old(memory), final(memory), r),
    {
        if args.len() < 4 {
            self.last_error = ERROR_INVALID_PARAMETER;
            return Ok(0);
        }
        let handle = args[0];
        let buffer = args[1];
        let bytes_to_read = args[2];
        let bytes_read_ptr = args[3];
        if !self.file_handles.contains_key(&handle) {
            self.last_error = ERROR_INVALID_HANDLE;
            return Ok(0);
        }
        let ghost m0 = *old(memory);
        proof {
            MemoryManager::lemma_wrote_nothing(&m0, buffer as int);
            assert(zeros(0) =~= Seq::<u8>::empty());
        }
        let mut i: u32 = 0;
        while i < bytes_to_read
            invariant
                m0 == *old(memory),
                m0.wf(),
                args@.len() >= 4,
                buffer == args@[1],
                bytes_to_read == args@[2],
                bytes_read_ptr == args@[3],
                old(self).file_handles@.contains_key(args@[0]),
                kept(self, old(self)),
                memory.wf(),
                memory.same_layout(&m0),
                memory.wrote(&m0, buffer as int, zeros(i as int)),
                i <= bytes_to_read,
                m0.range_mapped(buffer as int, i as int),
            decreases bytes_to_read - i,
        {
            let address = match buffer.checked_add(i) {
                Some(a) => a,
                None => {
                    assert(!m0.is_mapped(buffer + i));
                    assert(!m0.range_mapped(buffer as int, bytes_to_read as int));
                    assert(memory.wrote(&m0, buffer as int, zeros(i as int)));
                    return Err(SyscallError::AddressOverflow);
                },
            };
            let ghost pre = *memory;
            let res = memory.write_u8(address, 0);
            proof {
                crate::pe::lemma_write_keeps_layout(memory, &pre, address as int, seq![0u8], res);
                crate::pe::lemma_same_layout_trans(&m0, &pre, memory);
            }
            match res {
                Ok(()) => {
                    proof {
                        assert(m0.range_mapped(buffer as int, i + 1)) by {
                            assert(pre.is_mapped(address + 0));
                        }
                        MemoryManager::lemma_wrote_extend(&m0, &pre, memory, buffer as int, zeros(i as int), 0u8);
                        assert(zeros(i as int).push(0u8) =~= zeros(i + 1));
                    }
                    assert(m0.range_mapped(buffer as int, i + 1)) by {
                        assert(pre.is_mapped(address + 0));
                    }
                },
                Err(e) => {
                    assert(!pre.is_mapped(address + 0));
                    proof {
                        lemma_same_mapping(&m0, &pre, 0, 0);
                    }
                    assert(!m0.is_mapped(buffer + i));
                    assert(!m0.range_mapped(buffer as int, bytes_to_read as int));
                    proof {
                        assert(seq![0u8].take(0) =~= Seq::<u8>::empty());
                        let f = choose|f: int|
                            0 <= f < 1 && !pre.is_mapped(address + f) && pre.range_mapped(address as int, f)
                                && #[trigger] memory.wrote(&pre, address as int, seq![0u8].take(f));
                        assert(f == 0);
                        assert(zeros(i as int).len() == i);
                        MemoryManager::lemma_wrote_then_nothing(&m0, &pre, memory, buffer as int, zeros(i as int), address as int);
                    }
                    return Err(SyscallError::Memory(e));
                },
            }
            i = i + 1;
        }
        if bytes_read_ptr != 0 {
            let ghost pre = *memory;
            let res = memory.write_u32(bytes_read_ptr, bytes_to_read);
            proof {
                crate::pe::lemma_write_keeps_layout(
                    memory,
                    &pre,
                    bytes_read_ptr as int,
                    le_u32_bytes(bytes_to_read),
                    res,
                );
                crate::pe::lemma_same_layout_trans(&m0, &pre, memory);
            }
            match res {
                Ok(()) => {},
                Err(e) => {
                    proof {
                        lemma_same_mapping(&m0, &pre, bytes_read_ptr as int, 4);
                    }
                    return Err(SyscallError::Memory(e));
                },
            }
            proof {
                lemma_same_mapping(&m0, &pre, bytes_read_ptr as int, 4);
            }
        }
        Ok(1)
    }

    /// Handles VirtualAlloc(): allocates at the given address, or anywhere
    /// when it is 0, and records the allocation.
    pub fn handle_virtual_alloc(&mut self, args: &[u32], memory: &mut MemoryManager) -> (r: Result<
        u32,
        SyscallError,
    >)
        requires
            old(memory).wf(),
        ensures
            final(memory).wf(),
            virtual_alloc_outcome(old(self), final(self), args@, old(memory), final(memory), r),
    {
        if args.len() < 3 {
            self.last_error = ERROR_INVALID_PARAMETER;
            return Ok(0);
        }
        let address = args[0];
        let size = args[1];
        let protect = if args.len() > 3 {
            args[3]
        } else {
            0x40
        };  // PAGE_EXECUTE_READWRITE
        if self.next_memory_handle == u32::MAX {
            return Err(SyscallError::HandleExhausted);
        }
        let allocated_address = if address == 0 {
            match memory.allocate(size, MemoryProtection::read_write()) {
                Ok(a) => a,
                Err(e) => return Err(SyscallError::Memory(e)),
            }
        } else {
            match memory.allocate_at(address, size, MemoryProtection::read_write()) {
                Ok(a) => a,
                Err(e) => return Err(SyscallError::Memory(e)),
            }
        };
        // Track allocation
        let handle = self.next_memory_handle;
        self.memory_allocations.insert(
            handle,
            MemoryAllocation { address: allocated_address, size, protection: protect },
        );
        self.next_memory_handle = handle + 1;
        Ok(allocated_address)
    }

    /// Handles GlobalAlloc(): allocates anywhere.
    fn handle_global_alloc(&mut self, args: &[u32], memory: &mut MemoryManager) -> (r: Result<
        u32,
        SyscallError,
    >)
        requires
            old(memory).wf(),
        ensures
            final(memory).wf(),
            global_alloc_outcome(old(self), final(self), args@, old(memory), final(memory), r),
    {
        if args.len() < 2 {
            self.last_error = ERROR_INVALID_PARAMETER;
            return Ok(0);
        }
        let size = args[1];
        match memory.allocate(size, MemoryProtection::read_write()) {
            Ok(a) => Ok(a),
            Err(e) => Err(SyscallError::Memory(e)),
        }
    }

    /// Handles VirtualProtect()
    fn handle_virtual_protect(&mut self, args: &[u32], memory: &mut MemoryManager) -> (r: Result<
        u32,
        SyscallError,
    >)
        requires
            old(memory).wf(),
        ensures
            final(memory).wf(),
            virtual_protect_outcome(old(self), final(self), args@, old(memory), final(memory), r),
    {
        if args.len() < 3 {
            self.last_error = ERROR_INVALID_PARAMETER;
            return Ok(0);
        }
        let address = args[0];
        let size = args[1];
        let new_protect = args[2];
        // Convert Windows protection flags to our MemoryProtection
        let protection = match new_protect {
            0x01 => MemoryProtection::read_only(),  // PAGE_READONLY
            0x02 => MemoryProtection::read_write(),  // PAGE_READWRITE
            0x04 => MemoryProtection::read_write(),  // PAGE_READWRITE
            0x10 => MemoryProtection::execute_read(),  // PAGE_EXECUTE_READ
            0x20 => MemoryProtection::execute_read_write(),  // PAGE_EXECUTE_READWRITE
            0x40 => MemoryProtection::execute_read_write(),  // PAGE_EXECUTE_READWRITE
            _ => MemoryProtection::read_write(),
        };
        match memory.protect(address, size, protection) {
            Ok(()) => {},
            Err(e) => return Err(SyscallError::Memory(e)),
        }
        Ok(1)
    }
    /// Handles CreateFileA(): opens a handle for the named file.
    fn handle_create_file_a(&mut self, args: &[u32], memory: &MemoryManager) -> (r: Result<
        u32,
        SyscallError,
    >)
        requires
            memory.wf(),
        ensures
            create_file_outcome(old(self), final(self), args@, memory, memory, r),
    {
        if args.len() < 5 {
            self.last_error = ERROR_INVALID_PARAMETER;
            return Ok(0xFFFF_FFFF);  // INVALID_HANDLE_VALUE
        }
        let filename_ptr = args[0];
        // Read filename from memory
        let filename = match self.read_string_from_memory(filename_ptr, memory) {
            Ok(f) => f,
            Err(e) => {
                proof {
                    let k = choose|k: int| c_string_fails_at(memory, filename_ptr as int, k);
                    assert forall|t: Seq<u8>| !c_string_at(memory, filename_ptr as int, t) by {
                        if c_string_at(memory, filename_ptr as int, t) {
                            if k < t.len() {
                                assert(memory.spec_read_u8(filename_ptr + k) is Ok);
                            } else if k > t.len() {
                                assert(memory.spec_read_u8(filename_ptr + t.len()) matches Ok(x)
                                    && x != 0);
                            }
                        }
                    }
                }
                return Err(e);
            },
        };
        let handle = self.next_file_handle;
        if handle == u32::MAX {
            return Err(SyscallError::HandleExhausted);
        }
        self.next_file_handle = handle + 1;
        self.file_handles.insert(
            handle,
            FileHandle { id: handle, path: filename, mode: FileMode::ReadWrite, position: 0 },
        );
        Ok(handle)
    }

    /// Handles CreateThread(): takes the next thread id without running a
    /// thread.
    fn handle_create_thread(&mut self, args: &[u32], memory: &mut MemoryManager) -> (r: Result<
        u32,
        SyscallError,
    >)
        requires
            old(memory).wf(),
        ensures
            final(memory).wf(),
            create_thread_outcome(old(self), final(self), args@, old(memory), final(memory), r),
    {
        if args.len() < 6 {
            self.last_error = ERROR_INVALID_PARAMETER;
            return Ok(0);
        }
        let thread_id_ptr = args[5];
        // Generate new thread ID
        if self.current_thread_id == u32::MAX {
            return Err(SyscallError::HandleExhausted);
        }
        let thread_id = self.current_thread_id + 1;
        self.current_thread_id = thread_id;
        // Write thread ID if requested
        if thread_id_ptr != 0 {
            match memory.write_u32(thread_id_ptr, thread_id) {
                Ok(()) => {},
                Err(e) => return Err(SyscallError::Memory(e)),
            }
        }
        // A handle for the thread
        let thread_handle = self.next_file_handle;
        if thread_handle == u32::MAX {
            return Err(SyscallError::HandleExhausted);
        }
        self.next_file_handle = thread_handle + 1;
        Ok(thread_handle)
    }

    /// Handles RegOpenKeyA(): every key opens.
    fn handle_reg_open_key_a(&mut self, args: &[u32], memory: &mut MemoryManager) -> (r: Result<
        u32,
        SyscallError,
    >)
        requires
            old(memory).wf(),
        ensures
            final(memory).wf(),
            reg_open_key_outcome(old(self), final(self), args@, old(memory), final(memory), r),
    {
        if args.len() < 3 {
            self.last_error = ERROR_INVALID_PARAMETER;
            return Ok(0);
        }
        let subkey_ptr = args[1];
        let result_handle_ptr = args[2];
        // Read subkey from memory
        match self.read_optional_string(subkey_ptr, false, memory) {
            Ok(()) => {},
            Err(e) => return Err(e),
        }
        let handle = self.next_file_handle;
        if handle == u32::MAX {
            return Err(SyscallError::HandleExhausted);
        }
        self.next_file_handle = handle + 1;
        if result_handle_ptr != 0 {
            match memory.write_u32(result_handle_ptr, handle) {
                Ok(()) => {},
                Err(e) => return Err(SyscallError::Memory(e)),
            }
        }
        Ok(0)  // ERROR_SUCCESS
    }

    /// Handles RegQueryValueA(): every value is empty.
    fn handle_reg_query_value_a(&mut self, args: &[u32], memory: &mut MemoryManager) -> (r: Result<
        u32,
        SyscallError,
    >)
        requires
            old(memory).wf(),
        ensures
            final(memory).wf(),
            reg_query_value_outcome(old(self), final(self), args@, old(memory), final(memory), r),
    {
        if args.len() < 4 {
            self.last_error = ERROR_INVALID_PARAMETER;
            return Ok(2);  // ERROR_FILE_NOT_FOUND
        }
        let value_name_ptr = args[1];
        let data_ptr = args[2];
        let data_size_ptr = args[3];
        // Read value name from memory
        match self.read_optional_string(value_name_ptr, false, memory) {
            Ok(()) => {},
            Err(e) => return Err(e),
        }
        if data_size_ptr != 0 {
            let current_size = match memory.read_u32(data_size_ptr) {
                Ok(v) => v,
                Err(e) => return Err(SyscallError::Memory(e)),
            };
            if current_size > 0 && data_ptr != 0 {
                let ghost m0 = *memory;
                assert(m0.range_mapped(data_size_ptr as int, 4)) by {
                    assert forall|i: int| 0 <= i < 4 implies #[trigger] m0.is_mapped(data_size_ptr + i) by {
                        assert(m0.is_readable(data_size_ptr + i));
                    }
                }
                let res = memory.write_u8(data_ptr, 0);
                match res {
                    Ok(()) => {},
                    Err(e) => {
                        proof {
                            assert(seq![0u8].take(0) =~= Seq::<u8>::empty());
                            let f = choose|f: int|
                                0 <= f < 1 && !m0.is_mapped(data_ptr + f) && m0.range_mapped(
                                    data_ptr as int,
                                    f,
                                ) && #[trigger] memory.wrote(&m0, data_ptr as int, seq![0u8].take(f));
                            assert(f == 0);
                            assert(memory.wrote(&m0, data_ptr as int, Seq::empty()));
                            assert(!m0.is_mapped(data_ptr as int));
                        }
                        return Err(SyscallError::Memory(e));
                    },
                }
                let ghost m1 = *memory;
                assert(m0.is_mapped(data_ptr + 0));
                proof {
                    crate::pe::lemma_write_keeps_layout(memory, &m0, data_ptr as int, seq![0u8], res);
                    lemma_same_mapping(&m0, &m1, data_size_ptr as int, 4);
                }
                let res2 = memory.write_u32(data_size_ptr, 1);
                proof {
                    crate::pe::lemma_write_keeps_layout(
                        memory,
                        &m1,
                        data_size_ptr as int,
                        le_u32_bytes(1),
                        res2,
                    );
                    crate::pe::lemma_same_layout_trans(&m0, &m1, memory);
                }
                assert(m1.write_outcome(&m0, data_ptr as int, seq![0u8], store_answer(&m0, data_ptr as int, 1)));
                assert(le_u32_bytes(1).len() == 4);
                assert(two_stores(
                    &m0,
                    memory,
                    data_ptr as int,
                    seq![0u8],
                    data_size_ptr as int,
                    le_u32_bytes(1),
                    0,
                    match res2 {
                        Ok(()) => Ok::<u32, SyscallError>(0),
                        Err(e) => Err::<u32, SyscallError>(SyscallError::Memory(e)),
                    },
                ));
                match res2 {
                    Ok(()) => {},
                    Err(e) => return Err(SyscallError::Memory(e)),
                }
            }
        }
        Ok(0)  // ERROR_SUCCESS
    }

    /// Stores the time `file_time` (milliseconds since the Unix epoch) as
    /// two 32-bit words at the guest's pointer.
    pub fn write_file_time(&mut self, args: &[u32], file_time: u64, memory: &mut MemoryManager) -> (r:
        Result<u32, SyscallError>)
        requires
            old(memory).wf(),
        ensures
            final(memory).wf(),
            system_time_outcome(old(self), final(self), args@, old(memory), final(memory), file_time, r),
    {
        if args.len() == 0 {
            self.last_error = ERROR_INVALID_PARAMETER;
            return Ok(0);
        }
        let system_time_ptr = args[0];
        let low = (file_time & 0xFFFF_FFFF) as u32;
        let high = (file_time >> 32) as u32;
        assert(low == (file_time % 0x1_0000_0000) as u32 && high == (file_time / 0x1_0000_0000) as u32)
            by (bit_vector)
            requires
                low == (file_time & 0xFFFF_FFFF) as u32,
                high == (file_time >> 32) as u32,
        ;
        let ghost m0 = *memory;
        let res = memory.write_u32(system_time_ptr, low);
        proof {
            crate::pe::lemma_write_keeps_layout(memory, &m0, system_time_ptr as int, le_u32_bytes(low), res);
            lemma_same_mapping(&m0, memory, system_time_ptr as int, 8);
        }
        match res {
            Ok(()) => {},
            Err(e) => {
                assert(!m0.range_mapped(system_time_ptr as int, 8)) by {
                    if m0.range_mapped(system_time_ptr as int, 8) {
                        assert forall|i: int| 0 <= i < 4 implies #[trigger] m0.is_mapped(system_time_ptr + i) by {
                            assert(m0.is_mapped(system_time_ptr + i));
                        }
                    }
                }
                return Err(SyscallError::Memory(e));
            },
        }
        let ghost m1 = *memory;
        assert(le_u32_bytes(low).len() == 4);
        assert(m1.write_outcome(&m0, system_time_ptr as int, le_u32_bytes(low), store_answer(&m0, system_time_ptr as int, 4)));
        let high_ptr = match system_time_ptr.checked_add(4) {
            Some(p) => p,
            None => {
                assert(!m0.is_mapped(system_time_ptr + 7));
                assert(two_stores(
                    &m0,
                    memory,
                    system_time_ptr as int,
                    le_u32_bytes(low),
                    system_time_ptr + 4,
                    le_u32_bytes(high),
                    1,
                    Err::<u32, SyscallError>(SyscallError::AddressOverflow),
                ));
                return Err(SyscallError::AddressOverflow);
            },
        };
        let res2 = memory.write_u32(high_ptr, high);
        proof {
            crate::pe::lemma_write_keeps_layout(memory, &m1, high_ptr as int, le_u32_bytes(high), res2);
            crate::pe::lemma_same_layout_trans(&m0, &m1, memory);
            lemma_same_mapping(&m0, &m1, high_ptr as int, 4);
        }
        assert(le_u32_bytes(high).len() == 4);
        assert(two_stores(
            &m0,
            memory,
            system_time_ptr as int,
            le_u32_bytes(low),
            system_time_ptr + 4,
            le_u32_bytes(high),
            1,
            match res2 {
                Ok(()) => Ok::<u32, SyscallError>(1),
                Err(e) => Err::<u32, SyscallError>(SyscallError::Memory(e)),
            },
        ));
        match res2 {
            Ok(()) => {},
            Err(e) => {
                assert(!m0.range_mapped(system_time_ptr as int, 8)) by {
                    if m0.range_mapped(system_time_ptr as int, 8) {
                        assert forall|i: int| 0 <= i < 4 implies #[trigger] m0.is_mapped(high_ptr + i) by {
                            assert(m0.is_mapped(system_time_ptr + (i + 4)));
                        }
                    }
                }
                return Err(SyscallError::Memory(e));
            },
        }
        proof {
            assert forall|i: int| 0 <= i < 8 implies #[trigger] m0.is_mapped(system_time_ptr + i) by {
                if i < 4 {
                    assert(m0.is_mapped(system_time_ptr + i));
                } else {
                    assert(m0.is_mapped(high_ptr + (i - 4)));
                }
            }
        }
        Ok(1)
    }

    /// Handles GetSystemTime(): stores the current time.
    fn handle_get_system_time(&mut self, args: &[u32], memory: &mut MemoryManager) -> (r: Result<
        u32,
        SyscallError,
    >)
        requires
            old(memory).wf(),
        ensures
            final(memory).wf(),
            exists|t: u64|
                system_time_outcome(old(self), final(self), args@, old(memory), final(memory), t, r),
    {
        let now = unix_millis();
        self.write_file_time(args, now, memory)
    }
    /// Maps API name to enum: the name is compared without regard to case.
    pub fn map_api_name(name: &str) -> (r: WindowsAPI)
        ensures
            r == api_for_lowercase_name(lowercase_of(name@)),
            is_ascii_text(name@) ==> r == api_for_lowercase_name(ascii_lowercase(name@)),
    {
        let lower = to_lowercase(name);
        Self::map_lowercase_api_name(&lower)
    }

    /// The API that an already lower-cased name selects.
    pub fn map_lowercase_api_name(lower: &String) -> (r: WindowsAPI)
        ensures
            r == api_for_lowercase_name(lower@),
    {
        if is_text(lower, "getlasterror") {
            WindowsAPI::GetLastError
        } else if is_text(lower, "getcurrentprocess") {
            WindowsAPI::GetCurrentProcess
        } else if is_text(lower, "getcurrentthreadid") {
            WindowsAPI::GetCurrentThreadId
        } else if is_text(lower, "getcurrentprocessid") {
            WindowsAPI::GetCurrentProcessId
        } else if is_text(lower, "virtualalloc") {
            WindowsAPI::VirtualAlloc
        } else if is_text(lower, "virtualfree") {
            WindowsAPI::VirtualFree
        } else if is_text(lower, "virtualprotect") {
            WindowsAPI::VirtualProtect
        } else if is_text(lower, "createfilea") {
            WindowsAPI::CreateFileA
        } else if is_text(lower, "readfile") {
            WindowsAPI::ReadFile
        } else if is_text(lower, "writefile") {
            WindowsAPI::WriteFile
        } else if is_text(lower, "closehandle") {
            WindowsAPI::CloseHandle
        } else if is_text(lower, "gettickcount") {
            WindowsAPI::GetTickCount
        } else if is_text(lower, "getsystemtime") {
            WindowsAPI::GetSystemTime
        } else if is_text(lower, "exitprocess") {
            WindowsAPI::ExitProcess
        } else if is_text(lower, "messageboxa") {
            WindowsAPI::MessageBoxA
        } else if is_text(lower, "messageboxw") {
            WindowsAPI::MessageBoxW
        } else if is_text(lower, "getwindowtexta") {
            WindowsAPI::GetWindowTextA
        } else if is_text(lower, "getwindowtextw") {
            WindowsAPI::GetWindowTextW
        } else if is_text(lower, "setwindowtexta") {
            WindowsAPI::SetWindowTextA
        } else if is_text(lower, "setwindowtextw") {
            WindowsAPI::SetWindowTextW
        } else if is_text(lower, "createthread") {
            WindowsAPI::CreateThread
        } else if is_text(lower, "waitforsingleobject") {
            WindowsAPI::WaitForSingleObject
        } else if is_text(lower, "globalalloc") {
            WindowsAPI::GlobalAlloc
        } else if is_text(lower, "globalfree") {
            WindowsAPI::GlobalFree
        } else if is_text(lower, "regopenkeya") {
            WindowsAPI::RegOpenKeyA
        } else if is_text(lower, "regqueryvaluea") {
            WindowsAPI::RegQueryValueA
        } else {
            WindowsAPI::Unknown
        }
    }

    /// The last error code.
    pub fn last_error(&self) -> (r: u32)
        ensures
            r == self.spec_last_error(),
    {
        self.last_error
    }

    /// Sets the last error code, as SetLastError does.
    pub fn set_last_error(&mut self, code: u32)
        ensures
            kept_with_error(final(self), old(self), code),
            final(self).spec_last_error() == code,
            old(self).wf() ==> final(self).wf(),
    {
        self.last_error = code;
    }

    /// The start time, in milliseconds since the Unix epoch.
    pub fn system_time(&self) -> (r: u64)
        ensures
            r == self.spec_system_time(),
    {
        self.system_time
    }

    /// The handle the next opened file gets.
    pub fn next_file_handle(&self) -> (r: u32)
        ensures
            r == self.spec_next_file_handle(),
    {
        self.next_file_handle
    }

    /// The handle the next memory allocation gets.
    pub fn next_memory_handle(&self) -> (r: u32)
        ensures
            r == self.spec_next_memory_handle(),
    {
        self.next_memory_handle
    }

    /// The open file under `handle`, if there is one.
    pub fn file_handle(&self, handle: u32) -> (r: Option<&FileHandle>)
        ensures
            match r {
                Some(f) => self.spec_file_handles().contains_key(handle) && *f == self.spec_file_handles()[handle],
                None => !self.spec_file_handles().contains_key(handle),
            },
    {
        self.file_handles.get(&handle)
    }

    /// The memory allocation recorded under `handle`, if there is one.
    pub fn memory_allocation(&self, handle: u32) -> (r: Option<&MemoryAllocation>)
        ensures
            match r {
                Some(a) => self.spec_memory_allocations().contains_key(handle) && *a
                    == self.spec_memory_allocations()[handle],
                None => !self.spec_memory_allocations().contains_key(handle),
            },
    {
        self.memory_allocations.get(&handle)
    }

    /// Gets current system state
    pub fn get_system_state(&self) -> (r: SystemState)
        ensures
            r.current_thread_id == self.spec_current_thread_id(),
            r.current_process_id == self.spec_current_process_id(),
            r.last_error == self.spec_last_error(),
            r.open_file_handles == self.spec_file_handles().len(),
            r.memory_allocations == self.spec_memory_allocations().len(),
    {
        SystemState {
            current_thread_id: self.current_thread_id,
            current_process_id: self.current_process_id,
            last_error: self.last_error,
            open_file_handles: self.file_handles.len(),
            memory_allocations: self.memory_allocations.len(),
        }
    }

    /// Emulates a Windows API call. The last error is reset first; an
    /// ExitProcess call is reported as `SyscallError::ProcessExit`.
    pub fn emulate_syscall(&mut self, context: SyscallContext, memory: &mut MemoryManager) -> (r:
        Result<u32, SyscallError>)
        requires
            old(memory).wf(),
        ensures
            final(memory).wf(),
            old(self).wf() ==> final(self).wf(),
            exists|reset: SyscallEmulator|
                kept_with_error(&reset, old(self), 0) && syscall_outcome(
                    &reset,
                    final(self),
                    context.api_function,
                    context.args@,
                    old(memory),
                    final(memory),
                    r,
                ),
    {
        self.last_error = 0;  // Reset last error
        let ghost reset = *self;
        assert(kept_with_error(&reset, old(self), 0));
        let args = context.args.as_slice();
        let result = match context.api_function {
            WindowsAPI::GetLastError => Ok(self.handle_get_last_error()),
            WindowsAPI::GetCurrentProcess => Ok(self.handle_get_current_process()),
            WindowsAPI::GetCurrentThreadId => Ok(self.handle_get_current_thread_id()),
            WindowsAPI::GetCurrentProcessId => Ok(self.handle_get_current_process_id()),
            WindowsAPI::VirtualAlloc => self.handle_virtual_alloc(args, memory),
            WindowsAPI::VirtualFree => self.handle_virtual_free(args),
            WindowsAPI::VirtualProtect => self.handle_virtual_protect(args, memory),
            WindowsAPI::CreateFileA => self.handle_create_file_a(args, memory),
            WindowsAPI::ReadFile => self.handle_read_file(args, memory),
            WindowsAPI::WriteFile => self.handle_write_file(args, memory),
            WindowsAPI::CloseHandle => self.handle_close_handle(args),
            WindowsAPI::GetTickCount => Ok(self.handle_get_tick_count()),
            WindowsAPI::GetSystemTime => self.handle_get_system_time(args, memory),
            WindowsAPI::ExitProcess => self.handle_exit_process(args),
            WindowsAPI::MessageBoxA => self.handle_message_box_a(args, memory),
            WindowsAPI::MessageBoxW => self.handle_message_box_w(args, memory),
            WindowsAPI::GetWindowTextA => self.handle_get_window_text_a(args, memory),
            WindowsAPI::GetWindowTextW => self.handle_get_window_text_w(args, memory),
            WindowsAPI::SetWindowTextA => self.handle_set_window_text_a(args, memory),
            WindowsAPI::SetWindowTextW => self.handle_set_window_text_w(args, memory),
            WindowsAPI::CreateThread => self.handle_create_thread(args, memory),
            WindowsAPI::WaitForSingleObject => self.handle_wait_for_single_object(args),
            WindowsAPI::GlobalAlloc => self.handle_global_alloc(args, memory),
            WindowsAPI::GlobalFree => self.handle_global_free(args),
            WindowsAPI::RegOpenKeyA => self.handle_reg_open_key_a(args, memory),
            WindowsAPI::RegQueryValueA => self.handle_reg_query_value_a(args, memory),
            _ => {
                self.last_error = ERROR_INVALID_FUNCTION;
                Ok(0)
            },
        };
        assert(syscall_outcome(
            &reset,
            self,
            context.api_function,
            context.args@,
            old(memory),
            memory,
            result,
        ));
        proof {
            if old(self).wf() {
                lemma_outcome_keeps_wf(&reset, self, context.api_function, context.args@, old(memory), memory, result);
            }
        }
        result
    }
}

/// Every call keeps each open file's handle below the next handle.
proof fn lemma_outcome_keeps_wf(
    pre: &SyscallEmulator,
    post: &SyscallEmulator,
    api: WindowsAPI,
    args: Seq<u32>,
    m0: &MemoryManager,
    m1: &MemoryManager,
    r: Result<u32, SyscallError>,
)
    requires
        pre.wf(),
        syscall_outcome(pre, post, api, args, m0, m1, r),
    ensures
        post.wf(),
{
    assert forall|h: u32| #[trigger] post.file_handles@.contains_key(h) implies h
        < post.next_file_handle by {
        if pre.file_handles@.contains_key(h) {
            assert(h < pre.next_file_handle);
        }
    }
}

/// VirtualProtect with its three arguments (address, size, PAGE_* flags)
/// answers 1 and sets the rights of every mapped page of the page-aligned
/// range: each stays readable; it is writable unless the flags are
/// PAGE_READONLY (0x01) or PAGE_EXECUTE_READ (0x10), and executable exactly
/// for PAGE_EXECUTE_READ, PAGE_EXECUTE_READWRITE (0x40) and 0x20. Pages
/// outside the range keep their rights, and no page's bytes change.
pub proof fn law_virtual_protect_sets_page_rights(
    pre: SyscallEmulator,
    post: SyscallEmulator,
    args: Seq<u32>,
    m0: MemoryManager,
    m1: MemoryManager,
    r: Result<u32, SyscallError>,
    k: u32,
)
    requires
        syscall_outcome(&pre, &post, WindowsAPI::VirtualProtect, args, &m0, &m1, r),
        args.len() >= 3,
        m1.page_map().contains_key(k),
    ensures
        r == Ok::<u32, SyscallError>(1),
        m0.page_map().contains_key(k),
        m1.page_map()[k].data == m0.page_map()[k].data,
        ({
            let p = m1.page_map()[k].protection;
            if is_page_of_range(k as int, page_base_of(args[0] as int), align_up(args[1] as int)) {
                &&& p.readable
                &&& p.writable == (args[2] != 0x01 && args[2] != 0x10)
                &&& p.executable == (args[2] == 0x10 || args[2] == 0x20 || args[2] == 0x40)
            } else {
                p == m0.page_map()[k].protection
            }
        }),
{
}

/// GetLastError, made through `emulate_syscall`, always answers 0: the last
/// error is reset before the call is dispatched.
pub proof fn law_get_last_error_answers_zero(
    s0: SyscallEmulator,
    reset: SyscallEmulator,
    s1: SyscallEmulator,
    args: Seq<u32>,
    m0: MemoryManager,
    m1: MemoryManager,
    r: Result<u32, SyscallError>,
)
    requires
        kept_with_error(&reset, &s0, 0),
        syscall_outcome(&reset, &s1, WindowsAPI::GetLastError, args, &m0, &m1, r),
    ensures
        r == Ok::<u32, SyscallError>(0),
        s1.spec_last_error() == 0,
        m1 == m0,
{
}

/// A file that CreateFileA opened is in the handle table under the handle it
/// answered, and a CloseHandle of that handle leaves the table as it was
/// before the open, less that handle.
pub proof fn law_close_forgets_opened_file(
    s0: SyscallEmulator,
    reset1: SyscallEmulator,
    s1: SyscallEmulator,
    open_args: Seq<u32>,
    m0: MemoryManager,
    m1: MemoryManager,
    h: u32,
    reset2: SyscallEmulator,
    s2: SyscallEmulator,
    m2: MemoryManager,
    r2: Result<u32, SyscallError>,
)
    requires
        kept_with_error(&reset1, &s0, 0),
        syscall_outcome(
            &reset1,
            &s1,
            WindowsAPI::CreateFileA,
            open_args,
            &m0,
            &m1,
            Ok::<u32, SyscallError>(h),
        ),
        open_args.len() >= 5,
        kept_with_error(&reset2, &s1, 0),
        syscall_outcome(&reset2, &s2, WindowsAPI::CloseHandle, seq![h], &m1, &m2, r2),
    ensures
        s1.spec_file_handles().dom().contains(h),
        s1.spec_file_handles()[h].id == h,
        r2 == Ok::<u32, SyscallError>(1),
        s2.spec_file_handles() == s0.spec_file_handles().remove(h),
        m2 == m0,
{
    assert(s2.spec_file_handles() =~= s0.spec_file_handles().remove(h));
}

/// Two files opened one after the other get different handles: the second
/// handle is the one after the first.
pub proof fn law_opened_handles_differ(
    s0: SyscallEmulator,
    reset1: SyscallEmulator,
    s1: SyscallEmulator,
    a1: Seq<u32>,
    m0: MemoryManager,
    m1: MemoryManager,
    h1: u32,
    reset2: SyscallEmulator,
    s2: SyscallEmulator,
    a2: Seq<u32>,
    m2: MemoryManager,
    h2: u32,
)
    requires
        kept_with_error(&reset1, &s0, 0),
        syscall_outcome(&reset1, &s1, WindowsAPI::CreateFileA, a1, &m0, &m1, Ok::<u32, SyscallError>(h1)),
        a1.len() >= 5,
        kept_with_error(&reset2, &s1, 0),
        syscall_outcome(&reset2, &s2, WindowsAPI::CreateFileA, a2, &m1, &m2, Ok::<u32, SyscallError>(h2)),
        a2.len() >= 5,
    ensures
        h2 == h1 + 1,
        h1 != h2,
        s2.spec_file_handles().dom().contains(h1),
        s2.spec_file_handles().dom().contains(h2),
{
}

/// No call lowers the next handle, and a handle that CreateFileA or
/// CreateThread answers is the next handle of the state before the call,
/// which the call then moves past. So a handle answered later differs from
/// every handle answered before.
pub proof fn law_handle_counter_only_grows(
    s0: SyscallEmulator,
    reset: SyscallEmulator,
    s1: SyscallEmulator,
    api: WindowsAPI,
    args: Seq<u32>,
    m0: MemoryManager,
    m1: MemoryManager,
    r: Result<u32, SyscallError>,
)
    requires
        kept_with_error(&reset, &s0, 0),
        syscall_outcome(&reset, &s1, api, args, &m0, &m1, r),
    ensures
        s1.spec_next_file_handle() >= s0.spec_next_file_handle(),
        (api == WindowsAPI::CreateFileA && args.len() >= 5 || api == WindowsAPI::CreateThread
            && args.len() >= 6) && r is Ok ==> r == Ok::<u32, SyscallError>(
            s0.spec_next_file_handle(),
        ) && s1.spec_next_file_handle() == s0.spec_next_file_handle() + 1,
{
}

/// A file that CreateFileA opens gets a handle that no open file has.
pub proof fn law_new_file_handle_is_fresh(
    s0: SyscallEmulator,
    reset: SyscallEmulator,
    s1: SyscallEmulator,
    args: Seq<u32>,
    m0: MemoryManager,
    m1: MemoryManager,
    h: u32,
)
    requires
        s0.wf(),
        kept_with_error(&reset, &s0, 0),
        syscall_outcome(&reset, &s1, WindowsAPI::CreateFileA, args, &m0, &m1, Ok::<u32, SyscallError>(h)),
        args.len() >= 5,
    ensures
        !s0.spec_file_handles().contains_key(h),
        s1.spec_file_handles().contains_key(h),
        s1.spec_file_handles().len() == s0.spec_file_handles().len() + 1,
        s1.wf(),
{
    assert(s1.file_handles@ == s0.file_handles@.insert(h, s1.file_handles@[h]));
    lemma_outcome_keeps_wf(&reset, &s1, WindowsAPI::CreateFileA, args, &m0, &m1, Ok::<u32, SyscallError>(h));
}

/// API names are matched regardless of the case of their ASCII letters:
/// an ASCII name, its upper-case form and its lower-case form are all
/// ASCII and have the same lower-case form, so `map_api_name` maps them
/// to the same API.
pub proof fn law_api_names_ignore_ascii_case(s: Seq<char>)
    requires
        is_ascii_text(s),
    ensures
        is_ascii_text(ascii_uppercase(s)),
        is_ascii_text(ascii_lowercase(s)),
        ascii_lowercase(ascii_uppercase(s)) == ascii_lowercase(s),
        ascii_lowercase(ascii_lowercase(s)) == ascii_lowercase(s),
{
    assert forall|i: int| 0 <= i < s.len() implies (#[trigger] ascii_uppercase(s)[i] as u32) < 128
        && (ascii_lowercase(s)[i] as u32) < 128 by {
        assert((s[i] as u32) < 128);
    }
    assert(ascii_lowercase(ascii_uppercase(s)) =~= ascii_lowercase(s));
    assert(ascii_lowercase(ascii_lowercase(s)) =~= ascii_lowercase(s));
}

} // verus!
