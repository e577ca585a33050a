use steam_mobile::memory::{MemoryError, MemoryManager, MemoryProtection};
use steam_mobile::syscall::{SyscallContext, SyscallEmulator, SyscallError, WindowsAPI};

fn call(e: &mut SyscallEmulator, m: &mut MemoryManager, api: WindowsAPI, args: Vec<u32>) -> Result<u32, SyscallError> {
    e.emulate_syscall(SyscallContext { api_function: api, args, return_address: 0, thread_id: 1 }, m)
}

#[test]
fn test_syscall_emulator_creation() {
    let emulator = SyscallEmulator::new();
    let state = emulator.get_system_state();
    assert_eq!(state.current_thread_id, 1);
    assert_eq!(state.current_process_id, 100);
    assert_eq!(state.last_error, 0);
}

#[test]
fn test_get_last_error() {
    let mut emulator = SyscallEmulator::new();
    emulator.set_last_error(42);

    let error = emulator.handle_get_last_error();
    assert_eq!(error, 42);
    assert_eq!(emulator.last_error(), 0); // Should be cleared
}

#[test]
fn test_api_mapping() {
    assert_eq!(SyscallEmulator::map_api_name("GetLastError"), WindowsAPI::GetLastError);
    assert_eq!(SyscallEmulator::map_api_name("virtualalloc"), WindowsAPI::VirtualAlloc);
    assert_eq!(SyscallEmulator::map_api_name("unknown"), WindowsAPI::Unknown);
}

#[test]
fn test_virtual_alloc() {
    let mut emulator = SyscallEmulator::new();
    let mut memory = MemoryManager::new().unwrap();

    let args = vec![0, 0x1000, 0x3000]; // address, size, allocation_type
    let result = emulator.handle_virtual_alloc(&args, &mut memory).unwrap();

    assert_ne!(result, 0); // Should return valid address
    assert_eq!(emulator.get_system_state().memory_allocations, 1);
}

#[test]
fn api_names_ignore_case() {
    assert_eq!(SyscallEmulator::map_api_name("MESSAGEBOXA"), WindowsAPI::MessageBoxA);
    assert_eq!(SyscallEmulator::map_api_name("RegQueryValueA"), WindowsAPI::RegQueryValueA);
    assert_eq!(SyscallEmulator::map_api_name("FindWindowA"), WindowsAPI::Unknown);
    assert_eq!(SyscallEmulator::map_lowercase_api_name(&"exitprocess".to_string()), WindowsAPI::ExitProcess);
    assert_eq!(SyscallEmulator::map_lowercase_api_name(&"ExitProcess".to_string()), WindowsAPI::Unknown);
}

#[test]
fn simple_queries() {
    let mut e = SyscallEmulator::new();
    let mut m = MemoryManager::new().unwrap();
    assert_eq!(call(&mut e, &mut m, WindowsAPI::GetCurrentProcess, vec![]), Ok(0xFFFF_FFFF));
    assert_eq!(call(&mut e, &mut m, WindowsAPI::GetCurrentThreadId, vec![]), Ok(1));
    assert_eq!(call(&mut e, &mut m, WindowsAPI::GetCurrentProcessId, vec![]), Ok(100));
    let tick = call(&mut e, &mut m, WindowsAPI::GetTickCount, vec![]).unwrap();
    assert_eq!(tick, (e.system_time() / 1000) as u32);
}

#[test]
fn last_error_is_reset_by_every_call() {
    let mut e = SyscallEmulator::new();
    let mut m = MemoryManager::new().unwrap();
    assert_eq!(call(&mut e, &mut m, WindowsAPI::VirtualFree, vec![]), Ok(0));
    assert_eq!(e.last_error(), 87);
    // GetLastError sees the reset value.
    assert_eq!(call(&mut e, &mut m, WindowsAPI::GetLastError, vec![]), Ok(0));
    assert_eq!(call(&mut e, &mut m, WindowsAPI::BitBlt, vec![]), Ok(0));
    assert_eq!(e.last_error(), 1);
    assert_eq!(call(&mut e, &mut m, WindowsAPI::VirtualFree, vec![1, 2]), Ok(1));
    assert_eq!(e.last_error(), 0);
}

#[test]
fn too_few_arguments() {
    let mut e = SyscallEmulator::new();
    let mut m = MemoryManager::new().unwrap();
    assert_eq!(call(&mut e, &mut m, WindowsAPI::CreateFileA, vec![1, 2]), Ok(0xFFFF_FFFF));
    assert_eq!(e.last_error(), 87);
    assert_eq!(call(&mut e, &mut m, WindowsAPI::WaitForSingleObject, vec![1]), Ok(0xFFFF_FFFF));
    assert_eq!(call(&mut e, &mut m, WindowsAPI::RegQueryValueA, vec![]), Ok(2));
    assert_eq!(e.last_error(), 87);
    assert_eq!(call(&mut e, &mut m, WindowsAPI::WaitForSingleObject, vec![1, 2]), Ok(0));
    assert_eq!(call(&mut e, &mut m, WindowsAPI::GlobalFree, vec![5]), Ok(0));
}

#[test]
fn virtual_alloc_at_address_and_protect() {
    let mut e = SyscallEmulator::new();
    let mut m = MemoryManager::new().unwrap();
    let a = call(&mut e, &mut m, WindowsAPI::VirtualAlloc, vec![0x2000_0000, 0x1000, 0x3000, 0x04]).unwrap();
    assert_eq!(a, 0x2000_0000);
    let rec = e.memory_allocation(2000).unwrap();
    assert_eq!(rec.address, 0x2000_0000);
    assert_eq!(rec.protection, 0x04);
    assert_eq!(e.next_memory_handle(), 2001);
    assert_eq!(
        call(&mut e, &mut m, WindowsAPI::VirtualAlloc, vec![0x2000_0000, 0x1000, 0x3000]),
        Err(SyscallError::Memory(MemoryError::AddressInUse))
    );
    assert_eq!(e.get_system_state().memory_allocations, 1);
    assert_eq!(call(&mut e, &mut m, WindowsAPI::VirtualProtect, vec![0x2000_0000, 0x1000, 0x02]), Ok(1));
    let g = call(&mut e, &mut m, WindowsAPI::GlobalAlloc, vec![0, 0x100]).unwrap();
    assert_eq!(g, 0x1000_0000);
    assert_eq!(e.get_system_state().memory_allocations, 1);
    let _ = MemoryProtection::read_write();
}

#[test]
fn files_open_read_write_close() {
    let mut e = SyscallEmulator::new();
    let mut m = MemoryManager::new().unwrap();
    m.write_bytes(0x0050_0000, b"save.dat\0").unwrap();
    let h = call(&mut e, &mut m, WindowsAPI::CreateFileA, vec![0x0050_0000, 0, 0, 0, 0]).unwrap();
    assert_eq!(h, 1000);
    assert_eq!(e.file_handle(1000).unwrap().path, b"save.dat".to_vec());
    assert_eq!(e.get_system_state().open_file_handles, 1);
    // ReadFile fills the buffer with zeros and reports the count
    m.write_bytes(0x0050_0100, &[7u8; 8]).unwrap();
    assert_eq!(call(&mut e, &mut m, WindowsAPI::ReadFile, vec![h, 0x0050_0100, 6, 0x0050_0200]), Ok(1));
    assert_eq!(m.read_bytes(0x0050_0100, 8).unwrap(), vec![0, 0, 0, 0, 0, 0, 7, 7]);
    assert_eq!(m.read_u32(0x0050_0200).unwrap(), 6);
    // WriteFile reports the count
    assert_eq!(call(&mut e, &mut m, WindowsAPI::WriteFile, vec![h, 0x0050_0100, 9, 0x0050_0204]), Ok(1));
    assert_eq!(m.read_u32(0x0050_0204).unwrap(), 9);
    // Unknown handle
    assert_eq!(call(&mut e, &mut m, WindowsAPI::ReadFile, vec![5, 0x0050_0100, 6, 0]), Ok(0));
    assert_eq!(e.last_error(), 6);
    assert_eq!(call(&mut e, &mut m, WindowsAPI::CloseHandle, vec![h]), Ok(1));
    assert_eq!(e.get_system_state().open_file_handles, 0);
    assert_eq!(call(&mut e, &mut m, WindowsAPI::WriteFile, vec![h, 0, 1, 0]), Ok(0));
    assert_eq!(e.last_error(), 6);
}

#[test]
fn read_file_into_unmapped_buffer_fails() {
    let mut e = SyscallEmulator::new();
    let mut m = MemoryManager::new().unwrap();
    m.write_bytes(0x0050_0000, b"f\0").unwrap();
    let h = call(&mut e, &mut m, WindowsAPI::CreateFileA, vec![0x0050_0000, 0, 0, 0, 0]).unwrap();
    assert_eq!(
        call(&mut e, &mut m, WindowsAPI::ReadFile, vec![h, 0x0000_1000, 4, 0]),
        Err(SyscallError::Memory(MemoryError::InvalidPageAddress))
    );
    // A file name that cannot be read
    assert_eq!(
        call(&mut e, &mut m, WindowsAPI::CreateFileA, vec![0x0000_1000, 0, 0, 0, 0]),
        Err(SyscallError::Memory(MemoryError::InvalidPageAddress))
    );
}

#[test]
fn message_boxes_and_window_text() {
    let mut e = SyscallEmulator::new();
    let mut m = MemoryManager::new().unwrap();
    m.write_bytes(0x0050_0000, b"Hello\0").unwrap();
    m.write_bytes(0x0050_0010, &[b'H', 0, 0xE9, 0, 0, 0]).unwrap();
    assert_eq!(call(&mut e, &mut m, WindowsAPI::MessageBoxA, vec![0, 0x0050_0000, 0, 0]), Ok(1));
    assert_eq!(call(&mut e, &mut m, WindowsAPI::MessageBoxW, vec![0, 0x0050_0010, 0x0050_0010, 0]), Ok(1));
    assert_eq!(
        call(&mut e, &mut m, WindowsAPI::MessageBoxA, vec![0, 0x0000_1000, 0, 0]),
        Err(SyscallError::Memory(MemoryError::InvalidPageAddress))
    );
    assert_eq!(call(&mut e, &mut m, WindowsAPI::SetWindowTextA, vec![0, 0x0050_0000]), Ok(1));
    m.write_u16(0x0050_0100, 0xFFFF).unwrap();
    assert_eq!(call(&mut e, &mut m, WindowsAPI::GetWindowTextA, vec![0, 0x0050_0100, 10]), Ok(0));
    assert_eq!(m.read_u16(0x0050_0100).unwrap(), 0xFF00);
    assert_eq!(call(&mut e, &mut m, WindowsAPI::GetWindowTextW, vec![0, 0x0050_0100, 10]), Ok(0));
    assert_eq!(m.read_u16(0x0050_0100).unwrap(), 0);
    // SetWindowTextW reads the wide text and leaves memory alone
    m.write_u16(0x0050_0100, 0xFFFF).unwrap();
    assert_eq!(call(&mut e, &mut m, WindowsAPI::SetWindowTextW, vec![0, 0x0050_0010]), Ok(1));
    assert_eq!(e.last_error(), 0);
    assert_eq!(m.read_u16(0x0050_0100).unwrap(), 0xFFFF);
    assert_eq!(call(&mut e, &mut m, WindowsAPI::SetWindowTextW, vec![0, 0]), Ok(1));
    assert_eq!(
        call(&mut e, &mut m, WindowsAPI::SetWindowTextW, vec![0, 0x0000_1000]),
        Err(SyscallError::Memory(MemoryError::InvalidPageAddress))
    );
    assert_eq!(call(&mut e, &mut m, WindowsAPI::SetWindowTextW, vec![0]), Ok(0));
    assert_eq!(e.last_error(), 87);
}

#[test]
fn threads_and_registry() {
    let mut e = SyscallEmulator::new();
    let mut m = MemoryManager::new().unwrap();
    let h = call(&mut e, &mut m, WindowsAPI::CreateThread, vec![0, 0, 0x0040_0000, 0, 0, 0x0050_0000]).unwrap();
    assert_eq!(h, 1000);
    assert_eq!(e.get_system_state().current_thread_id, 2);
    assert_eq!(m.read_u32(0x0050_0000).unwrap(), 2);
    m.write_bytes(0x0050_0010, b"Software\0").unwrap();
    assert_eq!(call(&mut e, &mut m, WindowsAPI::RegOpenKeyA, vec![0, 0x0050_0010, 0x0050_0020]), Ok(0));
    assert_eq!(m.read_u32(0x0050_0020).unwrap(), 1001);
    assert_eq!(e.next_file_handle(), 1002);
    m.write_u32(0x0050_0030, 16).unwrap();
    m.write_u8(0x0050_0040, 0x55).unwrap();
    assert_eq!(call(&mut e, &mut m, WindowsAPI::RegQueryValueA, vec![0, 0, 0x0050_0040, 0x0050_0030]), Ok(0));
    assert_eq!(m.read_u32(0x0050_0030).unwrap(), 1);
    assert_eq!(m.read_u8(0x0050_0040).unwrap(), 0);
    assert_eq!(
        call(&mut e, &mut m, WindowsAPI::RegQueryValueA, vec![0, 0, 0x0050_0040, 0x0000_1000]),
        Err(SyscallError::Memory(MemoryError::InvalidPageAddress))
    );
}

#[test]
fn system_time_is_stored_in_two_words() {
    let mut e = SyscallEmulator::new();
    let mut m = MemoryManager::new().unwrap();
    assert_eq!(e.write_file_time(&[0x0050_0000], 0x0000_0123_4567_89AB, &mut m), Ok(1));
    assert_eq!(m.read_u32(0x0050_0000).unwrap(), 0x4567_89AB);
    assert_eq!(m.read_u32(0x0050_0004).unwrap(), 0x0000_0123);
    assert_eq!(
        e.write_file_time(&[0x005F_FFFC], 1, &mut m),
        Err(SyscallError::Memory(MemoryError::InvalidPageAddress))
    );
    assert_eq!(call(&mut e, &mut m, WindowsAPI::GetSystemTime, vec![0x0050_0100]), Ok(1));
    assert_eq!(call(&mut e, &mut m, WindowsAPI::GetSystemTime, vec![]), Ok(0));
    assert_eq!(e.last_error(), 87);
}

#[test]
fn exit_process_reports_the_code() {
    let mut e = SyscallEmulator::new();
    let mut m = MemoryManager::new().unwrap();
    assert_eq!(call(&mut e, &mut m, WindowsAPI::ExitProcess, vec![3]), Err(SyscallError::ProcessExit(3)));
    assert_eq!(call(&mut e, &mut m, WindowsAPI::ExitProcess, vec![]), Err(SyscallError::ProcessExit(0)));
}

#[test]
fn opened_files_get_successive_handles() {
    let mut e = SyscallEmulator::new();
    let mut m = MemoryManager::new().unwrap();
    m.write_bytes(0x0050_0000, b"a.txt\0").unwrap();
    let h1 = call(&mut e, &mut m, WindowsAPI::CreateFileA, vec![0x0050_0000, 0, 0, 0, 0]).unwrap();
    let h2 = call(&mut e, &mut m, WindowsAPI::CreateFileA, vec![0x0050_0000, 0, 0, 0, 0]).unwrap();
    assert_eq!(h2, h1 + 1);
    assert_eq!(call(&mut e, &mut m, WindowsAPI::CloseHandle, vec![h1]), Ok(1));
    assert!(e.file_handle(h1).is_none());
    assert!(e.file_handle(h2).is_some());
}

#[test]
fn api_names_ignore_ascii_case() {
    assert_eq!(SyscallEmulator::map_api_name("SETWINDOWTEXTW"), WindowsAPI::SetWindowTextW);
    assert_eq!(SyscallEmulator::map_api_name("setwindowtextw"), WindowsAPI::SetWindowTextW);
    assert_eq!(SyscallEmulator::map_api_name("RegQueryValueA"), WindowsAPI::RegQueryValueA);
    assert_eq!(SyscallEmulator::map_api_name("FindWindowA"), WindowsAPI::Unknown);
}

#[test]
fn new_handles_are_fresh() {
    let mut e = SyscallEmulator::new();
    let mut m = MemoryManager::new().unwrap();
    m.write_bytes(0x0050_0000, b"f\0").unwrap();
    let t = call(&mut e, &mut m, WindowsAPI::CreateThread, vec![0, 0, 0x0040_0000, 0, 0, 0]).unwrap();
    let f = call(&mut e, &mut m, WindowsAPI::CreateFileA, vec![0x0050_0000, 0, 0, 0, 0]).unwrap();
    assert_eq!(f, t + 1);
    assert_eq!(e.get_system_state().open_file_handles, 1);
    assert_eq!(call(&mut e, &mut m, WindowsAPI::CloseHandle, vec![f]), Ok(1));
    assert_eq!(e.get_system_state().open_file_handles, 0);
    let g = call(&mut e, &mut m, WindowsAPI::CreateFileA, vec![0x0050_0000, 0, 0, 0, 0]).unwrap();
    assert_eq!(g, f + 1);
}
