use steam_mobile::memory::{MemoryError, MemoryManager, MemoryPage, MemoryProtection};

#[test]
fn test_memory_manager_creation() {
    let manager = MemoryManager::new();
    assert!(manager.is_ok());
}

#[test]
fn test_basic_read_write() {
    let mut manager = MemoryManager::new().unwrap();
    let address = 0x00500000; // Data segment

    // Test byte operations
    manager.write_u8(address, 0x42).unwrap();
    assert_eq!(manager.read_u8(address).unwrap(), 0x42);

    // Test word operations
    manager.write_u16(address, 0x1234).unwrap();
    assert_eq!(manager.read_u16(address).unwrap(), 0x1234);

    // Test dword operations
    manager.write_u32(address, 0x12345678).unwrap();
    assert_eq!(manager.read_u32(address).unwrap(), 0x12345678);
}

#[test]
fn test_memory_allocation() {
    let mut manager = MemoryManager::new().unwrap();
    let address = manager.allocate(0x1000, MemoryProtection::read_write()).unwrap();
    assert!(address >= manager.next_free_address());

    // Write to allocated memory
    manager.write_u32(address, 0xdeadbeef).unwrap();
    assert_eq!(manager.read_u32(address).unwrap(), 0xdeadbeef);
}

#[test]
fn test_memory_protection() {
    let mut manager = MemoryManager::new().unwrap();
    let address = manager.allocate(0x1000, MemoryProtection::read_only()).unwrap();

    // Should be able to read
    manager.write_u32(address, 0x12345678).unwrap();
    assert_eq!(manager.read_u32(address).unwrap(), 0x12345678);

    // Change to read-only protection
    manager.protect(address, 0x1000, MemoryProtection::read_only()).unwrap();
}

#[test]
fn standard_layout_and_stats() {
    let manager = MemoryManager::new().unwrap();
    let regions = manager.get_regions();
    assert_eq!(regions.len(), 3);
    assert_eq!(regions[0].base_address, 0x0040_0000);
    assert_eq!(regions[0].size, 0x0010_0000);
    assert_eq!(regions[1].base_address, 0x0050_0000);
    assert_eq!(regions[2].base_address, 0x7FFF_0000);
    assert_eq!(regions[2].size, 0x0001_0000);
    let stats = manager.get_stats();
    assert_eq!(stats.total_memory, 0x8000_0000);
    assert_eq!(stats.used_memory, 0x0021_0000);
    assert_eq!(stats.free_memory, 0x8000_0000 - 0x0021_0000);
    assert_eq!(stats.regions, 3);
    assert_eq!(stats.total_pages, 0x210);
    assert_eq!(manager.total_memory(), 0x8000_0000);
    assert_eq!(manager.used_memory(), 0x0021_0000);
    assert_eq!(manager.next_free_address(), 0x1000_0000);
}

#[test]
fn fresh_memory_reads_zero() {
    let manager = MemoryManager::new().unwrap();
    assert_eq!(manager.read_u32(0x0040_0000).unwrap(), 0);
    assert_eq!(manager.read_bytes(0x7FFF_FFF0, 16).unwrap(), vec![0u8; 16]);
}

#[test]
fn unmapped_access_fails() {
    let mut manager = MemoryManager::new().unwrap();
    assert_eq!(manager.read_u8(0x0000_1000), Err(MemoryError::InvalidPageAddress));
    assert_eq!(manager.write_u8(0x1000_0000, 1), Err(MemoryError::InvalidPageAddress));
    // A read running past the end of the stack segment fails.
    assert_eq!(manager.read_u32(0x7FFF_FFFE), Err(MemoryError::InvalidPageAddress));
    assert_eq!(manager.read_bytes(0xFFFF_FFFF, 2), Err(MemoryError::InvalidPageAddress));
}

#[test]
fn write_crossing_into_unmapped_stores_the_prefix() {
    let mut manager = MemoryManager::new().unwrap();
    // 0x5FFFFE..0x600002: two bytes in the data segment, two past it.
    let r = manager.write_u32(0x005F_FFFE, 0xAABBCCDD);
    assert_eq!(r, Err(MemoryError::InvalidPageAddress));
    assert_eq!(manager.read_u8(0x005F_FFFE).unwrap(), 0xDD);
    assert_eq!(manager.read_u8(0x005F_FFFF).unwrap(), 0xCC);
}

#[test]
fn little_endian_layout() {
    let mut manager = MemoryManager::new().unwrap();
    manager.write_u32(0x0050_0010, 0x11223344).unwrap();
    assert_eq!(manager.read_bytes(0x0050_0010, 4).unwrap(), vec![0x44, 0x33, 0x22, 0x11]);
    assert_eq!(manager.read_u16(0x0050_0012).unwrap(), 0x1122);
}

#[test]
fn write_leaves_neighbours() {
    let mut manager = MemoryManager::new().unwrap();
    manager.write_u32(0x0050_0100, 0xFFFFFFFF).unwrap();
    manager.write_u16(0x0050_0101, 0).unwrap();
    assert_eq!(manager.read_u8(0x0050_0100).unwrap(), 0xFF);
    assert_eq!(manager.read_u8(0x0050_0103).unwrap(), 0xFF);
    assert_eq!(manager.read_u32(0x0050_0100).unwrap(), 0xFF0000FF);
}

#[test]
fn write_bytes_across_pages() {
    let mut manager = MemoryManager::new().unwrap();
    let data: Vec<u8> = (0..10u8).collect();
    manager.write_bytes(0x0050_0FFB, &data).unwrap();
    assert_eq!(manager.read_bytes(0x0050_0FFB, 10).unwrap(), data);
}

#[test]
fn allocation_is_page_aligned_and_sequential() {
    let mut manager = MemoryManager::new().unwrap();
    let a = manager.allocate(10, MemoryProtection::read_write()).unwrap();
    let b = manager.allocate(0x1001, MemoryProtection::read_write()).unwrap();
    let c = manager.allocate(1, MemoryProtection::read_write()).unwrap();
    assert_eq!(a, 0x1000_0000);
    assert_eq!(b, 0x1000_1000);
    assert_eq!(c, 0x1000_3000);
    assert_eq!(a % 4096, 0);
    assert_eq!(manager.used_memory(), 0x0021_0000 + 0x1000 + 0x2000 + 0x1000);
    assert_eq!(manager.get_regions().len(), 6);
}

#[test]
fn allocate_at_in_use_is_refused() {
    let mut manager = MemoryManager::new().unwrap();
    assert_eq!(
        manager.allocate_at(0x0040_1000, 0x1000, MemoryProtection::read_write()),
        Err(MemoryError::AddressInUse)
    );
    assert_eq!(
        manager.allocate_at(0x2000_0000, 0x1000, MemoryProtection::read_write()),
        Ok(0x2000_0000)
    );
    assert_eq!(
        manager.allocate_at(0x2000_0800, 0x10, MemoryProtection::read_write()),
        Err(MemoryError::AddressInUse)
    );
}

#[test]
fn allocate_at_past_address_space_overflows() {
    let mut manager = MemoryManager::new().unwrap();
    assert_eq!(
        manager.allocate_at(0xFFFF_F000, 0x2000, MemoryProtection::read_write()),
        Err(MemoryError::AddressOverflow)
    );
}

#[test]
fn allocate_too_much_is_out_of_memory() {
    let mut manager = MemoryManager::new().unwrap();
    assert_eq!(
        manager.allocate(0x7000_0001, MemoryProtection::read_write()),
        Err(MemoryError::OutOfMemory)
    );
}

#[test]
fn protect_changes_page_protection_only() {
    let mut manager = MemoryManager::new().unwrap();
    manager.write_u8(0x0050_0000, 7).unwrap();
    manager.protect(0x0050_0000, 1, MemoryProtection::read_only()).unwrap();
    assert_eq!(manager.read_u8(0x0050_0000).unwrap(), 7);
    let pages = manager.get_dirty_pages();
    assert_eq!(pages.len(), 1);
    assert_eq!(pages[0].protection, MemoryProtection::read_only());
}

#[test]
fn dirty_pages_are_tracked_and_cleared() {
    let mut manager = MemoryManager::new().unwrap();
    assert_eq!(manager.get_dirty_pages().len(), 0);
    manager.write_u8(0x0050_0000, 1).unwrap();
    manager.write_u8(0x0050_2000, 1).unwrap();
    manager.write_u8(0x0050_2001, 1).unwrap();
    assert_eq!(manager.get_dirty_pages().len(), 2);
    manager.clear_dirty_flags();
    assert_eq!(manager.get_dirty_pages().len(), 0);
}

#[test]
fn page_enforces_its_protection() {
    let mut page = MemoryPage::new(0x1000, MemoryProtection::read_only());
    assert_eq!(page.read_byte(5), Ok(0));
    assert_eq!(page.write_byte(5, 1), Err(MemoryError::NotWritable));
    assert_eq!(page.read_byte(4096), Err(MemoryError::OffsetOutOfBounds));
    let mut rw = MemoryPage::new(0x2000, MemoryProtection::read_write());
    assert_eq!(rw.write_byte(4096, 1), Err(MemoryError::OffsetOutOfBounds));
    rw.write_bytes(4094, &[1, 2]).unwrap();
    assert_eq!(rw.read_bytes(4094, 2).unwrap(), vec![1, 2]);
    assert!(rw.is_dirty);
    assert_eq!(rw.read_bytes(4095, 2), Err(MemoryError::ReadRangeOutOfBounds));
    assert_eq!(rw.write_bytes(4095, &[1, 2]), Err(MemoryError::WriteRangeOutOfBounds));
    let none = MemoryPage::new(0x3000, MemoryProtection::new());
    assert_eq!(none.read_byte(0), Err(MemoryError::NotReadable));
}

#[test]
fn unreadable_pages_refuse_reads() {
    let mut m = MemoryManager::new().unwrap();
    let a = m.allocate(0x1000, MemoryProtection::new()).unwrap();
    // writes ignore protection; reads do not
    assert_eq!(m.write_u32(a, 7), Ok(()));
    assert_eq!(m.read_u8(a), Err(MemoryError::NotReadable));
    assert_eq!(m.read_u32(a), Err(MemoryError::NotReadable));
    assert_eq!(m.read_bytes(a - 4, 8), Err(MemoryError::InvalidPageAddress));
    assert_eq!(m.read_bytes(a + 0x0FFC, 8), Err(MemoryError::NotReadable));
    m.protect(a, 0x1000, MemoryProtection::read_only()).unwrap();
    assert_eq!(m.read_u32(a), Ok(7));
}
