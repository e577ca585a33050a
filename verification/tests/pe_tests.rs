use steam_mobile::memory::{MemoryError, MemoryManager, MemoryProtection};
use steam_mobile::pe::{PELoader, PeError, PE_MAGIC};

fn put16(d: &mut [u8], at: usize, v: u16) {
    d[at..at + 2].copy_from_slice(&v.to_le_bytes());
}

fn put32(d: &mut [u8], at: usize, v: u32) {
    d[at..at + 4].copy_from_slice(&v.to_le_bytes());
}

/// A PE image: DOS header, signature at 0x40, COFF header at 0x44, a
/// 96-byte optional header at 0x58, `dirs` data directories at 0xB8 and
/// `sections` section headers after them.
struct Image {
    data: Vec<u8>,
    dirs: usize,
    sections: usize,
}

impl Image {
    fn new(len: usize, image_base: u32, image_size: u32, entry: u32, dirs: usize) -> Image {
        let mut data = vec![0u8; len];
        data[0] = b'M';
        data[1] = b'Z';
        put32(&mut data, 60, 0x40);
        data[0x40..0x44].copy_from_slice(b"PE\0\0");
        put16(&mut data, 0x44, 0x014C);
        put16(&mut data, 0x44 + 16, 96);
        put16(&mut data, 0x58, 0x010B);
        put32(&mut data, 0x58 + 16, entry);
        put32(&mut data, 0x58 + 28, image_base);
        put32(&mut data, 0x58 + 56, image_size);
        put32(&mut data, 0x58 + 92, dirs as u32);
        Image { data, dirs, sections: 0 }
    }

    fn dir(&mut self, i: usize, va: u32, size: u32) {
        put32(&mut self.data, 0xB8 + 8 * i, va);
        put32(&mut self.data, 0xB8 + 8 * i + 4, size);
    }

    fn section(&mut self, name: &[u8], vsize: u32, va: u32, raw_size: u32, raw_offset: u32, ch: u32) {
        let at = 0xB8 + 8 * self.dirs + 40 * self.sections;
        self.data[at..at + name.len()].copy_from_slice(name);
        put32(&mut self.data, at + 8, vsize);
        put32(&mut self.data, at + 12, va);
        put32(&mut self.data, at + 16, raw_size);
        put32(&mut self.data, at + 20, raw_offset);
        put32(&mut self.data, at + 36, ch);
        self.sections += 1;
        put16(&mut self.data, 0x44 + 2, self.sections as u16);
    }
}

#[test]
fn test_pe_loader_creation() {
    let loader = PELoader::new();
    assert_eq!(loader.get_loaded_modules().len(), 0);
}

#[test]
fn test_dos_header_parsing() {
    let loader = PELoader::new();
    let mut data = vec![0u8; 64];

    // Set magic number
    data[0] = b'M';
    data[1] = b'Z';

    let dos_header = loader.parse_dos_header(&data).unwrap();
    assert_eq!(dos_header.magic, PE_MAGIC);
}

#[test]
fn test_coff_header_parsing() {
    let loader = PELoader::new();
    let data = [
        0x4C, 0x01, // Machine (i386)
        0x01, 0x00, // Number of sections
        0x12, 0x34, 0x56, 0x78, // Time/date stamp
        0x00, 0x00, 0x00, 0x00, // Symbol table pointer
        0x00, 0x00, 0x00, 0x00, // Number of symbols
        0xE0, 0x00, // Optional header size
        0x02, 0x00, // Characteristics
    ];

    let coff_header = loader.parse_coff_header(&data).unwrap();
    assert_eq!(coff_header.machine, 0x014C); // i386
    assert_eq!(coff_header.number_of_sections, 1);
    assert_eq!(coff_header.optional_header_size, 0x00E0);
}

#[test]
fn dos_header_fields() {
    let loader = PELoader::new();
    let mut data: Vec<u8> = (0..64u8).collect();
    data[0] = b'M';
    data[1] = b'Z';
    let h = loader.parse_dos_header(&data).unwrap();
    assert_eq!(h.last_page_size, 0x0302);
    assert_eq!(h.relocations_offset, 0x1B1A1918);
    assert_eq!(h.reserved1, [0x1F1E, 0x2120, 0x2322, 0x2524]);
    assert_eq!(h.reserved2[9], 0x3D3C);
    assert_eq!(h.pe_header_offset, 0x3F3E3D3C);
}

#[test]
fn parse_errors() {
    let loader = PELoader::new();
    assert_eq!(loader.parse_pe(&[0u8; 10]).unwrap_err(), PeError::FileTooSmall);
    assert_eq!(loader.parse_pe(&[0u8; 64]).unwrap_err(), PeError::InvalidDosSignature);
    let mut d = vec![0u8; 64];
    d[0] = b'M';
    d[1] = b'Z';
    put32(&mut d, 60, 64);
    assert_eq!(loader.parse_pe(&d).unwrap_err(), PeError::PeHeaderOffsetOutOfBounds);
    put32(&mut d, 60, 62);
    assert_eq!(loader.parse_pe(&d).unwrap_err(), PeError::PeSignatureOutOfBounds);
    put32(&mut d, 60, 4);
    assert_eq!(loader.parse_pe(&d).unwrap_err(), PeError::InvalidPeSignature);
    let mut img = Image::new(0x200, 0x2000_0000, 0x1000, 0, 0);
    img.data.truncate(0x60);
    assert_eq!(loader.parse_pe(&img.data).unwrap_err(), PeError::OptionalHeaderOutOfBounds);
    img.data.truncate(0x50);
    assert_eq!(loader.parse_pe(&img.data).unwrap_err(), PeError::CoffHeaderOutOfBounds);
    let mut img = Image::new(0x200, 0x2000_0000, 0x1000, 0, 2);
    img.data.truncate(0xB8 + 8);
    assert_eq!(loader.parse_pe(&img.data).unwrap_err(), PeError::DataDirectoriesOutOfBounds);
    let mut img = Image::new(0xB8 + 40, 0x2000_0000, 0x1000, 0, 0);
    img.section(b".text", 0, 0, 0, 0, 0);
    img.data.truncate(0xB8 + 39);
    assert_eq!(loader.parse_pe(&img.data).unwrap_err(), PeError::SectionHeadersOutOfBounds);
}

#[test]
fn parse_headers_and_sections() {
    let loader = PELoader::new();
    let mut img = Image::new(0x200, 0x2000_0000, 0x3000, 0x1000, 2);
    img.dir(1, 0x2000, 0x28);
    img.section(b".text", 0x10, 0x1000, 4, 0x100, 0x6000_0020);
    img.section(b".data", 0x20, 0x2000, 0, 0, 0xC000_0040);
    let pe = loader.parse_pe(&img.data).unwrap();
    assert_eq!(pe.coff_header.number_of_sections, 2);
    let opt = pe.optional_header.unwrap();
    assert_eq!(opt.entry_point, 0x1000);
    assert_eq!(opt.image_base, 0x2000_0000);
    assert_eq!(opt.data_directories_count, 2);
    assert_eq!(pe.data_directories.len(), 2);
    assert_eq!(pe.data_directories[1].virtual_address, 0x2000);
    assert_eq!(pe.data_directories[1].size, 0x28);
    assert_eq!(pe.sections.len(), 2);
    assert_eq!(&pe.sections[0].name, b".text\0\0\0");
    assert_eq!(pe.sections[1].virtual_address, 0x2000);
    assert_eq!(pe.sections[1].characteristics, 0xC000_0040);
    assert_eq!(pe.raw_data.len(), 0x200);
}

#[test]
fn load_maps_sections_at_preferred_base() {
    let mut loader = PELoader::new();
    let mut memory = MemoryManager::new().unwrap();
    let mut img = Image::new(0x200, 0x2000_0000, 0x2000, 0x1000, 0);
    img.section(b".text", 0x10, 0x1000, 4, 0x100, 0x6000_0020);
    img.data[0x100..0x104].copy_from_slice(&[0x90, 0x91, 0x92, 0x93]);
    assert!(!PELoader::load_would_panic(&img.data));
    let entry = loader.load(&img.data, "game.exe".to_string(), &mut memory).unwrap();
    assert_eq!(entry, 0x2000_1000);
    assert_eq!(memory.read_bytes(0x2000_1000, 4).unwrap(), vec![0x90, 0x91, 0x92, 0x93]);
    assert_eq!(memory.read_bytes(0x2000_1004, 12).unwrap(), vec![0u8; 12]);
    let modules = loader.get_loaded_modules();
    assert_eq!(modules.len(), 1);
    assert_eq!(modules[0].0, "game.exe");
    assert_eq!(modules[0].1, 0x2000_0000);
}

#[test]
fn load_resolves_imports() {
    let mut loader = PELoader::new();
    let mut memory = MemoryManager::new().unwrap();
    let mut img = Image::new(0x300, 0x2000_0000, 0x3000, 0x1000, 2);
    img.dir(1, 0x2000, 0x28);
    img.section(b".idata", 0x100, 0x2000, 0x100, 0x200, 0xC000_0040);
    let base = 0x200;
    // descriptor: lookup table, stamp, chain, name, address table
    put32(&mut img.data, base, 0x2050);
    put32(&mut img.data, base + 12, 0x2040);
    put32(&mut img.data, base + 16, 0x2060);
    img.data[base + 0x40..base + 0x40 + 13].copy_from_slice(b"kernel32.dll\0");
    put32(&mut img.data, base + 0x60, 0x2080);
    put32(&mut img.data, base + 0x64, 0x8000_0005);
    put32(&mut img.data, base + 0x68, 0x2090);
    img.data[base + 0x82..base + 0x82 + 13].copy_from_slice(b"GetLastError\0");
    img.data[base + 0x92..base + 0x92 + 8].copy_from_slice(b"Unknown\0");
    loader.load(&img.data, "app.exe".to_string(), &mut memory).unwrap();
    assert_eq!(memory.read_u32(0x2000_2060).unwrap(), 0x7c801d7a);
    assert_eq!(memory.read_u32(0x2000_2064).unwrap(), 0x8000_0005);
    assert_eq!(memory.read_u32(0x2000_2068).unwrap(), 0xDEADBEEF);
}

#[test]
fn load_relocates_when_preferred_base_is_taken() {
    let mut loader = PELoader::new();
    let mut memory = MemoryManager::new().unwrap();
    // 0x400000 holds the code segment, so the image goes elsewhere.
    let mut img = Image::new(0x300, 0x0040_0000, 0x3000, 0x1000, 6);
    img.dir(5, 0x2000, 10);
    img.section(b".data", 0x10, 0x1000, 4, 0x200, 0xC000_0040);
    img.section(b".reloc", 0x10, 0x2000, 10, 0x210, 0x4000_0040);
    put32(&mut img.data, 0x200, 0x0040_1234);
    put32(&mut img.data, 0x210, 0x1000);
    put32(&mut img.data, 0x214, 10);
    put16(&mut img.data, 0x218, 0x3000);
    let entry = loader.load(&img.data, "reloc.exe".to_string(), &mut memory).unwrap();
    assert_eq!(entry, 0x1000_1000);
    assert_eq!(memory.read_u32(0x1000_1000).unwrap(), 0x0040_1234 + (0x1000_0000 - 0x0040_0000));
}

#[test]
fn reloading_a_module_replaces_its_record() {
    let mut loader = PELoader::new();
    let mut memory = MemoryManager::new().unwrap();
    let a = Image::new(0x100, 0x2000_0000, 0x1000, 0x10, 0);
    let b = Image::new(0x100, 0x3000_0000, 0x1000, 0x10, 0);
    loader.load(&a.data, "m.dll".to_string(), &mut memory).unwrap();
    loader.load(&b.data, "m.dll".to_string(), &mut memory).unwrap();
    let modules = loader.get_loaded_modules();
    assert_eq!(modules.len(), 1);
    assert_eq!(modules[0].1, 0x3000_0000);
}

#[test]
fn load_errors() {
    let mut loader = PELoader::new();
    let mut memory = MemoryManager::new().unwrap();
    assert_eq!(
        loader.load(&[0u8; 8], "x".to_string(), &mut memory),
        Err(PeError::FileTooSmall)
    );
    // A section whose raw data cannot be written: its address is unmapped.
    let mut img = Image::new(0x200, 0x2000_0000, 0x1000, 0, 0);
    img.section(b".big", 0x10, 0x5000, 4, 0x100, 0);
    assert_eq!(
        loader.load(&img.data, "x".to_string(), &mut memory),
        Err(PeError::Memory(MemoryError::InvalidPageAddress))
    );
    assert_eq!(loader.get_loaded_modules().len(), 0);
    let _ = MemoryProtection::read_only();
}

#[test]
fn short_optional_header_is_detected() {
    let mut img = Image::new(0x200, 0x2000_0000, 0x1000, 0, 0);
    put16(&mut img.data, 0x44 + 16, 40);
    assert!(PELoader::load_would_panic(&img.data));
    let mut none = Image::new(0x200, 0x2000_0000, 0x1000, 0, 0);
    put16(&mut none.data, 0x44 + 16, 0);
    assert!(PELoader::load_would_panic(&none.data));
    assert!(!PELoader::load_would_panic(&[0u8; 8]));
}

#[test]
fn later_sections_overwrite_earlier_ones() {
    let mut loader = PELoader::new();
    let mut memory = MemoryManager::new().unwrap();
    let mut img = Image::new(0x300, 0x2000_0000, 0x2000, 0x1000, 0);
    img.section(b".a", 0x10, 0x1000, 4, 0x200, 0);
    img.section(b".b", 0x4, 0x1002, 2, 0x210, 0);
    img.data[0x200..0x204].copy_from_slice(&[1, 2, 3, 4]);
    img.data[0x210..0x212].copy_from_slice(&[9, 8]);
    loader.load(&img.data, "overlap.exe".to_string(), &mut memory).unwrap();
    assert_eq!(memory.read_bytes(0x2000_1000, 8).unwrap(), vec![1, 2, 9, 8, 0, 0, 0, 0]);
}

#[test]
fn relocation_table_ends_at_a_short_block() {
    let mut loader = PELoader::new();
    let mut memory = MemoryManager::new().unwrap();
    let mut img = Image::new(0x300, 0x0040_0000, 0x3000, 0x1000, 6);
    img.dir(5, 0x2000, 20);
    img.section(b".data", 0x10, 0x1000, 8, 0x200, 0xC000_0040);
    img.section(b".reloc", 0x20, 0x2000, 20, 0x210, 0x4000_0040);
    put32(&mut img.data, 0x200, 0x0040_0010);
    put32(&mut img.data, 0x204, 0x0040_0020);
    // one block: an absolute entry (skipped) and a HIGHLOW entry at +4
    put32(&mut img.data, 0x210, 0x1000);
    put32(&mut img.data, 0x214, 12);
    put16(&mut img.data, 0x218, 0x0000);
    put16(&mut img.data, 0x21A, 0x3004);
    // a block whose size is under 8 ends the table
    put32(&mut img.data, 0x21C, 0x1000);
    put32(&mut img.data, 0x220, 4);
    loader.load(&img.data, "reloc2.exe".to_string(), &mut memory).unwrap();
    assert_eq!(memory.read_u32(0x1000_1000).unwrap(), 0x0040_0010);
    assert_eq!(memory.read_u32(0x1000_1004).unwrap(), 0x0040_0020 + (0x1000_0000 - 0x0040_0000));
}
