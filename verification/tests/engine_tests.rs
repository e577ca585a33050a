use steam_mobile::pe::PeError;
use steam_mobile::{EmulationEngine, EngineError};

#[test]
fn test_engine_creation() {
    let engine = EmulationEngine::new();
    assert!(engine.is_ok());
}

#[test]
fn test_emulation_engine_creation() {
    let engine = EmulationEngine::new();
    assert!(engine.is_ok());
}

#[test]
fn engine_starts_clean() {
    let engine = EmulationEngine::new().unwrap();
    assert_eq!(engine.cpu.registers.eip, 0);
    assert_eq!(engine.cpu.memory.get_regions().len(), 3);
    assert_eq!(engine.translator.get_stats().cache_size, 0);
}

#[test]
fn execute_pe_refuses_a_bad_file() {
    let mut engine = EmulationEngine::new().unwrap();
    assert_eq!(engine.execute_pe(&[0u8; 16], "bad.exe".to_string()), Err(EngineError::Pe(PeError::FileTooSmall)));
    assert_eq!(engine.cpu.registers.eip, 0);
}

#[test]
fn execute_pe_runs_until_a_step_fails() {
    let mut data = vec![0u8; 0x200];
    data[0] = b'M';
    data[1] = b'Z';
    data[60..64].copy_from_slice(&0x40u32.to_le_bytes());
    data[0x40..0x44].copy_from_slice(b"PE\0\0");
    data[0x46..0x48].copy_from_slice(&1u16.to_le_bytes());
    data[0x54..0x56].copy_from_slice(&96u16.to_le_bytes());
    data[0x58 + 16..0x58 + 20].copy_from_slice(&0x1000u32.to_le_bytes());
    data[0x58 + 28..0x58 + 32].copy_from_slice(&0x2000_0000u32.to_le_bytes());
    data[0x58 + 56..0x58 + 60].copy_from_slice(&0x2000u32.to_le_bytes());
    // .text: va 0x1000, 16 bytes, 6 of them in the file at 0x100
    let s = 0xB8;
    data[s..s + 5].copy_from_slice(b".text");
    data[s + 8..s + 12].copy_from_slice(&0x10u32.to_le_bytes());
    data[s + 12..s + 16].copy_from_slice(&0x1000u32.to_le_bytes());
    data[s + 16..s + 20].copy_from_slice(&6u32.to_le_bytes());
    data[s + 20..s + 24].copy_from_slice(&0x100u32.to_le_bytes());
    // ADD EAX, EBX; ADD EBX, EAX; then an opcode that is not translated
    data[0x100..0x106].copy_from_slice(&[0x01, 0xD8, 0x01, 0xC3, 0x0F, 0x0B]);
    let mut engine = EmulationEngine::new().unwrap();
    let r = engine.execute_pe(&data, "game.exe".to_string());
    assert!(matches!(r, Err(EngineError::Translate(_))));
    assert_eq!(engine.cpu.registers.eip, 0x2000_1006);
    assert_eq!(engine.translator.get_stats().cache_size, 2);
}

#[test]
fn step_advances_the_instruction_pointer() {
    let mut engine = EmulationEngine::new().unwrap();
    engine.cpu.memory.write_bytes(0x0040_0000, &[0x01, 0xD8]).unwrap();
    engine.cpu.set_instruction_pointer(0x0040_0000);
    assert_eq!(engine.step(), Ok(()));
    assert_eq!(engine.cpu.registers.eip, 0x0040_0002);
    engine.cpu.set_instruction_pointer(0x0000_1000);
    assert!(matches!(engine.step(), Err(EngineError::Cpu(_))));
}

#[test]
fn run_for_counts_steps() {
    let mut engine = EmulationEngine::new().unwrap();
    engine.cpu.memory.write_bytes(0x0040_0000, &[0x01, 0xD8, 0x01, 0xC3, 0x01, 0xD8]).unwrap();
    engine.cpu.set_instruction_pointer(0x0040_0000);
    let stats = engine.run_for(2).unwrap();
    assert_eq!(stats.instructions_executed, 2);
    assert_eq!(stats.last_instruction_pointer, 0x0040_0004);
    // The third instruction was translated before; the fourth (zero bytes) is not translated.
    assert!(matches!(engine.run_for(5), Err(EngineError::Translate(_))));
    assert_eq!(engine.run_for(0).unwrap().instructions_executed, 0);
}

#[test]
fn named_registers() {
    let mut engine = EmulationEngine::new().unwrap();
    assert!(engine.set_cpu_register("EAX", 7));
    assert!(engine.set_cpu_register("EFLAGS", 0x40));
    assert!(engine.set_cpu_register("EIP", 0x0040_0000));
    assert!(!engine.set_cpu_register("AX", 9));
    assert!(!engine.set_cpu_register("EAXX", 9));
    assert_eq!(engine.cpu.registers.eax, 7);
    assert_eq!(engine.cpu.registers.eflags, 0x40);
    assert_eq!(engine.cpu.get_instruction_pointer(), 0x0040_0000);
    // Names are matched in any case
    assert!(engine.set_cpu_register("ebx", 3));
    assert!(engine.set_cpu_register("Esp", 0x100));
    assert_eq!(engine.cpu.registers.ebx, 3);
    assert_eq!(engine.cpu.registers.esp, 0x100);
    // The upper-case form takes only upper-case names
    assert!(!engine.set_upper_cpu_register(&"eax".to_string(), 9));
    assert!(engine.set_upper_cpu_register(&"ECX".to_string(), 9));
    assert_eq!(engine.cpu.registers.ecx, 9);
    assert_eq!(engine.cpu.registers.eax, 7);
}

#[test]
fn game_profile_holds_launch_parameters() {
    let p = steam_mobile::runtime::GameProfile {
        exe_path: "game.exe".to_string(),
        arguments: vec!["-windowed".to_string()],
        working_directory: None,
    };
    let q = p.clone();
    assert_eq!(q.exe_path, "game.exe");
    assert_eq!(q.arguments.len(), 1);
    assert!(q.working_directory.is_none());
}
