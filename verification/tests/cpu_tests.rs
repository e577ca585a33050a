use steam_mobile::cpu::{CpuError, InstructionOperand, MemoryOperand, Register, X86Instruction, X86Registers, CPU};
use steam_mobile::memory::{MemoryError, MemoryManager};

fn cpu() -> CPU {
    CPU::new(MemoryManager::new().unwrap()).unwrap()
}

fn inst(opcode: u8, modrm: Option<u8>, operands: Vec<InstructionOperand>) -> X86Instruction {
    X86Instruction { opcode, modrm, sib: None, displacement: None, immediate: None, operands, length: 2 }
}

fn reg(r: Register) -> InstructionOperand {
    InstructionOperand::Register(r)
}

fn mem(base: Register, displacement: i32) -> InstructionOperand {
    InstructionOperand::Memory(MemoryOperand { base: Some(base), index: None, scale: 1, displacement })
}

#[test]
fn reset_state() {
    let c = cpu();
    let r = c.get_registers();
    assert_eq!(*r, X86Registers::default());
    assert_eq!(r.esp, 0x7FFF_F000);
    assert_eq!(r.eax, 0);
    assert_eq!(c.get_instruction_pointer(), 0);
}

#[test]
fn decode_errors() {
    let c = cpu();
    assert_eq!(c.decode_instruction(&[]).unwrap_err(), CpuError::EmptyInstructionBytes);
    assert_eq!(c.decode_instruction(&[0x01]).unwrap_err(), CpuError::IncompleteModRM);
    // mod 2: four displacement bytes are missing
    assert_eq!(c.decode_instruction(&[0x89, 0x80, 1]).unwrap_err(), CpuError::IncompleteDisplacement);
    // 0xB8 (MOV EAX, imm32) takes no ModR/M byte but a 32-bit immediate
    assert_eq!(c.decode_instruction(&[0xB8, 1, 2, 3]).unwrap_err(), CpuError::IncompleteImmediate);
}

#[test]
fn decode_register_form() {
    let c = cpu();
    let i = c.decode_instruction(&[0x01, 0xD8]).unwrap();
    assert_eq!(i.opcode, 0x01);
    assert_eq!(i.modrm, Some(0xD8));
    assert_eq!(i.length, 2);
    assert_eq!(i.operands, vec![reg(Register::EBX), reg(Register::EAX)]);
}

#[test]
fn decode_displacement_and_immediate() {
    let c = cpu();
    // mod 1, rm 3: an 8-bit displacement follows
    let i = c.decode_instruction(&[0x8B, 0x43, 0xFC]).unwrap();
    assert_eq!(i.displacement, Some(-4));
    assert_eq!(i.length, 3);
    assert_eq!(i.operands[1], mem(Register::EBX, -4));
    // MOV EAX, imm32: five bytes, no ModR/M byte
    let i = c.decode_instruction(&[0xB8, 0x78, 0x56, 0x34, 0x12]).unwrap();
    assert_eq!(i.modrm, None);
    assert_eq!(i.displacement, None);
    assert_eq!(i.immediate, Some(0x12345678));
    assert_eq!(i.length, 5);
    assert_eq!(i.operands, vec![InstructionOperand::Immediate(0x12345678)]);
    // NOP: one byte
    let i = c.decode_instruction(&[0x90]).unwrap();
    assert_eq!(i.modrm, None);
    assert_eq!(i.length, 1);
    // MOV EAX, [EBP-4]
    let i = c.decode_instruction(&[0x8B, 0x45, 0xFC]).unwrap();
    assert_eq!(i.length, 3);
    assert_eq!(i.modrm, Some(0x45));
    assert_eq!(i.immediate, None);
    assert_eq!(i.operands, vec![reg(Register::EAX), mem(Register::EBP, -4)]);
    // SIB byte with mod 2: four displacement bytes after it
    let i = c.decode_instruction(&[0x89, 0x84, 0x24, 0x10, 0, 0, 0]).unwrap();
    assert_eq!(i.sib, Some(0x24));
    assert_eq!(i.displacement, Some(0x10));
    assert_eq!(i.length, 7);
    assert_eq!(
        i.operands[1],
        InstructionOperand::Memory(MemoryOperand {
            base: Some(Register::ESP),
            index: Some(Register::ESP),
            scale: 1,
            displacement: 0x10
        })
    );
}

#[test]
fn mov_between_registers() {
    let mut c = cpu();
    c.registers.eax = 0x1234;
    c.execute_instruction(inst(0x89, Some(0xC3), vec![reg(Register::EAX), reg(Register::EBX)])).unwrap();
    assert_eq!(c.registers.ebx, 0x1234);
    c.execute_instruction(inst(0x8B, Some(0xC8), vec![reg(Register::ECX), reg(Register::EBX)])).unwrap();
    assert_eq!(c.registers.ecx, 0x1234);
}

#[test]
fn mov_to_and_from_memory() {
    let mut c = cpu();
    c.registers.esi = 0x0050_0000;
    c.registers.eax = 0xCAFEBABE;
    c.execute_instruction(inst(0x89, Some(0x46), vec![reg(Register::EAX), mem(Register::ESI, 8)])).unwrap();
    assert_eq!(c.memory.read_u32(0x0050_0008).unwrap(), 0xCAFEBABE);
    c.execute_instruction(inst(0x8B, Some(0x4E), vec![reg(Register::ECX), mem(Register::ESI, 8)])).unwrap();
    assert_eq!(c.registers.ecx, 0xCAFEBABE);
    // unmapped memory
    c.registers.esi = 0x0000_1000;
    assert_eq!(
        c.execute_instruction(inst(0x8B, Some(0x0E), vec![reg(Register::ECX), mem(Register::ESI, 0)])),
        Err(CpuError::Memory(MemoryError::InvalidPageAddress))
    );
}

#[test]
fn add_sets_flags() {
    let mut c = cpu();
    c.registers.eax = 0xFFFF_FFFF;
    c.registers.ebx = 1;
    c.execute_instruction(inst(0x01, Some(0xD8), vec![reg(Register::EBX), reg(Register::EAX)])).unwrap();
    assert_eq!(c.registers.eax, 0);
    // ZF and CF set, SF and OF clear
    assert_eq!(c.registers.eflags & 0x40, 0x40);
    assert_eq!(c.registers.eflags & 0x01, 0x01);
    assert_eq!(c.registers.eflags & 0x80, 0);
    assert_eq!(c.registers.eflags & 0x800, 0);
    c.registers.eax = 0x7FFF_FFFF;
    c.execute_instruction(inst(0x03, Some(0xC3), vec![reg(Register::EAX), reg(Register::EBX)])).unwrap();
    assert_eq!(c.registers.eax, 0x8000_0000);
    // SF and OF set
    assert_eq!(c.registers.eflags & 0x80, 0x80);
    assert_eq!(c.registers.eflags & 0x800, 0x800);
    assert_eq!(c.registers.eflags & 0x40, 0);
}

#[test]
fn add_to_memory() {
    let mut c = cpu();
    c.memory.write_u32(0x0050_0020, 40).unwrap();
    c.registers.edi = 0x0050_0020;
    c.registers.edx = 2;
    c.execute_instruction(inst(0x01, Some(0x17), vec![reg(Register::EDX), mem(Register::EDI, 0)])).unwrap();
    assert_eq!(c.memory.read_u32(0x0050_0020).unwrap(), 42);
}

#[test]
fn partial_registers() {
    let mut c = cpu();
    c.registers.eax = 0x1122_3344;
    c.registers.ebx = 0;
    c.execute_instruction(inst(0x89, Some(0xC3), vec![reg(Register::AX), reg(Register::BX)])).unwrap();
    assert_eq!(c.registers.ebx, 0x3344);
    c.execute_instruction(inst(0x89, Some(0xC3), vec![reg(Register::AH), reg(Register::CL)])).unwrap();
    assert_eq!(c.registers.ecx, 0x33);
    c.execute_instruction(inst(0x89, Some(0xC3), vec![reg(Register::AL), reg(Register::DL)])).unwrap();
    assert_eq!(c.registers.edx, 0x44);
}

#[test]
fn inc_dec_push_call_jmp() {
    let mut c = cpu();
    c.registers.ecx = 9;
    c.execute_instruction(inst(0xFF, Some(0xC1), vec![reg(Register::ECX)])).unwrap();
    assert_eq!(c.registers.ecx, 10);
    c.execute_instruction(inst(0xFF, Some(0xC9), vec![reg(Register::ECX)])).unwrap();
    assert_eq!(c.registers.ecx, 9);
    // PUSH ECX
    c.execute_instruction(inst(0xFF, Some(0xF1), vec![reg(Register::ECX)])).unwrap();
    assert_eq!(c.registers.esp, 0x7FFF_EFFC);
    assert_eq!(c.memory.read_u32(0x7FFF_EFFC).unwrap(), 9);
    // CALL ECX pushes the instruction pointer and jumps
    c.set_instruction_pointer(0x0040_0010);
    c.execute_instruction(inst(0xFF, Some(0xD1), vec![reg(Register::ECX)])).unwrap();
    assert_eq!(c.get_instruction_pointer(), 9);
    assert_eq!(c.registers.esp, 0x7FFF_EFF8);
    assert_eq!(c.memory.read_u32(0x7FFF_EFF8).unwrap(), 0x0040_0010);
    // JMP ECX
    c.registers.ecx = 0x0040_0100;
    c.execute_instruction(inst(0xFF, Some(0xE1), vec![reg(Register::ECX)])).unwrap();
    assert_eq!(c.get_instruction_pointer(), 0x0040_0100);
}

#[test]
fn execution_errors() {
    let mut c = cpu();
    assert_eq!(c.execute_instruction(inst(0x0F, None, vec![])), Err(CpuError::UnimplementedOpcode(0x0F)));
    assert_eq!(c.execute_instruction(inst(0x89, Some(0xC0), vec![])), Err(CpuError::MovRequiresTwoOperands));
    assert_eq!(c.execute_instruction(inst(0xFF, Some(0xC0), vec![])), Err(CpuError::GroupFfRequiresOperands));
    assert_eq!(
        c.execute_instruction(inst(0xFF, None, vec![reg(Register::EAX)])),
        Err(CpuError::GroupFfRequiresModRM)
    );
    assert_eq!(
        c.execute_instruction(inst(0xFF, Some(0xF8), vec![reg(Register::EAX)])),
        Err(CpuError::UnimplementedGroupFf(7))
    );
    assert_eq!(
        c.execute_instruction(inst(0xFF, Some(0xC0), vec![InstructionOperand::Immediate(1)])),
        Err(CpuError::CannotSetImmediate)
    );
}

#[test]
fn fetch_decodes_and_caches() {
    let mut c = cpu();
    c.memory.write_bytes(0x0040_0000, &[0x01, 0xD8, 0x01, 0xC3]).unwrap();
    c.set_instruction_pointer(0x0040_0000);
    let i = c.fetch_instruction().unwrap();
    assert_eq!(i.opcode, 0x01);
    assert_eq!(c.get_instruction_pointer(), 0x0040_0002);
    // Changing memory does not change a cached instruction
    c.memory.write_u8(0x0040_0001, 0xC0).unwrap();
    c.set_instruction_pointer(0x0040_0000);
    let again = c.fetch_instruction().unwrap();
    assert_eq!(again.modrm, Some(0xD8));
    assert_eq!(c.instruction_cache.len(), 1);
    // Fetching from unmapped memory fails and leaves the pointer
    c.set_instruction_pointer(0x0000_1000);
    assert_eq!(c.fetch_instruction().unwrap_err(), CpuError::Memory(MemoryError::InvalidPageAddress));
    assert_eq!(c.get_instruction_pointer(), 0x0000_1000);
}

#[test]
fn dec_sets_flags() {
    let mut c = cpu();
    c.registers.edx = 0;
    c.execute_instruction(inst(0xFF, Some(0xCA), vec![reg(Register::EDX)])).unwrap();
    assert_eq!(c.registers.edx, 0xFFFF_FFFF);
    // SF set, ZF and OF clear; DEC leaves CF as it was
    assert_eq!(c.registers.eflags & 0x01, 0);
    assert_eq!(c.registers.eflags & 0x80, 0x80);
    assert_eq!(c.registers.eflags & 0x40, 0);
    assert_eq!(c.registers.eflags & 0x800, 0);
    c.registers.edx = 0x8000_0000;
    c.execute_instruction(inst(0xFF, Some(0xCA), vec![reg(Register::EDX)])).unwrap();
    assert_eq!(c.registers.edx, 0x7FFF_FFFF);
    // signed overflow: negative minus positive gives a positive result
    assert_eq!(c.registers.eflags & 0x800, 0x800);
    assert_eq!(c.registers.eflags & 0x01, 0);
    c.registers.edx = 1;
    c.execute_instruction(inst(0xFF, Some(0xCA), vec![reg(Register::EDX)])).unwrap();
    assert_eq!(c.registers.eflags & 0x40, 0x40);
}

#[test]
fn register_writes_are_local() {
    let mut c = cpu();
    c.registers.eax = 0x1111_1111;
    c.registers.ebx = 0x2222_2222;
    c.execute_instruction(inst(0x89, Some(0xC3), vec![reg(Register::BL), reg(Register::AL)])).unwrap();
    assert_eq!(c.registers.eax, 0x1111_1122);
    assert_eq!(c.registers.ebx, 0x2222_2222);
    // A write to AH clears bits 16..24 and ORs the byte in (kept from the register model).
    c.registers.eax = 0x1234_5678;
    c.execute_instruction(inst(0x89, Some(0xC3), vec![reg(Register::BL), reg(Register::AH)])).unwrap();
    assert_eq!(c.registers.eax, 0x1200_7678);
}

#[test]
fn decoded_mov_and_add_write_the_rm_operand() {
    let mut c = cpu();
    c.registers.eax = 0xAAAA;
    c.registers.ebx = 0xBBBB;
    // 89 C3: MOV EBX, EAX
    let i = c.decode_instruction(&[0x89, 0xC3]).unwrap();
    c.execute_instruction(i).unwrap();
    assert_eq!(c.registers.ebx, 0xAAAA);
    assert_eq!(c.registers.eax, 0xAAAA);
    // 01 D8: ADD EAX, EBX
    c.registers.ebx = 1;
    let i = c.decode_instruction(&[0x01, 0xD8]).unwrap();
    c.execute_instruction(i).unwrap();
    assert_eq!(c.registers.eax, 0xAAAB);
    assert_eq!(c.registers.ebx, 1);
    // 89 45 FC: MOV [EBP-4], EAX
    c.registers.ebp = 0x0050_0010;
    let i = c.decode_instruction(&[0x89, 0x45, 0xFC]).unwrap();
    c.execute_instruction(i).unwrap();
    assert_eq!(c.memory.read_u32(0x0050_000C).unwrap(), 0xAAAB);
}

#[test]
fn inc_and_dec_keep_the_carry_flag() {
    let mut c = cpu();
    let i = c.decode_instruction(&[0xB8, 0xFF, 0xFF, 0xFF, 0xFF]).unwrap();
    c.execute_instruction(i).unwrap();
    // INC EAX
    c.execute_instruction(inst(0xFF, Some(0xC0), vec![reg(Register::EAX)])).unwrap();
    assert_eq!(c.registers.eax, 0);
    assert_eq!(c.registers.eflags & 0x8C1, 0x40);
    // DEC EAX with CF set: CF stays set
    c.registers.eflags |= 0x01;
    c.execute_instruction(inst(0xFF, Some(0xC8), vec![reg(Register::EAX)])).unwrap();
    assert_eq!(c.registers.eax, 0xFFFF_FFFF);
    assert_eq!(c.registers.eflags & 0x01, 0x01);
}
