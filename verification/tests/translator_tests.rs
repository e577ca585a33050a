use steam_mobile::cpu::{InstructionOperand, MemoryOperand, Register, X86Instruction};
use steam_mobile::translator::{ARMCondition, ARMOpcode, ARMRegister, BinaryTranslator, TranslateError};

fn inst(opcode: u8, modrm: Option<u8>, immediate: Option<u32>, operands: Vec<InstructionOperand>) -> X86Instruction {
    X86Instruction { opcode, modrm, sib: None, displacement: None, immediate, operands, length: 1 }
}

#[test]
fn test_translator_creation() {
    let translator = BinaryTranslator::new();
    assert!(translator.is_ok());
}

#[test]
fn test_nop_translation() {
    let mut translator = BinaryTranslator::new().unwrap();
    let nop_instruction = X86Instruction {
        opcode: 0x90,
        modrm: None,
        sib: None,
        displacement: None,
        immediate: None,
        operands: vec![],
        length: 1,
    };

    let result = translator.translate_instruction(nop_instruction);
    assert!(result.is_ok());

    let arm_instructions = result.unwrap();
    assert_eq!(arm_instructions.len(), 1);
    assert!(matches!(arm_instructions[0].opcode, ARMOpcode::NOP));
}

#[test]
fn test_mov_reg_imm_translation() {
    let mut translator = BinaryTranslator::new().unwrap();
    let mov_instruction = X86Instruction {
        opcode: 0xB8, // MOV EAX, imm32
        modrm: None,
        sib: None,
        displacement: None,
        immediate: Some(0x12345678),
        operands: vec![InstructionOperand::Immediate(0x12345678)],
        length: 5,
    };

    let result = translator.translate_instruction(mov_instruction);
    assert!(result.is_ok());

    let arm_instructions = result.unwrap();
    assert_eq!(arm_instructions.len(), 1);
    assert!(matches!(arm_instructions[0].opcode, ARMOpcode::MOV));
    assert_eq!(arm_instructions[0].immediate, Some(0x12345678));
}

#[test]
fn mov_imm_targets_the_encoded_register() {
    let mut t = BinaryTranslator::new().unwrap();
    // 0xBB is MOV EBX, imm32: EBX lives in R1.
    let r = t.translate_instruction(inst(0xBB, None, Some(7), vec![])).unwrap();
    assert_eq!(r[0].rd, Some(ARMRegister::R1));
    assert_eq!(r[0].condition, ARMCondition::AL);
    // 0xBC is MOV ESP, imm32.
    let r = t.translate_instruction(inst(0xBC, None, Some(7), vec![])).unwrap();
    assert_eq!(r[0].rd, Some(ARMRegister::SP));
    // Without an immediate the instruction is refused.
    assert_eq!(
        t.translate_instruction(inst(0xB9, None, None, vec![])),
        Err(TranslateError::MissingImmediate)
    );
}

#[test]
fn mov_and_add_register_forms() {
    let mut t = BinaryTranslator::new().unwrap();
    let ops = vec![
        InstructionOperand::Register(Register::ECX),
        InstructionOperand::Register(Register::EDX),
    ];
    // 89 D1 (MOV ECX, EDX) and 01 D1 (ADD ECX, EDX) decode as [EDX, ECX].
    let rm_ops = vec![
        InstructionOperand::Register(Register::EDX),
        InstructionOperand::Register(Register::ECX),
    ];
    let r = t.translate_instruction(inst(0x89, Some(0xD1), None, rm_ops.clone())).unwrap();
    assert_eq!(r.len(), 1);
    assert_eq!(r[0].opcode, ARMOpcode::MOV);
    assert_eq!(r[0].rd, Some(ARMRegister::R2));
    assert_eq!(r[0].rn, Some(ARMRegister::R3));
    let r = t.translate_instruction(inst(0x01, Some(0xD1), None, rm_ops)).unwrap();
    assert_eq!(r[0].opcode, ARMOpcode::ADD);
    assert_eq!(r[0].rd, Some(ARMRegister::R2));
    assert_eq!(r[0].rn, Some(ARMRegister::R2));
    assert_eq!(r[0].rm, Some(ARMRegister::R3));
    let r = t.translate_instruction(inst(0x03, Some(0xCA), None, ops.clone())).unwrap();
    assert_eq!(r[0].opcode, ARMOpcode::ADD);
    assert_eq!(r[0].rd, Some(ARMRegister::R2));
    assert_eq!(r[0].rm, Some(ARMRegister::R3));
    let r = t.translate_instruction(inst(0x8B, Some(0xCA), None, ops)).unwrap();
    assert_eq!(r[0].opcode, ARMOpcode::MOV);
}

#[test]
fn memory_forms_translate_to_nothing() {
    let mut t = BinaryTranslator::new().unwrap();
    let mem = InstructionOperand::Memory(MemoryOperand {
        base: Some(Register::EAX),
        index: None,
        scale: 1,
        displacement: 0,
    });
    let ops = vec![InstructionOperand::Register(Register::EBX), mem];
    let r = t.translate_instruction(inst(0x89, Some(0x18), None, ops)).unwrap();
    assert_eq!(r.len(), 0);
}

#[test]
fn operand_errors() {
    let mut t = BinaryTranslator::new().unwrap();
    assert_eq!(
        t.translate_instruction(inst(0x89, Some(0xC0), None, vec![])),
        Err(TranslateError::MovRequiresTwoOperands)
    );
    assert_eq!(
        t.translate_instruction(inst(0x01, Some(0xC0), None, vec![])),
        Err(TranslateError::AddRequiresTwoOperands)
    );
    let imm_src = vec![InstructionOperand::Register(Register::EAX), InstructionOperand::Immediate(1)];
    let imm_first = vec![InstructionOperand::Immediate(1), InstructionOperand::Register(Register::EAX)];
    assert_eq!(
        t.translate_instruction(inst(0x89, Some(0xC1), None, imm_first)),
        Err(TranslateError::MovRmRegSourceNotRegister)
    );
    assert_eq!(
        t.translate_instruction(inst(0x01, Some(0xC1), None, imm_src.clone())),
        Err(TranslateError::AddRmRegInvalidDestination)
    );
    assert_eq!(
        t.translate_instruction(inst(0x8B, Some(0xC2), None, imm_src.clone())),
        Err(TranslateError::MovRegRmInvalidSource)
    );
    assert_eq!(
        t.translate_instruction(inst(0x03, Some(0xC3), None, imm_src)),
        Err(TranslateError::AddRegRmInvalidSource)
    );
    // 16-bit registers have no ARM counterpart.
    let ax = vec![InstructionOperand::Register(Register::AX), InstructionOperand::Register(Register::EAX)];
    assert_eq!(
        t.translate_instruction(inst(0x89, Some(0xC4), None, ax)),
        Err(TranslateError::RegisterNotMapped)
    );
    assert_eq!(
        t.translate_instruction(inst(0x0F, None, None, vec![])),
        Err(TranslateError::UnsupportedOpcode(0x0F))
    );
}

#[test]
fn group_ff_forms() {
    let mut t = BinaryTranslator::new().unwrap();
    let ebx = || vec![InstructionOperand::Register(Register::EBX)];
    // INC EBX
    let r = t.translate_instruction(inst(0xFF, Some(0xC3), None, ebx())).unwrap();
    assert_eq!(r[0].opcode, ARMOpcode::ADD);
    assert_eq!(r[0].immediate, Some(1));
    // DEC EBX
    let r = t.translate_instruction(inst(0xFF, Some(0xCB), None, ebx())).unwrap();
    assert_eq!(r[0].opcode, ARMOpcode::SUB);
    // CALL EBX: push LR, then branch
    let r = t.translate_instruction(inst(0xFF, Some(0xD3), None, ebx())).unwrap();
    assert_eq!(r.len(), 2);
    assert_eq!(r[0].opcode, ARMOpcode::STR);
    assert_eq!(r[0].rd, Some(ARMRegister::LR));
    assert_eq!(r[0].immediate, Some(0xFFFF_FFFC));
    assert_eq!(r[1].opcode, ARMOpcode::BX);
    assert_eq!(r[1].rd, Some(ARMRegister::R1));
    // JMP EBX
    let r = t.translate_instruction(inst(0xFF, Some(0xE3), None, ebx())).unwrap();
    assert_eq!(r.len(), 1);
    assert_eq!(r[0].opcode, ARMOpcode::BX);
    // PUSH EBX
    let r = t.translate_instruction(inst(0xFF, Some(0xF3), None, ebx())).unwrap();
    assert_eq!(r[0].opcode, ARMOpcode::STR);
    assert_eq!(r[0].rn, Some(ARMRegister::SP));
    // reg field 3 is not translated
    assert_eq!(
        t.translate_instruction(inst(0xFF, Some(0xDB), None, ebx())),
        Err(TranslateError::UnimplementedGroupFf(3))
    );
    assert_eq!(
        t.translate_instruction(inst(0xFF, None, None, ebx())),
        Err(TranslateError::GroupFfRequiresModRM)
    );
    // The bytes of INC EBX are remembered: a fresh translator sees the operands.
    let mut fresh = BinaryTranslator::new().unwrap();
    assert_eq!(
        fresh.translate_instruction(inst(0xFF, Some(0xC3), None, vec![])),
        Err(TranslateError::GroupFfRequiresOperands)
    );
    assert_eq!(
        fresh.translate_instruction(inst(0xFF, Some(0xC3), None, vec![InstructionOperand::Immediate(3)])),
        Err(TranslateError::IncInvalidOperand)
    );
    // ... while the first translator answers from its cache.
    assert_eq!(t.translate_instruction(inst(0xFF, Some(0xC3), None, vec![])).unwrap().len(), 1);
}

#[test]
fn translations_are_cached_by_bytes() {
    let mut t = BinaryTranslator::new().unwrap();
    assert_eq!(t.get_stats().cache_size, 0);
    assert_eq!(t.get_stats().register_mappings, 8);
    let first = t.translate_instruction(inst(0xB8, None, Some(5), vec![])).unwrap();
    let second = t.translate_instruction(inst(0xB8, None, Some(5), vec![])).unwrap();
    assert_eq!(first, second);
    assert_eq!(t.get_stats().cache_size, 1);
    // A failed translation is not remembered.
    assert!(t.translate_instruction(inst(0x0F, None, None, vec![])).is_err());
    assert_eq!(t.get_stats().cache_size, 1);
    // Same bytes, different operands: the remembered translation answers.
    let ops = vec![
        InstructionOperand::Register(Register::ECX),
        InstructionOperand::Register(Register::EDX),
    ];
    let a = t.translate_instruction(inst(0x89, Some(0xD1), None, ops)).unwrap();
    let other = vec![
        InstructionOperand::Register(Register::EAX),
        InstructionOperand::Register(Register::EAX),
    ];
    let b = t.translate_instruction(inst(0x89, Some(0xD1), None, other)).unwrap();
    assert_eq!(a, b);
    assert_eq!(t.get_stats().cache_size, 2);
}
