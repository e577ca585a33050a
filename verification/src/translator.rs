//! Binary translation: turns decoded x86 instructions into ARM instruction
//! sequences, remembering every translation by the instruction's bytes.
use crate::cpu::{
    reg_value, step_outcome, u32_of_i32, CpuError, InstructionOperand, InstructionView, Register,
    X86Instruction, X86Registers,
};
use crate::memory::MemoryManager;
use vstd::wrapping::u32_specs::wrapping_add;
use crate::memory::le_u32_bytes;
use vstd::prelude::*;

verus! {

/// ARM instruction representation
#[derive(Debug, Clone, Copy, PartialEq, Eq, Structural)]
pub struct ARMInstruction {
    pub opcode: ARMOpcode,
    pub rd: Option<ARMRegister>,
    pub rn: Option<ARMRegister>,
    pub rm: Option<ARMRegister>,
    pub immediate: Option<u32>,
    pub condition: ARMCondition,
}

#[derive(Debug, Clone, Copy, PartialEq, Eq, Structural)]
pub enum ARMOpcode {
    // Data processing
    MOV,
    ADD,
    SUB,
    MUL,
    AND,
    ORR,
    EOR,
    CMP,
    // Memory operations
    LDR,
    STR,
    LDM,
    STM,
    // Branch operations
    B,
    BL,
    BX,
    // Special
    NOP,
}

#[derive(Debug, Clone, Copy, PartialEq, Eq, Structural)]
pub enum ARMRegister {
    R0,
    R1,
    R2,
    R3,
    R4,
    R5,
    R6,
    R7,
    R8,
    R9,
    R10,
    R11,
    R12,
    SP,
    LR,
    PC,
}

#[derive(Debug, Clone, Copy, PartialEq, Eq, Structural)]
pub enum ARMCondition {
    EQ,
    NE,
    CS,
    CC,
    MI,
    PL,
    VS,
    VC,
    HI,
    LS,
    GE,
    LT,
    GT,
    LE,
    AL,
    NV,
}

/// Why an x86 instruction could not be translated.
#[derive(Debug, Clone, Copy, PartialEq, Eq, Structural)]
pub enum TranslateError {
    /// A register index outside 0..=7.
    InvalidRegisterIndex,
    /// An x86 register that has no ARM counterpart.
    RegisterNotMapped,
    /// MOV reg32, imm32 without an immediate.
    MissingImmediate,
    /// The opcode is not translated.
    UnsupportedOpcode(u8),
    /// A MOV without exactly two operands.
    MovRequiresTwoOperands,
    /// MOV r/m32, r32 whose source is not a register.
    MovRmRegSourceNotRegister,
    /// MOV r/m32, r32 whose destination is an immediate.
    MovRmRegInvalidDestination,
    /// MOV r32, r/m32 whose destination is not a register.
    MovRegRmDestinationNotRegister,
    /// MOV r32, r/m32 whose source is an immediate.
    MovRegRmInvalidSource,
    /// An ADD without exactly two operands.
    AddRequiresTwoOperands,
    /// ADD r/m32, r32 whose source is not a register.
    AddRmRegSourceNotRegister,
    /// ADD r/m32, r32 whose destination is an immediate.
    AddRmRegInvalidDestination,
    /// ADD r32, r/m32 whose destination is not a register.
    AddRegRmDestinationNotRegister,
    /// ADD r32, r/m32 whose source is an immediate.
    AddRegRmInvalidSource,
    /// A 0xFF instruction without operands.
    GroupFfRequiresOperands,
    /// A 0xFF instruction without a ModR/M byte.
    GroupFfRequiresModRM,
    /// A 0xFF instruction whose ModR/M reg field selects nothing translated.
    UnimplementedGroupFf(u8),
    /// INC of an immediate.
    IncInvalidOperand,
    /// DEC of an immediate.
    DecInvalidOperand,
    /// CALL of an immediate.
    CallInvalidOperand,
    /// JMP of an immediate.
    JmpInvalidOperand,
    /// PUSH of an immediate.
    PushInvalidOperand,
}

/// Translation statistics
#[derive(Debug)]
pub struct TranslationStats {
    pub cache_size: usize,
    pub register_mappings: usize,
}

/// An unconditional ARM instruction.
pub open spec fn arm(
    opcode: ARMOpcode,
    rd: Option<ARMRegister>,
    rn: Option<ARMRegister>,
    rm: Option<ARMRegister>,
    immediate: Option<u32>,
) -> ARMInstruction {
    ARMInstruction { opcode, rd, rn, rm, immediate, condition: ARMCondition::AL }
}

/// The ARM register that holds an x86 register, where it has one.
pub open spec fn arm_register_for(r: Register) -> Option<ARMRegister> {
    match r {
        Register::EAX => Some(ARMRegister::R0),
        Register::EBX => Some(ARMRegister::R1),
        Register::ECX => Some(ARMRegister::R2),
        Register::EDX => Some(ARMRegister::R3),
        Register::ESI => Some(ARMRegister::R4),
        Register::EDI => Some(ARMRegister::R5),
        Register::EBP => Some(ARMRegister::R6),
        Register::ESP => Some(ARMRegister::SP),
        _ => None,
    }
}

/// The register mapping as a lookup result.
pub open spec fn mapped(r: Register) -> Result<ARMRegister, TranslateError> {
    match arm_register_for(r) {
        Some(a) => Ok(a),
        None => Err(TranslateError::RegisterNotMapped),
    }
}

/// The 32-bit register that a 3-bit x86 register number names.
pub open spec fn register_at_index(i: u8) -> Option<Register> {
    if i == 0 {
        Some(Register::EAX)
    } else if i == 1 {
        Some(Register::ECX)
    } else if i == 2 {
        Some(Register::EDX)
    } else if i == 3 {
        Some(Register::EBX)
    } else if i == 4 {
        Some(Register::ESP)
    } else if i == 5 {
        Some(Register::EBP)
    } else if i == 6 {
        Some(Register::ESI)
    } else if i == 7 {
        Some(Register::EDI)
    } else {
        None
    }
}

/// The bytes by which a translation is remembered: the opcode, the ModR/M
/// and SIB bytes where present, then displacement and immediate as
/// little-endian 32-bit words where present.
pub open spec fn instruction_key(inst: InstructionView) -> Seq<u8> {
    seq![inst.opcode] + match inst.modrm {
        Some(m) => seq![m],
        None => Seq::empty(),
    } + match inst.sib {
        Some(s) => seq![s],
        None => Seq::empty(),
    } + match inst.displacement {
        Some(d) => le_u32_bytes(u32_of_i32(d)),
        None => Seq::empty(),
    } + match inst.immediate {
        Some(i) => le_u32_bytes(i),
        None => Seq::empty(),
    }
}

/// The bit pattern of -4, the pre-decrement of a store to the stack.
pub open spec fn minus_four() -> u32 {
    0xFFFF_FFFC
}

/// MOV r/m32, r32: the operands are, as decoded, the source register and
/// then the r/m destination.
pub open spec fn spec_mov_rm_reg(ops: Seq<InstructionOperand>) -> Result<
    Seq<ARMInstruction>,
    TranslateError,
> {
    if ops.len() != 2 {
        Err(TranslateError::MovRequiresTwoOperands)
    } else {
        match ops[0] {
            InstructionOperand::Register(s) => match mapped(s) {
                Err(e) => Err(e),
                Ok(src) => match ops[1] {
                    InstructionOperand::Register(d) => match mapped(d) {
                        Err(e) => Err(e),
                        Ok(dst) => Ok(
                            seq![arm(ARMOpcode::MOV, Some(dst), Some(src), None, None)],
                        ),
                    },
                    InstructionOperand::Memory(_) => Ok(Seq::empty()),
                    InstructionOperand::Immediate(_) => Err(
                        TranslateError::MovRmRegInvalidDestination,
                    ),
                },
            },
            _ => Err(TranslateError::MovRmRegSourceNotRegister),
        }
    }
}

/// MOV r32, r/m32.
pub open spec fn spec_mov_reg_rm(ops: Seq<InstructionOperand>) -> Result<
    Seq<ARMInstruction>,
    TranslateError,
> {
    if ops.len() != 2 {
        Err(TranslateError::MovRequiresTwoOperands)
    } else {
        match ops[0] {
            InstructionOperand::Register(d) => match mapped(d) {
                Err(e) => Err(e),
                Ok(dst) => match ops[1] {
                    InstructionOperand::Register(s) => match mapped(s) {
                        Err(e) => Err(e),
                        Ok(src) => Ok(
                            seq![arm(ARMOpcode::MOV, Some(dst), Some(src), None, None)],
                        ),
                    },
                    InstructionOperand::Memory(_) => Ok(Seq::empty()),
                    InstructionOperand::Immediate(_) => Err(TranslateError::MovRegRmInvalidSource),
                },
            },
            _ => Err(TranslateError::MovRegRmDestinationNotRegister),
        }
    }
}

/// ADD r/m32, r32: the operands are, as decoded, the source register and
/// then the r/m destination.
pub open spec fn spec_add_rm_reg(ops: Seq<InstructionOperand>) -> Result<
    Seq<ARMInstruction>,
    TranslateError,
> {
    if ops.len() != 2 {
        Err(TranslateError::AddRequiresTwoOperands)
    } else {
        match ops[0] {
            InstructionOperand::Register(s) => match mapped(s) {
                Err(e) => Err(e),
                Ok(src) => match ops[1] {
                    InstructionOperand::Register(d) => match mapped(d) {
                        Err(e) => Err(e),
                        Ok(dst) => Ok(
                            seq![arm(ARMOpcode::ADD, Some(dst), Some(dst), Some(src), None)],
                        ),
                    },
                    InstructionOperand::Memory(_) => Ok(Seq::empty()),
                    InstructionOperand::Immediate(_) => Err(
                        TranslateError::AddRmRegInvalidDestination,
                    ),
                },
            },
            _ => Err(TranslateError::AddRmRegSourceNotRegister),
        }
    }
}

/// ADD r32, r/m32.
pub open spec fn spec_add_reg_rm(ops: Seq<InstructionOperand>) -> Result<
    Seq<ARMInstruction>,
    TranslateError,
> {
    if ops.len() != 2 {
        Err(TranslateError::AddRequiresTwoOperands)
    } else {
        match ops[0] {
            InstructionOperand::Register(d) => match mapped(d) {
                Err(e) => Err(e),
                Ok(dst) => match ops[1] {
                    InstructionOperand::Register(s) => match mapped(s) {
                        Err(e) => Err(e),
                        Ok(src) => Ok(
                            seq![arm(ARMOpcode::ADD, Some(dst), Some(dst), Some(src), None)],
                        ),
                    },
                    InstructionOperand::Memory(_) => Ok(Seq::empty()),
                    InstructionOperand::Immediate(_) => Err(TranslateError::AddRegRmInvalidSource),
                },
            },
            _ => Err(TranslateError::AddRegRmDestinationNotRegister),
        }
    }
}

/// The translation of a register operand of INC, DEC, CALL, JMP or PUSH
/// (selected by the ModR/M reg field `sel`).
pub open spec fn unary_register_form(sel: u8, a: ARMRegister) -> Seq<ARMInstruction> {
    if sel == 0 {
        seq![arm(ARMOpcode::ADD, Some(a), Some(a), None, Some(1))]
    } else if sel == 1 {
        seq![arm(ARMOpcode::SUB, Some(a), Some(a), None, Some(1))]
    } else if sel == 2 {
        seq![
            arm(ARMOpcode::STR, Some(ARMRegister::LR), Some(ARMRegister::SP), None, Some(minus_four())),
            arm(ARMOpcode::BX, Some(a), None, None, None),
        ]
    } else if sel == 4 {
        seq![arm(ARMOpcode::BX, Some(a), None, None, None)]
    } else {
        seq![arm(ARMOpcode::STR, Some(a), Some(ARMRegister::SP), None, Some(minus_four()))]
    }
}

/// The error for an immediate operand of the unary form `sel`.
pub open spec fn unary_invalid_operand(sel: u8) -> TranslateError {
    if sel == 0 {
        TranslateError::IncInvalidOperand
    } else if sel == 1 {
        TranslateError::DecInvalidOperand
    } else if sel == 2 {
        TranslateError::CallInvalidOperand
    } else if sel == 4 {
        TranslateError::JmpInvalidOperand
    } else {
        TranslateError::PushInvalidOperand
    }
}

/// INC, DEC, CALL, JMP or PUSH of one operand.
pub open spec fn spec_unary(sel: u8, op: InstructionOperand) -> Result<
    Seq<ARMInstruction>,
    TranslateError,
> {
    match op {
        InstructionOperand::Register(r) => match mapped(r) {
            Err(e) => Err(e),
            Ok(a) => Ok(unary_register_form(sel, a)),
        },
        InstructionOperand::Memory(_) => Ok(Seq::empty()),
        InstructionOperand::Immediate(_) => Err(unary_invalid_operand(sel)),
    }
}

/// The 0xFF group, selected by the ModR/M reg field.
pub open spec fn spec_ff_group(inst: InstructionView) -> Result<Seq<ARMInstruction>, TranslateError> {
    if inst.operands.len() == 0 {
        Err(TranslateError::GroupFfRequiresOperands)
    } else {
        match inst.modrm {
            None => Err(TranslateError::GroupFfRequiresModRM),
            Some(m) => {
                let sel = ((m / 8) % 8) as u8;
                if sel == 0 || sel == 1 || sel == 2 || sel == 4 || sel == 6 {
                    spec_unary(sel, inst.operands[0])
                } else {
                    Err(TranslateError::UnimplementedGroupFf(sel))
                }
            },
        }
    }
}

/// The ARM translation of one x86 instruction.
pub open spec fn spec_translate(inst: InstructionView) -> Result<Seq<ARMInstruction>, TranslateError> {
    let op = inst.opcode;
    if op == 0x90 {
        Ok(seq![arm(ARMOpcode::NOP, None, None, None, None)])
    } else if 0xB8 <= op <= 0xBF {
        match mapped(register_at_index((op - 0xB8) as u8).unwrap()) {
            Err(e) => Err(e),
            Ok(rd) => match inst.immediate {
                None => Err(TranslateError::MissingImmediate),
                Some(i) => Ok(seq![arm(ARMOpcode::MOV, Some(rd), None, None, Some(i))]),
            },
        }
    } else if op == 0x89 {
        spec_mov_rm_reg(inst.operands)
    } else if op == 0x8B {
        spec_mov_reg_rm(inst.operands)
    } else if op == 0x01 {
        spec_add_rm_reg(inst.operands)
    } else if op == 0x03 {
        spec_add_reg_rm(inst.operands)
    } else if op == 0xFF {
        spec_ff_group(inst)
    } else {
        Err(TranslateError::UnsupportedOpcode(op))
    }
}

/// What a translation request answers and leaves in the cache: a remembered
/// translation for the instruction's bytes is answered as it is; otherwise
/// the instruction is translated, and a successful translation is remembered.
pub open spec fn translate_outcome(
    cache: Map<Seq<u8>, Seq<ARMInstruction>>,
    inst: InstructionView,
) -> (Result<Seq<ARMInstruction>, TranslateError>, Map<Seq<u8>, Seq<ARMInstruction>>) {
    let key = instruction_key(inst);
    if cache.contains_key(key) {
        (Ok(cache[key]), cache)
    } else {
        match spec_translate(inst) {
            Ok(v) => (Ok(v), cache.insert(key, v)),
            Err(e) => (Err(e), cache),
        }
    }
}

/// A translation result with its instructions as a sequence.
pub open spec fn result_view(r: Result<Vec<ARMInstruction>, TranslateError>) -> Result<
    Seq<ARMInstruction>,
    TranslateError,
> {
    match r {
        Ok(v) => Ok(v@),
        Err(e) => Err(e),
    }
}

/// Asking twice for the translation of the same instruction gives the same
/// answer, and the second request leaves the cache as the first left it.
pub proof fn law_translation_is_stable(
    cache: Map<Seq<u8>, Seq<ARMInstruction>>,
    inst: InstructionView,
)
    ensures
        ({
            let (r1, c1) = translate_outcome(cache, inst);
            let (r2, c2) = translate_outcome(c1, inst);
            r2 == r1 && c2 == c1
        }),
{
}

/// A translation request never forgets a remembered translation, and keeps
/// every other one as it was.
pub proof fn law_cache_only_grows(
    cache: Map<Seq<u8>, Seq<ARMInstruction>>,
    inst: InstructionView,
    key: Seq<u8>,
)
    requires
        cache.contains_key(key),
    ensures
        translate_outcome(cache, inst).1.contains_key(key),
        translate_outcome(cache, inst).1[key] == cache[key],
{
}

/// A register-to-register MOV or ADD (opcodes 0x8B, 0x89, 0x03, 0x01)
/// translates to one ARM instruction that writes the ARM register holding
/// the x86 register that executing the instruction writes, and reads the
/// ARM register holding the one it reads: MOV r32, r/m32 and ADD r32, r/m32
/// write their first operand, MOV r/m32, r32 and ADD r/m32, r32 their
/// second. Executing the instruction sets that register to the source's
/// value (MOV) or to the wrapped sum of both (ADD).
pub proof fn law_register_forms_follow_execution(
    inst: InstructionView,
    x: Register,
    y: Register,
    regs: X86Registers,
    mem: MemoryManager,
    new_regs: X86Registers,
    new_mem: MemoryManager,
    r: Result<(), CpuError>,
)
    requires
        inst.opcode == 0x8B || inst.opcode == 0x89 || inst.opcode == 0x03 || inst.opcode == 0x01,
        inst.operands == seq![InstructionOperand::Register(x), InstructionOperand::Register(y)],
        arm_register_for(x) is Some,
        arm_register_for(y) is Some,
        step_outcome(new_regs, new_mem, regs, mem, inst, r),
    ensures
        ({
            let to_first = inst.opcode == 0x8B || inst.opcode == 0x03;
            let w = if to_first {
                x
            } else {
                y
            };
            let s = if to_first {
                y
            } else {
                x
            };
            &&& r is Ok
            &&& new_mem == mem
            &&& if inst.opcode == 0x8B || inst.opcode == 0x89 {
                &&& reg_value(new_regs, w) == reg_value(regs, s)
                &&& spec_translate(inst) == Ok::<Seq<ARMInstruction>, TranslateError>(
                    seq![(ARMInstruction {
                        opcode: ARMOpcode::MOV,
                        rd: arm_register_for(w),
                        rn: arm_register_for(s),
                        rm: None,
                        immediate: None,
                        condition: ARMCondition::AL,
                    })],
                )
            } else {
                &&& reg_value(new_regs, w) == wrapping_add(reg_value(regs, w), reg_value(regs, s))
                &&& spec_translate(inst) == Ok::<Seq<ARMInstruction>, TranslateError>(
                    seq![(ARMInstruction {
                        opcode: ARMOpcode::ADD,
                        rd: arm_register_for(w),
                        rn: arm_register_for(w),
                        rm: arm_register_for(s),
                        immediate: None,
                        condition: ARMCondition::AL,
                    })],
                )
            }
        }),
{
}

/// The 32-bit pattern of a signed value.
fn bits_of_i32(v: i32) -> (r: u32)
    ensures
        r == u32_of_i32(v),
{
    if v >= 0 {
        v as u32
    } else {
        (v as i64 + 0x1_0000_0000i64) as u32
    }
}

/// Appends the four little-endian bytes of `v`.
fn push_le_u32(bytes: &mut Vec<u8>, v: u32)
    ensures
        final(bytes)@ == old(bytes)@ + le_u32_bytes(v),
{
    bytes.push((v % 256) as u8);
    bytes.push(((v / 256) % 256) as u8);
    bytes.push(((v / 65536) % 256) as u8);
    bytes.push((v / 16777216) as u8);
    assert(final(bytes)@ =~= old(bytes)@ + le_u32_bytes(v));
}

/// Whether two byte vectors hold the same bytes.
fn same_bytes(a: &Vec<u8>, b: &Vec<u8>) -> (r: bool)
    ensures
        r == (a@ == b@),
{
    if a.len() != b.len() {
        return false;
    }
    let mut i: usize = 0;
    while i < a.len()
        invariant
            a@.len() == b@.len(),
            0 <= i <= a@.len(),
            forall|j: int| 0 <= j < i ==> a@[j] == b@[j],
        decreases a@.len() - i,
    {
        if a[i] != b[i] {
            return false;
        }
        i = i + 1;
    }
    assert(a@ =~= b@);
    true
}

/// A copy of a sequence of ARM instructions.
fn copy_instructions(v: &Vec<ARMInstruction>) -> (r: Vec<ARMInstruction>)
    ensures
        r@ == v@,
{
    let mut out: Vec<ARMInstruction> = Vec::new();
    let mut i: usize = 0;
    while i < v.len()
        invariant
            0 <= i <= v@.len(),
            out@ == v@.take(i as int),
        decreases v@.len() - i,
    {
        out.push(v[i]);
        i = i + 1;
        assert(out@ =~= v@.take(i as int));
    }
    assert(out@ =~= v@);
    out
}

/// An unconditional ARM instruction.
fn arm_inst(
    opcode: ARMOpcode,
    rd: Option<ARMRegister>,
    rn: Option<ARMRegister>,
    rm: Option<ARMRegister>,
    immediate: Option<u32>,
) -> (r: ARMInstruction)
    ensures
        r == arm(opcode, rd, rn, rm, immediate),
{
    ARMInstruction { opcode, rd, rn, rm, immediate, condition: ARMCondition::AL }
}

/// A sequence of one instruction.
fn single(a: ARMInstruction) -> (r: Vec<ARMInstruction>)
    ensures
        r@ == seq![a],
{
    let mut v: Vec<ARMInstruction> = Vec::new();
    v.push(a);
    assert(v@ =~= seq![a]);
    v
}

/// Binary translator that converts x86 instructions to ARM
pub struct BinaryTranslator {
    translation_cache: Vec<(Vec<u8>, Vec<ARMInstruction>)>,
    register_mapping: Vec<(Register, ARMRegister)>,
}

/// The fixed assignment of x86 registers to ARM registers.
pub open spec fn standard_mapping() -> Seq<(Register, ARMRegister)> {
    seq![
        (Register::EAX, ARMRegister::R0),
        (Register::EBX, ARMRegister::R1),
        (Register::ECX, ARMRegister::R2),
        (Register::EDX, ARMRegister::R3),
        (Register::ESI, ARMRegister::R4),
        (Register::EDI, ARMRegister::R5),
        (Register::EBP, ARMRegister::R6),
        (Register::ESP, ARMRegister::SP),
    ]
}

impl BinaryTranslator {
    /// The remembered translations as (key bytes, instructions) pairs, in the
    /// order they were made.
    pub closed spec fn entries(&self) -> Seq<(Seq<u8>, Seq<ARMInstruction>)> {
        self.translation_cache@.map_values(
            |e: (Vec<u8>, Vec<ARMInstruction>)| (e.0@, e.1@),
        )
    }

    /// The remembered translations, by key bytes.
    pub closed spec fn cache_view(&self) -> Map<Seq<u8>, Seq<ARMInstruction>> {
        Map::new(
            |k: Seq<u8>| exists|i: int| 0 <= i < self.entries().len() && self.entries()[i].0 == k,
            |k: Seq<u8>|
                self.entries()[choose|i: int|
                    0 <= i < self.entries().len() && self.entries()[i].0 == k].1,
        )
    }

    /// How many translations are remembered.
    pub closed spec fn cache_len(&self) -> nat {
        self.translation_cache@.len()
    }

    /// The register mapping is the fixed one, and no key is remembered twice.
    pub closed spec fn wf(&self) -> bool {
        &&& self.register_mapping@ == standard_mapping()
        &&& forall|i: int, j: int|
            0 <= i < j < self.entries().len() ==> #[trigger] self.entries()[i].0
                != #[trigger] self.entries()[j].0
    }

    /// Creates a new binary translator
    pub fn new() -> (r: Result<Self, TranslateError>)
        ensures
            r matches Ok(t) && t.wf() && t.cache_view().is_empty() && t.cache_len() == 0,
    {
        let mut translator = BinaryTranslator {
            translation_cache: Vec::new(),
            register_mapping: Vec::new(),
        };
        translator.init_register_mapping();
        assert(translator.cache_view() =~= Map::empty());
        Ok(translator)
    }

    /// Initializes x86 to ARM register mapping
    fn init_register_mapping(&mut self)
        requires
            old(self).register_mapping@.len() == 0,
        ensures
            final(self).register_mapping@ == standard_mapping(),
            final(self).translation_cache@ == old(self).translation_cache@,
    {
        self.register_mapping.push((Register::EAX, ARMRegister::R0));
        self.register_mapping.push((Register::EBX, ARMRegister::R1));
        self.register_mapping.push((Register::ECX, ARMRegister::R2));
        self.register_mapping.push((Register::EDX, ARMRegister::R3));
        self.register_mapping.push((Register::ESI, ARMRegister::R4));
        self.register_mapping.push((Register::EDI, ARMRegister::R5));
        self.register_mapping.push((Register::EBP, ARMRegister::R6));
        self.register_mapping.push((Register::ESP, ARMRegister::SP));
        assert(self.register_mapping@ =~= standard_mapping());
    }
    /// Translates a single x86 instruction to ARM, answering from the cache
    /// where the instruction's bytes were translated before.
    pub fn translate_instruction(&mut self, x86_inst: X86Instruction) -> (r: Result<
        Vec<ARMInstruction>,
        TranslateError,
    >)
        requires
            old(self).wf(),
        ensures
            final(self).wf(),
            (result_view(r), final(self).cache_view()) == translate_outcome(
                old(self).cache_view(),
                x86_inst@,
            ),
            final(self).cache_len() == old(self).cache_len() + (if !old(
                self,
            ).cache_view().contains_key(instruction_key(x86_inst@)) && r is Ok {
                1int
            } else {
                0int
            }),
    {
        let x86_bytes = self.x86_instruction_to_bytes(&x86_inst);
        match self.find_cached(&x86_bytes) {
            Some(i) => {
                proof {
                    self.lemma_entry_in_view(i as int);
                }
                return Ok(copy_instructions(&self.translation_cache[i].1));
            },
            None => {},
        }
        let arm_instructions = match self.translate_instruction_internal(&x86_inst) {
            Ok(v) => v,
            Err(e) => return Err(e),
        };
        let copy = copy_instructions(&arm_instructions);
        let ghost pre = *self;
        let ghost key = x86_bytes@;
        self.translation_cache.push((x86_bytes, copy));
        proof {
            assert(self.entries() =~= pre.entries().push((key, arm_instructions@)));
            self.lemma_push_view(pre, key, arm_instructions@);
        }
        Ok(arm_instructions)
    }

    /// A remembered entry is what the cache view gives for its key.
    proof fn lemma_entry_in_view(&self, i: int)
        requires
            self.wf(),
            0 <= i < self.entries().len(),
        ensures
            self.cache_view().contains_key(self.entries()[i].0),
            self.cache_view()[self.entries()[i].0] == self.entries()[i].1,
    {
        let k = self.entries()[i].0;
        assert(self.cache_view().contains_key(k));
        let j = choose|j: int| 0 <= j < self.entries().len() && self.entries()[j].0 == k;
        if i < j {
            assert(self.entries()[i].0 != self.entries()[j].0);
        } else if j < i {
            assert(self.entries()[j].0 != self.entries()[i].0);
        }
    }

    /// Appending an entry for a new key inserts it into the cache view.
    proof fn lemma_push_view(&self, pre: Self, key: Seq<u8>, v: Seq<ARMInstruction>)
        requires
            pre.wf(),
            !pre.cache_view().contains_key(key),
            self.register_mapping@ == pre.register_mapping@,
            self.entries() == pre.entries().push((key, v)),
        ensures
            self.wf(),
            self.cache_view() == pre.cache_view().insert(key, v),
    {
        let n = pre.entries().len();
        assert forall|i: int, j: int|
            0 <= i < j < self.entries().len() implies #[trigger] self.entries()[i].0
            != #[trigger] self.entries()[j].0 by {
            if j == n {
                assert(pre.entries()[i].0 != key) by {
                    if pre.entries()[i].0 == key {
                        assert(pre.cache_view().contains_key(key));
                    }
                }
            } else {
                assert(pre.entries()[i].0 != pre.entries()[j].0);
            }
        }
        assert forall|k: Seq<u8>| #[trigger]
            self.cache_view().contains_key(k) == pre.cache_view().insert(key, v).contains_key(k) by {
            if pre.cache_view().contains_key(k) {
                let i = choose|i: int| 0 <= i < pre.entries().len() && pre.entries()[i].0 == k;
                assert(self.entries()[i].0 == k);
            }
            if k == key {
                assert(self.entries()[n as int].0 == k);
            }
        }
        assert forall|k: Seq<u8>| #[trigger]
            self.cache_view().contains_key(k) implies self.cache_view()[k] == pre.cache_view().insert(
            key,
            v,
        )[k] by {
            if k == key {
                self.lemma_entry_in_view(n as int);
            } else {
                let i = choose|i: int| 0 <= i < pre.entries().len() && pre.entries()[i].0 == k;
                pre.lemma_entry_in_view(i);
                self.lemma_entry_in_view(i);
            }
        }
        assert(self.cache_view() =~= pre.cache_view().insert(key, v));
    }

    /// The position of the entry remembered for `key`, if any.
    fn find_cached(&self, key: &Vec<u8>) -> (r: Option<usize>)
        requires
            self.wf(),
        ensures
            r matches Some(i) ==> i < self.entries().len() && self.entries()[i as int].0 == key@,
            r is None ==> !self.cache_view().contains_key(key@),
    {
        let mut i: usize = 0;
        while i < self.translation_cache.len()
            invariant
                0 <= i <= self.entries().len(),
                self.entries().len() == self.translation_cache@.len(),
                forall|j: int| 0 <= j < i ==> self.entries()[j].0 != key@,
            decreases self.translation_cache@.len() - i,
        {
            if same_bytes(&self.translation_cache[i].0, key) {
                return Some(i);
            }
            i = i + 1;
        }
        None
    }

    /// Converts x86 instruction to byte representation for caching
    fn x86_instruction_to_bytes(&self, inst: &X86Instruction) -> (r: Vec<u8>)
        ensures
            r@ == instruction_key(inst@),
    {
        let mut bytes: Vec<u8> = Vec::new();
        bytes.push(inst.opcode);
        if let Some(modrm) = inst.modrm {
            bytes.push(modrm);
        }
        if let Some(sib) = inst.sib {
            bytes.push(sib);
        }
        if let Some(disp) = inst.displacement {
            push_le_u32(&mut bytes, bits_of_i32(disp));
        }
        if let Some(imm) = inst.immediate {
            push_le_u32(&mut bytes, imm);
        }
        assert(bytes@ =~= instruction_key(inst@));
        bytes
    }

    /// Internal translation logic
    fn translate_instruction_internal(&self, x86_inst: &X86Instruction) -> (r: Result<
        Vec<ARMInstruction>,
        TranslateError,
    >)
        requires
            self.wf(),
        ensures
            result_view(r) == spec_translate(x86_inst@),
    {
        let op = x86_inst.opcode;
        if op == 0x90 {
            Ok(single(arm_inst(ARMOpcode::NOP, None, None, None, None)))
        } else if 0xB8 <= op && op <= 0xBF {
            // MOV reg32, imm32
            let target_reg = match self.map_x86_register(op - 0xB8) {
                Ok(a) => a,
                Err(e) => return Err(e),
            };
            let immediate = match x86_inst.immediate {
                Some(i) => i,
                None => return Err(TranslateError::MissingImmediate),
            };
            Ok(single(arm_inst(ARMOpcode::MOV, Some(target_reg), None, None, Some(immediate))))
        } else if op == 0x89 {
            self.translate_mov_reg_to_mem(x86_inst)
        } else if op == 0x8B {
            self.translate_mov_mem_to_reg(x86_inst)
        } else if op == 0x01 {
            self.translate_add_reg_to_mem(x86_inst)
        } else if op == 0x03 {
            self.translate_add_mem_to_reg(x86_inst)
        } else if op == 0xFF {
            self.translate_ff_group(x86_inst)
        } else {
            Err(TranslateError::UnsupportedOpcode(op))
        }
    }

    /// Gets translation statistics
    pub fn get_stats(&self) -> (r: TranslationStats)
        requires
            self.wf(),
        ensures
            r.cache_size == self.cache_len(),
            r.register_mappings == 8,
    {
        TranslationStats {
            cache_size: self.translation_cache.len(),
            register_mappings: self.register_mapping.len(),
        }
    }

    /// Maps x86 register to ARM register
    fn map_x86_register(&self, reg_index: u8) -> (r: Result<ARMRegister, TranslateError>)
        requires
            self.wf(),
        ensures
            r == match register_at_index(reg_index) {
                Some(x) => mapped(x),
                None => Err(TranslateError::InvalidRegisterIndex),
            },
    {
        let x86_reg = match reg_index {
            0 => Register::EAX,
            1 => Register::ECX,
            2 => Register::EDX,
            3 => Register::EBX,
            4 => Register::ESP,
            5 => Register::EBP,
            6 => Register::ESI,
            7 => Register::EDI,
            _ => return Err(TranslateError::InvalidRegisterIndex),
        };
        self.map_x86_register_enum(&x86_reg)
    }

    /// Maps x86 register enum to ARM register
    fn map_x86_register_enum(&self, reg: &Register) -> (r: Result<ARMRegister, TranslateError>)
        requires
            self.wf(),
        ensures
            r == mapped(*reg),
    {
        let mut i: usize = 0;
        while i < self.register_mapping.len()
            invariant
                self.wf(),
                0 <= i <= self.register_mapping@.len(),
                forall|j: int| 0 <= j < i ==> self.register_mapping@[j].0 != *reg,
            decreases self.register_mapping@.len() - i,
        {
            if self.register_mapping[i].0 == *reg {
                return Ok(self.register_mapping[i].1);
            }
            i = i + 1;
        }
        assert(arm_register_for(*reg) is None) by {
            assert(self.register_mapping@[0].0 == Register::EAX);
            assert(self.register_mapping@[1].0 == Register::EBX);
            assert(self.register_mapping@[2].0 == Register::ECX);
            assert(self.register_mapping@[3].0 == Register::EDX);
            assert(self.register_mapping@[4].0 == Register::ESI);
            assert(self.register_mapping@[5].0 == Register::EDI);
            assert(self.register_mapping@[6].0 == Register::EBP);
            assert(self.register_mapping@[7].0 == Register::ESP);
        }
        Err(TranslateError::RegisterNotMapped)
    }
    /// Translates MOV r/m32, r32
    fn translate_mov_reg_to_mem(&self, x86_inst: &X86Instruction) -> (r: Result<
        Vec<ARMInstruction>,
        TranslateError,
    >)
        requires
            self.wf(),
        ensures
            result_view(r) == spec_mov_rm_reg(x86_inst@.operands),
    {
        if x86_inst.operands.len() != 2 {
            return Err(TranslateError::MovRequiresTwoOperands);
        }
        // The reg operand (decoded first) is the source
        let src_reg = match &x86_inst.operands[0] {
            InstructionOperand::Register(reg) => match self.map_x86_register_enum(reg) {
                Ok(a) => a,
                Err(e) => return Err(e),
            },
            _ => return Err(TranslateError::MovRmRegSourceNotRegister),
        };
        match &x86_inst.operands[1] {
            InstructionOperand::Register(dest_reg) => {
                let dest_arm_reg = match self.map_x86_register_enum(dest_reg) {
                    Ok(a) => a,
                    Err(e) => return Err(e),
                };
                Ok(single(arm_inst(ARMOpcode::MOV, Some(dest_arm_reg), Some(src_reg), None, None)))
            },
            InstructionOperand::Memory(_) => self.translate_memory_store(x86_inst, src_reg),
            _ => Err(TranslateError::MovRmRegInvalidDestination),
        }
    }

    /// Translates MOV r32, r/m32
    fn translate_mov_mem_to_reg(&self, x86_inst: &X86Instruction) -> (r: Result<
        Vec<ARMInstruction>,
        TranslateError,
    >)
        requires
            self.wf(),
        ensures
            result_view(r) == spec_mov_reg_rm(x86_inst@.operands),
    {
        if x86_inst.operands.len() != 2 {
            return Err(TranslateError::MovRequiresTwoOperands);
        }
        let dest_reg = match &x86_inst.operands[0] {
            InstructionOperand::Register(reg) => match self.map_x86_register_enum(reg) {
                Ok(a) => a,
                Err(e) => return Err(e),
            },
            _ => return Err(TranslateError::MovRegRmDestinationNotRegister),
        };
        match &x86_inst.operands[1] {
            InstructionOperand::Register(src_reg) => {
                let src_arm_reg = match self.map_x86_register_enum(src_reg) {
                    Ok(a) => a,
                    Err(e) => return Err(e),
                };
                Ok(single(arm_inst(ARMOpcode::MOV, Some(dest_reg), Some(src_arm_reg), None, None)))
            },
            InstructionOperand::Memory(_) => self.translate_memory_load(x86_inst, dest_reg),
            _ => Err(TranslateError::MovRegRmInvalidSource),
        }
    }

    /// Translates ADD r/m32, r32
    fn translate_add_reg_to_mem(&self, x86_inst: &X86Instruction) -> (r: Result<
        Vec<ARMInstruction>,
        TranslateError,
    >)
        requires
            self.wf(),
        ensures
            result_view(r) == spec_add_rm_reg(x86_inst@.operands),
    {
        if x86_inst.operands.len() != 2 {
            return Err(TranslateError::AddRequiresTwoOperands);
        }
        // The reg operand (decoded first) is the source
        let src_reg = match &x86_inst.operands[0] {
            InstructionOperand::Register(reg) => match self.map_x86_register_enum(reg) {
                Ok(a) => a,
                Err(e) => return Err(e),
            },
            _ => return Err(TranslateError::AddRmRegSourceNotRegister),
        };
        match &x86_inst.operands[1] {
            InstructionOperand::Register(dest_reg) => {
                let dest_arm_reg = match self.map_x86_register_enum(dest_reg) {
                    Ok(a) => a,
                    Err(e) => return Err(e),
                };
                Ok(
                    single(
                        arm_inst(
                            ARMOpcode::ADD,
                            Some(dest_arm_reg),
                            Some(dest_arm_reg),
                            Some(src_reg),
                            None,
                        ),
                    ),
                )
            },
            InstructionOperand::Memory(_) => self.translate_add_to_memory(x86_inst, src_reg),
            _ => Err(TranslateError::AddRmRegInvalidDestination),
        }
    }

    /// Translates ADD r32, r/m32
    fn translate_add_mem_to_reg(&self, x86_inst: &X86Instruction) -> (r: Result<
        Vec<ARMInstruction>,
        TranslateError,
    >)
        requires
            self.wf(),
        ensures
            result_view(r) == spec_add_reg_rm(x86_inst@.operands),
    {
        if x86_inst.operands.len() != 2 {
            return Err(TranslateError::AddRequiresTwoOperands);
        }
        let dest_reg = match &x86_inst.operands[0] {
            InstructionOperand::Register(reg) => match self.map_x86_register_enum(reg) {
                Ok(a) => a,
                Err(e) => return Err(e),
            },
            _ => return Err(TranslateError::AddRegRmDestinationNotRegister),
        };
        match &x86_inst.operands[1] {
            InstructionOperand::Register(src_reg) => {
                let src_arm_reg = match self.map_x86_register_enum(src_reg) {
                    Ok(a) => a,
                    Err(e) => return Err(e),
                };
                Ok(
                    single(
                        arm_inst(
                            ARMOpcode::ADD,
                            Some(dest_reg),
                            Some(dest_reg),
                            Some(src_arm_reg),
                            None,
                        ),
                    ),
                )
            },
            InstructionOperand::Memory(_) => self.translate_add_from_memory(x86_inst, dest_reg),
            _ => Err(TranslateError::AddRegRmInvalidSource),
        }
    }

    /// Translates 0xFF instruction group
    fn translate_ff_group(&self, x86_inst: &X86Instruction) -> (r: Result<
        Vec<ARMInstruction>,
        TranslateError,
    >)
        requires
            self.wf(),
        ensures
            result_view(r) == spec_ff_group(x86_inst@),
    {
        if x86_inst.operands.len() == 0 {
            return Err(TranslateError::GroupFfRequiresOperands);
        }
        let reg_field = match x86_inst.modrm {
            Some(modrm) => (modrm >> 3) & 0x07,
            None => return Err(TranslateError::GroupFfRequiresModRM),
        };
        assert(reg_field == ((x86_inst.modrm.unwrap() / 8) % 8) as u8) by {
            let m = x86_inst.modrm.unwrap();
            assert((m >> 3) & 0x07 == (m / 8) % 8) by (bit_vector);
        }
        match reg_field {
            0 => self.translate_inc(x86_inst),
            1 => self.translate_dec(x86_inst),
            2 => self.translate_call(x86_inst),
            4 => self.translate_jmp(x86_inst),
            6 => self.translate_push(x86_inst),
            _ => Err(TranslateError::UnimplementedGroupFf(reg_field)),
        }
    }

    /// Translates INC instruction
    fn translate_inc(&self, x86_inst: &X86Instruction) -> (r: Result<
        Vec<ARMInstruction>,
        TranslateError,
    >)
        requires
            self.wf(),
            x86_inst@.operands.len() > 0,
        ensures
            result_view(r) == spec_unary(0, x86_inst@.operands[0]),
    {
        match &x86_inst.operands[0] {
            InstructionOperand::Register(reg) => {
                let arm_reg = match self.map_x86_register_enum(reg) {
                    Ok(a) => a,
                    Err(e) => return Err(e),
                };
                Ok(single(arm_inst(ARMOpcode::ADD, Some(arm_reg), Some(arm_reg), None, Some(1))))
            },
            InstructionOperand::Memory(_) => self.translate_inc_memory(x86_inst),
            _ => Err(TranslateError::IncInvalidOperand),
        }
    }

    /// Translates DEC instruction
    fn translate_dec(&self, x86_inst: &X86Instruction) -> (r: Result<
        Vec<ARMInstruction>,
        TranslateError,
    >)
        requires
            self.wf(),
            x86_inst@.operands.len() > 0,
        ensures
            result_view(r) == spec_unary(1, x86_inst@.operands[0]),
    {
        match &x86_inst.operands[0] {
            InstructionOperand::Register(reg) => {
                let arm_reg = match self.map_x86_register_enum(reg) {
                    Ok(a) => a,
                    Err(e) => return Err(e),
                };
                Ok(single(arm_inst(ARMOpcode::SUB, Some(arm_reg), Some(arm_reg), None, Some(1))))
            },
            InstructionOperand::Memory(_) => self.translate_dec_memory(x86_inst),
            _ => Err(TranslateError::DecInvalidOperand),
        }
    }

    /// Translates CALL instruction
    fn translate_call(&self, x86_inst: &X86Instruction) -> (r: Result<
        Vec<ARMInstruction>,
        TranslateError,
    >)
        requires
            self.wf(),
            x86_inst@.operands.len() > 0,
        ensures
            result_view(r) == spec_unary(2, x86_inst@.operands[0]),
    {
        match &x86_inst.operands[0] {
            InstructionOperand::Register(reg) => {
                let arm_reg = match self.map_x86_register_enum(reg) {
                    Ok(a) => a,
                    Err(e) => return Err(e),
                };
                let mut v: Vec<ARMInstruction> = Vec::new();
                // Push the return address (LR), pre-decrementing SP
                v.push(
                    arm_inst(
                        ARMOpcode::STR,
                        Some(ARMRegister::LR),
                        Some(ARMRegister::SP),
                        None,
                        Some(0xFFFF_FFFC),
                    ),
                );
                // Branch to the target
                v.push(arm_inst(ARMOpcode::BX, Some(arm_reg), None, None, None));
                assert(v@ =~= unary_register_form(2, arm_reg));
                Ok(v)
            },
            InstructionOperand::Memory(_) => self.translate_call_memory(x86_inst),
            _ => Err(TranslateError::CallInvalidOperand),
        }
    }

    /// Translates JMP instruction
    fn translate_jmp(&self, x86_inst: &X86Instruction) -> (r: Result<
        Vec<ARMInstruction>,
        TranslateError,
    >)
        requires
            self.wf(),
            x86_inst@.operands.len() > 0,
        ensures
            result_view(r) == spec_unary(4, x86_inst@.operands[0]),
    {
        match &x86_inst.operands[0] {
            InstructionOperand::Register(reg) => {
                let arm_reg = match self.map_x86_register_enum(reg) {
                    Ok(a) => a,
                    Err(e) => return Err(e),
                };
                Ok(single(arm_inst(ARMOpcode::BX, Some(arm_reg), None, None, None)))
            },
            InstructionOperand::Memory(_) => self.translate_jmp_memory(x86_inst),
            _ => Err(TranslateError::JmpInvalidOperand),
        }
    }

    /// Translates PUSH instruction
    fn translate_push(&self, x86_inst: &X86Instruction) -> (r: Result<
        Vec<ARMInstruction>,
        TranslateError,
    >)
        requires
            self.wf(),
            x86_inst@.operands.len() > 0,
        ensures
            result_view(r) == spec_unary(6, x86_inst@.operands[0]),
    {
        match &x86_inst.operands[0] {
            InstructionOperand::Register(reg) => {
                let arm_reg = match self.map_x86_register_enum(reg) {
                    Ok(a) => a,
                    Err(e) => return Err(e),
                };
                Ok(
                    single(
                        arm_inst(
                            ARMOpcode::STR,
                            Some(arm_reg),
                            Some(ARMRegister::SP),
                            None,
                            Some(0xFFFF_FFFC),
                        ),
                    ),
                )
            },
            InstructionOperand::Memory(_) => self.translate_push_memory(x86_inst),
            _ => Err(TranslateError::PushInvalidOperand),
        }
    }

    // Memory operand forms: their address arithmetic is not generated, so
    // each translates to no instructions.
    fn translate_memory_store(&self, _x86_inst: &X86Instruction, _src_reg: ARMRegister) -> (r:
        Result<Vec<ARMInstruction>, TranslateError>)
        ensures
            result_view(r) == Ok::<Seq<ARMInstruction>, TranslateError>(Seq::empty()),
    {
        Ok(Vec::new())
    }

    fn translate_memory_load(&self, _x86_inst: &X86Instruction, _dest_reg: ARMRegister) -> (r:
        Result<Vec<ARMInstruction>, TranslateError>)
        ensures
            result_view(r) == Ok::<Seq<ARMInstruction>, TranslateError>(Seq::empty()),
    {
        Ok(Vec::new())
    }

    fn translate_add_to_memory(&self, _x86_inst: &X86Instruction, _src_reg: ARMRegister) -> (r:
        Result<Vec<ARMInstruction>, TranslateError>)
        ensures
            result_view(r) == Ok::<Seq<ARMInstruction>, TranslateError>(Seq::empty()),
    {
        Ok(Vec::new())
    }

    fn translate_add_from_memory(&self, _x86_inst: &X86Instruction, _dest_reg: ARMRegister) -> (r:
        Result<Vec<ARMInstruction>, TranslateError>)
        ensures
            result_view(r) == Ok::<Seq<ARMInstruction>, TranslateError>(Seq::empty()),
    {
        Ok(Vec::new())
    }

    fn translate_inc_memory(&self, _x86_inst: &X86Instruction) -> (r: Result<
        Vec<ARMInstruction>,
        TranslateError,
    >)
        ensures
            result_view(r) == Ok::<Seq<ARMInstruction>, TranslateError>(Seq::empty()),
    {
        Ok(Vec::new())
    }

    fn translate_dec_memory(&self, _x86_inst: &X86Instruction) -> (r: Result<
        Vec<ARMInstruction>,
        TranslateError,
    >)
        ensures
            result_view(r) == Ok::<Seq<ARMInstruction>, TranslateError>(Seq::empty()),
    {
        Ok(Vec::new())
    }

    fn translate_call_memory(&self, _x86_inst: &X86Instruction) -> (r: Result<
        Vec<ARMInstruction>,
        TranslateError,
    >)
        ensures
            result_view(r) == Ok::<Seq<ARMInstruction>, TranslateError>(Seq::empty()),
    {
        Ok(Vec::new())
    }

    fn translate_jmp_memory(&self, _x86_inst: &X86Instruction) -> (r: Result<
        Vec<ARMInstruction>,
        TranslateError,
    >)
        ensures
            result_view(r) == Ok::<Seq<ARMInstruction>, TranslateError>(Seq::empty()),
    {
        Ok(Vec::new())
    }

    fn translate_push_memory(&self, _x86_inst: &X86Instruction) -> (r: Result<
        Vec<ARMInstruction>,
        TranslateError,
    >)
        ensures
            result_view(r) == Ok::<Seq<ARMInstruction>, TranslateError>(Seq::empty()),
    {
        Ok(Vec::new())
    }
}

} // verus!
