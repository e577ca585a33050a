//! x86 CPU emulation: register file, instruction decoding and execution of
//! the supported instruction subset.
use crate::memory::{le_u32_bytes, MemoryError, MemoryManager};
use vstd::arithmetic::div_mod::{
    lemma_add_mod_noop, lemma_add_mod_noop_right, lemma_mod_add_multiples_vanish, lemma_small_mod,
};
use vstd::wrapping::u32_specs::{wrapping_add, wrapping_mul, wrapping_sub};
use std::collections::HashMap;
use vstd::prelude::*;

verus! {

broadcast use vstd::std_specs::hash::group_hash_axioms;

/// x86 CPU registers
#[derive(Debug, Clone, Copy, PartialEq, Eq, Structural)]
pub struct X86Registers {
    // General purpose registers (32-bit)
    pub eax: u32,
    pub ebx: u32,
    pub ecx: u32,
    pub edx: u32,
    pub esi: u32,
    pub edi: u32,
    pub ebp: u32,
    pub esp: u32,
    // Instruction pointer
    pub eip: u32,
    // Flags register
    pub eflags: u32,
    // Segment registers
    pub cs: u16,
    pub ds: u16,
    pub es: u16,
    pub fs: u16,
    pub gs: u16,
    pub ss: u16,
}

/// The register file after reset: everything zero except the stack pointer.
pub open spec fn reset_registers() -> X86Registers {
    X86Registers {
        eax: 0,
        ebx: 0,
        ecx: 0,
        edx: 0,
        esi: 0,
        edi: 0,
        ebp: 0,
        esp: 0x7FFF_F000,
        eip: 0,
        eflags: 0,
        cs: 0,
        ds: 0,
        es: 0,
        fs: 0,
        gs: 0,
        ss: 0,
    }
}

impl Default for X86Registers {
    fn default() -> (r: Self)
        ensures
            r == reset_registers(),
    {
        X86Registers {
            eax: 0,
            ebx: 0,
            ecx: 0,
            edx: 0,
            esi: 0,
            edi: 0,
            ebp: 0,
            esp: 0x7FFF_F000,  // Default stack pointer
            eip: 0,
            eflags: 0,
            cs: 0,
            ds: 0,
            es: 0,
            fs: 0,
            gs: 0,
            ss: 0,
        }
    }
}

#[derive(Debug, Clone, Copy, PartialEq, Eq, Hash, Structural)]
pub enum Register {
    EAX,
    EBX,
    ECX,
    EDX,
    ESI,
    EDI,
    EBP,
    ESP,
    AX,
    BX,
    CX,
    DX,
    SI,
    DI,
    BP,
    SP,
    AL,
    BL,
    CL,
    DL,
    AH,
    BH,
    CH,
    DH,
}

#[derive(Debug, Clone, Copy, PartialEq, Eq, Structural)]
pub struct MemoryOperand {
    pub base: Option<Register>,
    pub index: Option<Register>,
    pub scale: u8,
    pub displacement: i32,
}

#[derive(Debug, Clone, Copy, PartialEq, Eq, Structural)]
pub enum InstructionOperand {
    Register(Register),
    Memory(MemoryOperand),
    Immediate(i32),
}

/// x86 instruction representation
#[derive(Debug)]
pub struct X86Instruction {
    pub opcode: u8,
    pub modrm: Option<u8>,
    pub sib: Option<u8>,
    pub displacement: Option<i32>,
    pub immediate: Option<u32>,
    pub operands: Vec<InstructionOperand>,
    pub length: u8,
}

/// The value of an `X86Instruction`, with its operands as a sequence.
pub struct InstructionView {
    pub opcode: u8,
    pub modrm: Option<u8>,
    pub sib: Option<u8>,
    pub displacement: Option<i32>,
    pub immediate: Option<u32>,
    pub operands: Seq<InstructionOperand>,
    pub length: u8,
}

impl View for X86Instruction {
    type V = InstructionView;

    open spec fn view(&self) -> InstructionView {
        InstructionView {
            opcode: self.opcode,
            modrm: self.modrm,
            sib: self.sib,
            displacement: self.displacement,
            immediate: self.immediate,
            operands: self.operands@,
            length: self.length,
        }
    }
}

impl X86Instruction {
    /// A copy of this instruction with the same fields and operands.
    pub fn duplicate(&self) -> (r: Self)
        ensures
            r@ == self@,
    {
        let mut operands: Vec<InstructionOperand> = Vec::new();
        let mut i: usize = 0;
        while i < self.operands.len()
            invariant
                0 <= i <= self.operands@.len(),
                operands@ == self.operands@.take(i as int),
            decreases self.operands@.len() - i,
        {
            operands.push(self.operands[i]);
            i = i + 1;
            assert(operands@ =~= self.operands@.take(i as int));
        }
        assert(operands@ =~= self.operands@);
        X86Instruction {
            opcode: self.opcode,
            modrm: self.modrm,
            sib: self.sib,
            displacement: self.displacement,
            immediate: self.immediate,
            operands,
            length: self.length,
        }
    }
}

/// Errors of decoding and executing instructions.
#[derive(Debug, Clone, Copy, PartialEq, Eq, Structural)]
pub enum CpuError {
    /// A memory access failed.
    Memory(MemoryError),
    /// There were no bytes to decode.
    EmptyInstructionBytes,
    /// The opcode needs a ModR/M byte that is missing.
    IncompleteModRM,
    /// The displacement runs past the available bytes.
    IncompleteDisplacement,
    /// The immediate runs past the available bytes.
    IncompleteImmediate,
    /// The opcode is not executed by this CPU.
    UnimplementedOpcode(u8),
    /// A MOV without exactly two operands.
    MovRequiresTwoOperands,
    /// A MOV r/m32, r32 whose source is not a register.
    MovSourceMustBeRegister,
    /// A MOV r/m32, r32 whose destination is an immediate.
    MovInvalidDestination,
    /// A MOV r32, r/m32 whose source is an immediate.
    MovInvalidSource,
    /// A MOV r32, r/m32 whose destination is not a register.
    MovDestinationMustBeRegister,
    /// An ADD without exactly two operands.
    AddRequiresTwoOperands,
    /// An ADD r/m32, r32 whose source is not a register.
    AddSourceMustBeRegister,
    /// An ADD r/m32, r32 whose destination is an immediate.
    AddInvalidDestination,
    /// An ADD r32, r/m32 whose source is an immediate.
    AddInvalidSource,
    /// An ADD r32, r/m32 whose destination is not a register.
    AddDestinationMustBeRegister,
    /// A 0xFF instruction without operands.
    GroupFfRequiresOperands,
    /// A 0xFF instruction without a ModR/M byte.
    GroupFfRequiresModRM,
    /// A 0xFF instruction whose ModR/M reg field selects no supported operation.
    UnimplementedGroupFf(u8),
    /// An immediate operand used as a destination.
    CannotSetImmediate,
}

/// Value of register `r` in `regs`: a full 32-bit register, its low 16 bits,
/// its low byte, or its second byte.
pub open spec fn reg_value(regs: X86Registers, r: Register) -> u32 {
    match r {
        Register::EAX => regs.eax,
        Register::EBX => regs.ebx,
        Register::ECX => regs.ecx,
        Register::EDX => regs.edx,
        Register::ESI => regs.esi,
        Register::EDI => regs.edi,
        Register::EBP => regs.ebp,
        Register::ESP => regs.esp,
        Register::AX => regs.eax & 0xFFFF,
        Register::BX => regs.ebx & 0xFFFF,
        Register::CX => regs.ecx & 0xFFFF,
        Register::DX => regs.edx & 0xFFFF,
        Register::SI => regs.esi & 0xFFFF,
        Register::DI => regs.edi & 0xFFFF,
        Register::BP => regs.ebp & 0xFFFF,
        Register::SP => regs.esp & 0xFFFF,
        Register::AL => regs.eax & 0xFF,
        Register::BL => regs.ebx & 0xFF,
        Register::CL => regs.ecx & 0xFF,
        Register::DL => regs.edx & 0xFF,
        Register::AH => (regs.eax >> 8) & 0xFF,
        Register::BH => (regs.ebx >> 8) & 0xFF,
        Register::CH => (regs.ecx >> 8) & 0xFF,
        Register::DH => (regs.edx >> 8) & 0xFF,
    }
}

/// The new contents of a 32-bit register after `v` is stored to a part of
/// it: all of it, its low 16 bits or its low byte are replaced; a store to
/// the high byte of the low half (AH, BH, CH, DH) clears bits 16 to 23 and
/// ORs the byte into bits 8 to 15, keeping the bits already set there.
pub open spec fn merge_part(full: u32, part: RegisterPart, v: u32) -> u32 {
    match part {
        RegisterPart::Full => v,
        RegisterPart::Low16 => (full & 0xFFFF_0000) | (v & 0xFFFF),
        RegisterPart::Low8 => (full & 0xFFFF_FF00) | (v & 0xFF),
        RegisterPart::High8 => (full & 0xFF00_FFFF) | ((v & 0xFF) << 8),
    }
}

/// Which bits of its 32-bit register a register name covers.
#[derive(Debug, Clone, Copy, PartialEq, Eq, Structural)]
pub enum RegisterPart {
    Full,
    Low16,
    Low8,
    High8,
}

pub open spec fn part_of(r: Register) -> RegisterPart {
    match r {
        Register::EAX | Register::EBX | Register::ECX | Register::EDX | Register::ESI
        | Register::EDI | Register::EBP | Register::ESP => RegisterPart::Full,
        Register::AX | Register::BX | Register::CX | Register::DX | Register::SI | Register::DI
        | Register::BP | Register::SP => RegisterPart::Low16,
        Register::AL | Register::BL | Register::CL | Register::DL => RegisterPart::Low8,
        _ => RegisterPart::High8,
    }
}

/// The 32-bit register that a register name is part of.
pub open spec fn full_register_of(r: Register) -> Register {
    match r {
        Register::EAX | Register::AX | Register::AL | Register::AH => Register::EAX,
        Register::EBX | Register::BX | Register::BL | Register::BH => Register::EBX,
        Register::ECX | Register::CX | Register::CL | Register::CH => Register::ECX,
        Register::EDX | Register::DX | Register::DL | Register::DH => Register::EDX,
        Register::ESI | Register::SI => Register::ESI,
        Register::EDI | Register::DI => Register::EDI,
        Register::EBP | Register::BP => Register::EBP,
        _ => Register::ESP,
    }
}

/// `regs` with the 32-bit register `full` replaced by `v`.
pub open spec fn with_full(regs: X86Registers, full: Register, v: u32) -> X86Registers {
    match full {
        Register::EAX => X86Registers { eax: v, ..regs },
        Register::EBX => X86Registers { ebx: v, ..regs },
        Register::ECX => X86Registers { ecx: v, ..regs },
        Register::EDX => X86Registers { edx: v, ..regs },
        Register::ESI => X86Registers { esi: v, ..regs },
        Register::EDI => X86Registers { edi: v, ..regs },
        Register::EBP => X86Registers { ebp: v, ..regs },
        _ => X86Registers { esp: v, ..regs },
    }
}

/// `regs` after `v` is stored to register `r`.
pub open spec fn with_reg(regs: X86Registers, r: Register, v: u32) -> X86Registers {
    let full = full_register_of(r);
    with_full(regs, full, merge_part(reg_value(regs, full), part_of(r), v))
}

/// Mask of the bits of a value that a register of `r`'s width keeps.
pub open spec fn width_mask(r: Register) -> u32 {
    match part_of(r) {
        RegisterPart::Full => 0xFFFF_FFFF,
        RegisterPart::Low16 => 0xFFFF,
        _ => 0xFF,
    }
}

/// Zero flag (bit 6).
pub const FLAG_ZF: u32 = 0x40;

/// Sign flag (bit 7).
pub const FLAG_SF: u32 = 0x80;

/// Carry flag (bit 0).
pub const FLAG_CF: u32 = 0x01;

/// Overflow flag (bit 11).
pub const FLAG_OF: u32 = 0x800;

/// `flags` with bit mask `bit` set when `on` and cleared otherwise.
pub open spec fn set_flag(flags: u32, bit: u32, on: bool) -> u32 {
    if on {
        flags | bit
    } else {
        flags & !bit
    }
}

/// The top bit of a 32-bit value, that is, its sign as a two's-complement
/// number.
pub open spec fn is_negative(v: u32) -> bool {
    v >= 0x8000_0000
}

/// The flags after `result` was computed as `src1 + src2`.
pub open spec fn flags_after_add(flags: u32, src1: u32, src2: u32, result: u32) -> u32 {
    let f1 = set_flag(flags, FLAG_ZF, result == 0);
    let f2 = set_flag(f1, FLAG_SF, is_negative(result));
    let f3 = set_flag(f2, FLAG_CF, result < src1 || result < src2);
    set_flag(
        f3,
        FLAG_OF,
        (!is_negative(src1) && !is_negative(src2) && is_negative(result)) || (is_negative(src1)
            && is_negative(src2) && !is_negative(result)),
    )
}

/// The flags after INC turned `v` into `result`: as after the addition of 1,
/// except that the carry flag keeps its value.
pub open spec fn flags_after_inc(flags: u32, v: u32, result: u32) -> u32 {
    set_flag(flags_after_add(flags, v, 1, result), FLAG_CF, flags & FLAG_CF != 0)
}

/// The flags after DEC turned `v` into `result`: as after the subtraction
/// of 1, except that the carry flag keeps its value.
pub open spec fn flags_after_dec(flags: u32, v: u32, result: u32) -> u32 {
    set_flag(flags_after_sub(flags, v, 1, result), FLAG_CF, flags & FLAG_CF != 0)
}

/// The flags after `result` was computed as `src1 - src2`.
pub open spec fn flags_after_sub(flags: u32, src1: u32, src2: u32, result: u32) -> u32 {
    let f1 = set_flag(flags, FLAG_ZF, result == 0);
    let f2 = set_flag(f1, FLAG_SF, is_negative(result));
    let f3 = set_flag(f2, FLAG_CF, src1 < src2);
    set_flag(
        f3,
        FLAG_OF,
        (!is_negative(src1) && is_negative(src2) && is_negative(result)) || (is_negative(src1)
            && !is_negative(src2) && !is_negative(result)),
    )
}

/// The 32-bit pattern of a signed value.
pub open spec fn u32_of_i32(v: i32) -> u32 {
    if v >= 0 {
        v as u32
    } else {
        (v + 0x1_0000_0000) as u32
    }
}

/// The signed value of a 32-bit pattern.
pub open spec fn i32_of_u32(v: u32) -> i32 {
    if v < 0x8000_0000 {
        v as i32
    } else {
        (v - 0x1_0000_0000) as i32
    }
}

/// Effective address of a memory operand: displacement plus base plus
/// scaled index, wrapping at 32 bits.
pub open spec fn operand_address(regs: X86Registers, m: MemoryOperand) -> u32 {
    let a0 = u32_of_i32(m.displacement);
    let a1 = match m.base {
        Some(b) => wrapping_add(a0, reg_value(regs, b)),
        None => a0,
    };
    match m.index {
        Some(i) => wrapping_add(a1, wrapping_mul(reg_value(regs, i), m.scale as u32)),
        None => a1,
    }
}

/// Reading a full, 16-bit or low-byte register after storing to it gives
/// the stored value cut to the register's width. (A store to a high-byte
/// register ORs into the old byte, so it is left out.)
pub proof fn law_register_read_after_write(regs: X86Registers, r: Register, v: u32)
    requires
        part_of(r) != RegisterPart::High8,
    ensures
        reg_value(with_reg(regs, r, v), r) == v & width_mask(r),
{
    let full = full_register_of(r);
    let old_full = reg_value(regs, full);
    match part_of(r) {
        RegisterPart::Full => {
            assert(v & 0xFFFF_FFFF == v) by (bit_vector);
        },
        RegisterPart::Low16 => {
            assert(((old_full & 0xFFFF_0000) | (v & 0xFFFF)) & 0xFFFF == v & 0xFFFF)
                by (bit_vector);
        },
        RegisterPart::Low8 => {
            assert(((old_full & 0xFFFF_FF00) | (v & 0xFF)) & 0xFF == v & 0xFF) by (bit_vector);
        },
        RegisterPart::High8 => {},
    }
}

/// Storing to a register leaves every register of another 32-bit register,
/// the instruction pointer, the flags and the segment registers unchanged.
pub proof fn law_register_write_is_local(regs: X86Registers, r: Register, v: u32, other: Register)
    requires
        full_register_of(other) != full_register_of(r),
    ensures
        reg_value(with_reg(regs, r, v), other) == reg_value(regs, other),
        with_reg(regs, r, v).eip == regs.eip,
        with_reg(regs, r, v).eflags == regs.eflags,
        with_reg(regs, r, v).cs == regs.cs,
        with_reg(regs, r, v).ds == regs.ds,
        with_reg(regs, r, v).es == regs.es,
        with_reg(regs, r, v).fs == regs.fs,
        with_reg(regs, r, v).gs == regs.gs,
        with_reg(regs, r, v).ss == regs.ss,
{
}

/// The two bytes of a 16-bit register are independent: storing to the low
/// byte keeps the high byte, storing to the high byte keeps the low byte,
/// and storing to a 16-bit register keeps the upper half of its 32-bit
/// register.
pub proof fn law_register_byte_halves(full: u32, v: u32)
    ensures
        (merge_part(full, RegisterPart::Low8, v) >> 8) & 0xFF == (full >> 8) & 0xFF,
        merge_part(full, RegisterPart::High8, v) & 0xFF == full & 0xFF,
        merge_part(full, RegisterPart::Low16, v) & 0xFFFF_0000 == full & 0xFFFF_0000,
{
    assert((((full & 0xFFFF_FF00) | (v & 0xFF)) >> 8) & 0xFF == (full >> 8) & 0xFF)
        by (bit_vector);
    assert(((full & 0xFF00_FFFF) | ((v & 0xFF) << 8)) & 0xFF == full & 0xFF) by (bit_vector);
    assert(((full & 0xFFFF_0000) | (v & 0xFFFF)) & 0xFFFF_0000 == full & 0xFFFF_0000)
        by (bit_vector);
}

/// Setting or clearing one flag bit leaves the others as they were and
/// leaves the bit set exactly when asked.
pub proof fn law_set_flag(flags: u32, bit: u32, on: bool)
    requires
        bit == FLAG_ZF || bit == FLAG_SF || bit == FLAG_CF || bit == FLAG_OF,
    ensures
        (set_flag(flags, bit, on) & bit != 0) == on,
        set_flag(flags, bit, on) & !bit == flags & !bit,
{
    if on {
        assert((flags | bit) & !bit == flags & !bit) by (bit_vector);
        assert(bit != 0 ==> (flags | bit) & bit != 0) by (bit_vector);
    } else {
        assert((flags & !bit) & !bit == flags & !bit) by (bit_vector);
        assert((flags & !bit) & bit == 0) by (bit_vector);
    }
}

/// After an addition the zero, sign, carry and overflow flags describe the
/// result, and no other flag bit changes.
pub proof fn law_flags_after_add(flags: u32, src1: u32, src2: u32, result: u32)
    ensures
        (flags_after_add(flags, src1, src2, result) & FLAG_ZF != 0) == (result == 0),
        (flags_after_add(flags, src1, src2, result) & FLAG_SF != 0) == is_negative(result),
        (flags_after_add(flags, src1, src2, result) & FLAG_CF != 0) == (result < src1 || result
            < src2),
        (flags_after_add(flags, src1, src2, result) & FLAG_OF != 0) == ((!is_negative(src1)
            && !is_negative(src2) && is_negative(result)) || (is_negative(src1) && is_negative(
            src2,
        ) && !is_negative(result))),
        flags_after_add(flags, src1, src2, result) & !0x8C1u32 == flags & !0x8C1u32,
{
    let z = result == 0;
    let s = is_negative(result);
    let c = result < src1 || result < src2;
    let o = (!is_negative(src1) && !is_negative(src2) && is_negative(result)) || (is_negative(src1)
        && is_negative(src2) && !is_negative(result));
    lemma_four_flags(flags, z, s, c, o);
}

/// After a subtraction the zero, sign, carry and overflow flags describe the
/// result, and no other flag bit changes.
pub proof fn law_flags_after_sub(flags: u32, src1: u32, src2: u32, result: u32)
    ensures
        (flags_after_sub(flags, src1, src2, result) & FLAG_ZF != 0) == (result == 0),
        (flags_after_sub(flags, src1, src2, result) & FLAG_SF != 0) == is_negative(result),
        (flags_after_sub(flags, src1, src2, result) & FLAG_CF != 0) == (src1 < src2),
        (flags_after_sub(flags, src1, src2, result) & FLAG_OF != 0) == ((!is_negative(src1)
            && is_negative(src2) && is_negative(result)) || (is_negative(src1) && !is_negative(
            src2,
        ) && !is_negative(result))),
        flags_after_sub(flags, src1, src2, result) & !0x8C1u32 == flags & !0x8C1u32,
{
    let z = result == 0;
    let s = is_negative(result);
    let c = src1 < src2;
    let o = (!is_negative(src1) && is_negative(src2) && is_negative(result)) || (is_negative(src1)
        && !is_negative(src2) && !is_negative(result));
    lemma_four_flags(flags, z, s, c, o);
}

proof fn lemma_four_flags(flags: u32, z: bool, s: bool, c: bool, o: bool)
    ensures
        ({
            let f = set_flag(
                set_flag(set_flag(set_flag(flags, FLAG_ZF, z), FLAG_SF, s), FLAG_CF, c),
                FLAG_OF,
                o,
            );
            &&& (f & FLAG_ZF != 0) == z
            &&& (f & FLAG_SF != 0) == s
            &&& (f & FLAG_CF != 0) == c
            &&& (f & FLAG_OF != 0) == o
            &&& f & !0x8C1u32 == flags & !0x8C1u32
        }),
{
    let f1 = if z { flags | 0x40u32 } else { flags & !0x40u32 };
    let f2 = if s { f1 | 0x80u32 } else { f1 & !0x80u32 };
    let f3 = if c { f2 | 0x01u32 } else { f2 & !0x01u32 };
    let f4 = if o { f3 | 0x800u32 } else { f3 & !0x800u32 };
    assert((f4 & 0x40u32 != 0) == z && (f4 & 0x80u32 != 0) == s && (f4 & 0x01u32 != 0) == c && (f4
        & 0x800u32 != 0) == o && f4 & !0x8C1u32 == flags & !0x8C1u32) by (bit_vector)
        requires
            f1 == if z { flags | 0x40u32 } else { flags & !0x40u32 },
            f2 == if s { f1 | 0x80u32 } else { f1 & !0x80u32 },
            f3 == if c { f2 | 0x01u32 } else { f2 & !0x01u32 },
            f4 == if o { f3 | 0x800u32 } else { f3 & !0x800u32 },
    ;
}

/// Opcodes that are followed by a ModR/M byte.
pub open spec fn needs_modrm(opcode: u8) -> bool {
    ||| 0x01 <= opcode <= 0x33
    ||| 0x39 <= opcode <= 0x3B
    ||| 0x50 <= opcode <= 0x5F
    ||| 0x68 <= opcode <= 0x6F
    ||| 0x70 <= opcode <= 0x7F
    ||| 0x80 <= opcode <= 0x8F
    ||| 0xA0 <= opcode <= 0xA3
    ||| 0xC0 <= opcode <= 0xC7
    ||| 0xD0 <= opcode <= 0xD7
    ||| 0xE0 <= opcode <= 0xEF
    ||| 0xF0 <= opcode
}

/// A ModR/M byte with a memory operand and r/m field 4 announces a SIB byte.
pub open spec fn needs_sib(modrm: u8) -> bool {
    modrm / 64 != 3 && modrm % 8 == 4
}

/// Bytes of displacement that follow, by the mod field of the ModR/M byte.
pub open spec fn displacement_size(modrm: Option<u8>) -> nat {
    match modrm {
        Some(m) => if m / 64 == 1 {
            1
        } else if m / 64 == 2 {
            4
        } else {
            0
        },
        None => 0,
    }
}

/// Bytes of immediate that follow an opcode.
pub open spec fn immediate_size(opcode: u8) -> nat {
    if (0x04 <= opcode <= 0x05) || (0x0C <= opcode <= 0x0D) || (0x24 <= opcode <= 0x25) || (0x34
        <= opcode <= 0x35) || (0xB0 <= opcode <= 0xB7) {
        1
    } else if opcode == 0x68 || (0xB8 <= opcode <= 0xBF) {
        4
    } else if opcode == 0xC1 || opcode == 0xC6 || opcode == 0xD1 || opcode == 0xD6 || opcode
        == 0xC0 || opcode == 0xD0 {
        1
    } else {
        0
    }
}

/// The 32-bit register that a 3-bit ModR/M field names.
pub open spec fn modrm_register(field: u8) -> Register {
    if field == 0 {
        Register::EAX
    } else if field == 1 {
        Register::ECX
    } else if field == 2 {
        Register::EDX
    } else if field == 3 {
        Register::EBX
    } else if field == 4 {
        Register::ESP
    } else if field == 5 {
        Register::EBP
    } else if field == 6 {
        Register::ESI
    } else if field == 7 {
        Register::EDI
    } else {
        Register::EAX
    }
}

/// The operands a ModR/M byte names: the register of its reg field, then
/// the register or memory operand of its mod and r/m fields. A memory
/// operand takes its index and scale from the SIB byte, if there is one,
/// and the instruction's displacement (0 when there is none).
pub open spec fn modrm_operands(modrm: u8, sib: Option<u8>, displacement: Option<i32>) -> Seq<
    InstructionOperand,
> {
    let mod_field = modrm / 64;
    let reg_field = (modrm / 8) % 8;
    let rm_field = modrm % 8;
    let second = if mod_field == 3 {
        InstructionOperand::Register(modrm_register(rm_field))
    } else {
        InstructionOperand::Memory(
            MemoryOperand {
                base: if mod_field == 0 && rm_field == 5 {
                    None
                } else {
                    Some(modrm_register(rm_field))
                },
                index: match sib {
                    Some(b) => Some(modrm_register((b / 8) % 8)),
                    None => None,
                },
                scale: match sib {
                    Some(b) => (b / 64 + 1) as u8,
                    None => 1u8,
                },
                displacement: match displacement {
                    Some(d) => d,
                    None => 0i32,
                },
            },
        )
    };
    seq![InstructionOperand::Register(modrm_register(reg_field)), second]
}

/// A byte read as a signed 8-bit value.
pub open spec fn sign_extend_byte(b: u8) -> int {
    if b < 128 {
        b as int
    } else {
        b - 256
    }
}

/// The signed value of 1 or 4 little-endian bytes at `at`.
pub open spec fn signed_value_at(b: Seq<u8>, at: int, size: nat) -> i32 {
    if size == 1 {
        sign_extend_byte(b[at]) as i32
    } else {
        i32_of_u32(
            (b[at] + 256 * b[at + 1] + 65536 * b[at + 2] + 16777216 * b[at + 3]) as u32,
        )
    }
}

/// Offset of the displacement: after the opcode, the ModR/M byte and a SIB
/// byte when one is needed and present.
pub open spec fn displacement_offset(b: Seq<u8>) -> int {
    if needs_modrm(b[0]) {
        if needs_sib(b[1]) && b.len() > 2 {
            3
        } else {
            2
        }
    } else {
        1
    }
}

/// The instruction that `b` starts with, or why it cannot be decoded.
pub open spec fn spec_decode(b: Seq<u8>) -> Result<InstructionView, CpuError> {
    if b.len() == 0 {
        Err(CpuError::EmptyInstructionBytes)
    } else if needs_modrm(b[0]) && b.len() < 2 {
        Err(CpuError::IncompleteModRM)
    } else {
        let modrm = if needs_modrm(b[0]) {
            Some(b[1])
        } else {
            None
        };
        let sib = if needs_modrm(b[0]) && needs_sib(b[1]) && b.len() > 2 {
            Some(b[2])
        } else {
            None
        };
        let at_disp = displacement_offset(b);
        let dsize = displacement_size(modrm);
        if b.len() < at_disp + dsize {
            Err(CpuError::IncompleteDisplacement)
        } else {
            let at_imm = at_disp + dsize;
            let isize = immediate_size(b[0]);
            if b.len() < at_imm + isize {
                Err(CpuError::IncompleteImmediate)
            } else {
                let disp = if dsize > 0 {
                    Some(signed_value_at(b, at_disp, dsize))
                } else {
                    None
                };
                let ops = match modrm {
                    Some(m) => modrm_operands(m, sib, disp),
                    None => Seq::<InstructionOperand>::empty(),
                };
                let imm = signed_value_at(b, at_imm, isize);
                Ok(
                    InstructionView {
                        opcode: b[0],
                        modrm,
                        sib,
                        displacement: disp,
                        immediate: if isize > 0 {
                            Some(u32_of_i32(imm))
                        } else {
                            None
                        },
                        operands: if isize > 0 {
                            ops.push(InstructionOperand::Immediate(imm))
                        } else {
                            ops
                        },
                        length: (at_imm + isize) as u8,
                    },
                )
            }
        }
    }
}

/// A memory error as a CPU error.
pub open spec fn lift_read(r: Result<u32, MemoryError>) -> Result<u32, CpuError> {
    match r {
        Ok(v) => Ok(v),
        Err(e) => Err(CpuError::Memory(e)),
    }
}

/// `new_mem` is `old_mem` after the 32-bit store of `v` at `addr`, and `r`
/// reports it: success when the four bytes are mapped, the page error
/// otherwise (with the bytes before the unmapped one stored).
pub open spec fn stored_u32(
    new_mem: MemoryManager,
    old_mem: MemoryManager,
    addr: u32,
    v: u32,
    r: Result<(), CpuError>,
) -> bool {
    if old_mem.range_mapped(addr as int, 4) {
        &&& r == Ok::<(), CpuError>(())
        &&& new_mem.write_outcome(&old_mem, addr as int, le_u32_bytes(v), Ok(()))
    } else {
        &&& r == Err::<(), CpuError>(CpuError::Memory(MemoryError::InvalidPageAddress))
        &&& new_mem.write_outcome(
            &old_mem,
            addr as int,
            le_u32_bytes(v),
            Err(MemoryError::InvalidPageAddress),
        )
    }
}

/// The value an operand denotes: a register, the 32-bit word at a memory
/// operand's address, or an immediate's bit pattern.
pub open spec fn operand_value(
    regs: X86Registers,
    mem: MemoryManager,
    op: InstructionOperand,
) -> Result<u32, CpuError> {
    match op {
        InstructionOperand::Register(r) => Ok(reg_value(regs, r)),
        InstructionOperand::Memory(m) => lift_read(mem.spec_read_u32(operand_address(regs, m) as int)),
        InstructionOperand::Immediate(v) => Ok(u32_of_i32(v)),
    }
}

/// `regs` with the flags register replaced.
pub open spec fn with_flags(regs: X86Registers, flags: u32) -> X86Registers {
    X86Registers { eflags: flags, ..regs }
}

/// The effect of storing `v` to operand `op`, with the flags set to `flags`
/// when the store succeeds: a register is written, a memory operand is
/// stored to, and an immediate cannot be written.
pub open spec fn store_operand_outcome(
    new_regs: X86Registers,
    new_mem: MemoryManager,
    regs: X86Registers,
    mem: MemoryManager,
    op: InstructionOperand,
    v: u32,
    flags: u32,
    r: Result<(), CpuError>,
) -> bool {
    match op {
        InstructionOperand::Register(d) => {
            &&& r is Ok
            &&& new_regs == with_flags(with_reg(regs, d, v), flags)
            &&& new_mem == mem
        },
        InstructionOperand::Memory(m) => {
            &&& stored_u32(new_mem, mem, operand_address(regs, m), v, r)
            &&& new_regs == if r is Ok {
                with_flags(regs, flags)
            } else {
                regs
            }
        },
        InstructionOperand::Immediate(_) => {
            &&& r == Err::<(), CpuError>(CpuError::CannotSetImmediate)
            &&& new_regs == regs
            &&& new_mem == mem
        },
    }
}

/// The value a MOV r32, r/m32 or ADD r32, r/m32 reads from its source, with
/// the error for an immediate source.
pub open spec fn source_value(
    regs: X86Registers,
    mem: MemoryManager,
    op: InstructionOperand,
    immediate_error: CpuError,
) -> Result<u32, CpuError> {
    match op {
        InstructionOperand::Immediate(_) => Err(immediate_error),
        _ => operand_value(regs, mem, op),
    }
}

/// `regs` after a push of a value: the stack pointer moved down four bytes.
pub open spec fn after_push(regs: X86Registers) -> X86Registers {
    X86Registers { esp: wrapping_sub(regs.esp, 4), ..regs }
}

/// MOV r/m32, r32: the operands are, as decoded, the reg operand (the
/// source, which must be a register) and then the r/m operand (the
/// destination); the source's value is stored to the destination register
/// or memory operand.
pub open spec fn mov_to_rm_outcome(
    new_regs: X86Registers,
    new_mem: MemoryManager,
    regs: X86Registers,
    mem: MemoryManager,
    ops: Seq<InstructionOperand>,
    r: Result<(), CpuError>,
) -> bool {
    let unchanged = new_regs == regs && new_mem == mem;
    if ops.len() != 2 {
        r == Err::<(), CpuError>(CpuError::MovRequiresTwoOperands) && unchanged
    } else {
        match ops[0] {
            InstructionOperand::Register(src) => match ops[1] {
                InstructionOperand::Immediate(_) => r == Err::<(), CpuError>(
                    CpuError::MovInvalidDestination,
                ) && unchanged,
                _ => store_operand_outcome(
                    new_regs,
                    new_mem,
                    regs,
                    mem,
                    ops[1],
                    reg_value(regs, src),
                    regs.eflags,
                    r,
                ),
            },
            _ => r == Err::<(), CpuError>(CpuError::MovSourceMustBeRegister) && unchanged,
        }
    }
}

/// MOV r32, r/m32: the source register or memory word is read first; the
/// destination must be a register.
pub open spec fn mov_from_rm_outcome(
    new_regs: X86Registers,
    new_mem: MemoryManager,
    regs: X86Registers,
    mem: MemoryManager,
    ops: Seq<InstructionOperand>,
    r: Result<(), CpuError>,
) -> bool {
    let unchanged = new_regs == regs && new_mem == mem;
    if ops.len() != 2 {
        r == Err::<(), CpuError>(CpuError::MovRequiresTwoOperands) && unchanged
    } else {
        match source_value(regs, mem, ops[1], CpuError::MovInvalidSource) {
            Err(e) => r == Err::<(), CpuError>(e) && unchanged,
            Ok(v) => match ops[0] {
                InstructionOperand::Register(d) => r is Ok && new_regs == with_reg(regs, d, v)
                    && new_mem == mem,
                _ => r == Err::<(), CpuError>(CpuError::MovDestinationMustBeRegister) && unchanged,
            },
        }
    }
}

/// ADD r/m32, r32: the operands are, as decoded, the reg operand (the
/// source, which must be a register) and then the r/m operand (the
/// destination); the destination register or memory word is read, the
/// wrapped sum stored back, and the flags set from the addition once the
/// store succeeds.
pub open spec fn add_to_rm_outcome(
    new_regs: X86Registers,
    new_mem: MemoryManager,
    regs: X86Registers,
    mem: MemoryManager,
    ops: Seq<InstructionOperand>,
    r: Result<(), CpuError>,
) -> bool {
    let unchanged = new_regs == regs && new_mem == mem;
    if ops.len() != 2 {
        r == Err::<(), CpuError>(CpuError::AddRequiresTwoOperands) && unchanged
    } else {
        match ops[0] {
            InstructionOperand::Register(src) => {
                let s = reg_value(regs, src);
                match ops[1] {
                    InstructionOperand::Immediate(_) => r == Err::<(), CpuError>(
                        CpuError::AddInvalidDestination,
                    ) && unchanged,
                    _ => match operand_value(regs, mem, ops[1]) {
                        Err(e) => r == Err::<(), CpuError>(e) && unchanged,
                        Ok(cur) => {
                            let res = wrapping_add(cur, s);
                            store_operand_outcome(
                                new_regs,
                                new_mem,
                                regs,
                                mem,
                                ops[1],
                                res,
                                flags_after_add(regs.eflags, cur, s, res),
                                r,
                            )
                        },
                    },
                }
            },
            _ => r == Err::<(), CpuError>(CpuError::AddSourceMustBeRegister) && unchanged,
        }
    }
}

/// ADD r32, r/m32: the source register or memory word is read first; the
/// destination must be a register, which receives the wrapped sum, and the
/// flags are set from the addition.
pub open spec fn add_from_rm_outcome(
    new_regs: X86Registers,
    new_mem: MemoryManager,
    regs: X86Registers,
    mem: MemoryManager,
    ops: Seq<InstructionOperand>,
    r: Result<(), CpuError>,
) -> bool {
    let unchanged = new_regs == regs && new_mem == mem;
    if ops.len() != 2 {
        r == Err::<(), CpuError>(CpuError::AddRequiresTwoOperands) && unchanged
    } else {
        match source_value(regs, mem, ops[1], CpuError::AddInvalidSource) {
            Err(e) => r == Err::<(), CpuError>(e) && unchanged,
            Ok(s) => match ops[0] {
                InstructionOperand::Register(d) => {
                    let cur = reg_value(regs, d);
                    let res = wrapping_add(cur, s);
                    &&& r is Ok
                    &&& new_regs == with_flags(
                        with_reg(regs, d, res),
                        flags_after_add(regs.eflags, cur, s, res),
                    )
                    &&& new_mem == mem
                },
                _ => r == Err::<(), CpuError>(CpuError::AddDestinationMustBeRegister) && unchanged,
            },
        }
    }
}

/// What executing `inst` does to the registers `regs` and memory `mem`,
/// leaving `new_regs` and `new_mem` and reporting `r`.
pub open spec fn step_outcome(
    new_regs: X86Registers,
    new_mem: MemoryManager,
    regs: X86Registers,
    mem: MemoryManager,
    inst: InstructionView,
    r: Result<(), CpuError>,
) -> bool {
    let ops = inst.operands;
    if inst.opcode == 0x90 {
        // NOP
        r is Ok && new_regs == regs && new_mem == mem
    } else if inst.opcode == 0xB8 {
        // MOV EAX, imm32
        &&& r is Ok
        &&& new_mem == mem
        &&& new_regs == match inst.immediate {
            Some(imm) => X86Registers { eax: imm, ..regs },
            None => regs,
        }
    } else if inst.opcode == 0x89 {
        mov_to_rm_outcome(new_regs, new_mem, regs, mem, ops, r)
    } else if inst.opcode == 0x8B {
        mov_from_rm_outcome(new_regs, new_mem, regs, mem, ops, r)
    } else if inst.opcode == 0x01 {
        add_to_rm_outcome(new_regs, new_mem, regs, mem, ops, r)
    } else if inst.opcode == 0x03 {
        add_from_rm_outcome(new_regs, new_mem, regs, mem, ops, r)
    } else if inst.opcode == 0xFF {
        group_ff_outcome(new_regs, new_mem, regs, mem, inst, r)
    } else {
        r == Err::<(), CpuError>(CpuError::UnimplementedOpcode(inst.opcode)) && new_regs == regs
            && new_mem == mem
    }
}

/// What an instruction of the 0xFF group does, by the reg field of its
/// ModR/M byte: INC, DEC, CALL, JMP or PUSH of its first operand.
pub open spec fn group_ff_outcome(
    new_regs: X86Registers,
    new_mem: MemoryManager,
    regs: X86Registers,
    mem: MemoryManager,
    inst: InstructionView,
    r: Result<(), CpuError>,
) -> bool {
    let ops = inst.operands;
    let unchanged = new_regs == regs && new_mem == mem;
    if ops.len() == 0 {
        r == Err::<(), CpuError>(CpuError::GroupFfRequiresOperands) && unchanged
    } else {
        match inst.modrm {
            None => r == Err::<(), CpuError>(CpuError::GroupFfRequiresModRM) && unchanged,
            Some(modrm) => {
                let reg_field = (modrm / 8) % 8;
                if reg_field == 0 || reg_field == 1 || reg_field == 2 || reg_field == 4
                    || reg_field == 6 {
                    match operand_value(regs, mem, ops[0]) {
                        Err(e) => r == Err::<(), CpuError>(e) && unchanged,
                        Ok(v) => if reg_field == 0 {
                            // INC r/m32
                            let res = wrapping_add(v, 1);
                            store_operand_outcome(
                                new_regs,
                                new_mem,
                                regs,
                                mem,
                                ops[0],
                                res,
                                flags_after_inc(regs.eflags, v, res),
                                r,
                            )
                        } else if reg_field == 1 {
                            // DEC r/m32
                            let res = wrapping_sub(v, 1);
                            store_operand_outcome(
                                new_regs,
                                new_mem,
                                regs,
                                mem,
                                ops[0],
                                res,
                                flags_after_dec(regs.eflags, v, res),
                                r,
                            )
                        } else if reg_field == 4 {
                            // JMP r/m32
                            r is Ok && new_regs == (X86Registers { eip: v, ..regs }) && new_mem
                                == mem
                        } else {
                            // CALL pushes the return address, PUSH the operand value
                            let pushed = if reg_field == 2 {
                                regs.eip
                            } else {
                                v
                            };
                            let moved = after_push(regs);
                            &&& stored_u32(new_mem, mem, moved.esp, pushed, r)
                            &&& new_regs == if reg_field == 2 && r is Ok {
                                X86Registers { eip: v, ..moved }
                            } else {
                                moved
                            }
                        },
                    }
                } else {
                    r == Err::<(), CpuError>(CpuError::UnimplementedGroupFf(reg_field))
                        && unchanged
                }
            },
        }
    }
}

/// Main CPU emulation structure
pub struct CPU {
    pub registers: X86Registers,
    pub memory: MemoryManager,
    pub instruction_cache: HashMap<u32, X86Instruction>,
}

/// Reads the signed value of `size` (1 or 4) little-endian bytes at `at`,
/// with the 32-bit pattern of the value.
fn read_signed(bytes: &[u8], at: usize, size: usize) -> (r: (i32, u32))
    requires
        size == 1 || size == 4,
        at + size <= bytes@.len(),
    ensures
        r.0 == signed_value_at(bytes@, at as int, size as nat),
        r.1 == u32_of_i32(r.0),
{
    if size == 1 {
        let b = bytes[at];
        if b < 128 {
            (b as i32, b as u32)
        } else {
            (b as i32 - 256, b as u32 + 0xFFFF_FF00)
        }
    } else {
        let v: u32 = bytes[at] as u32 + (bytes[at + 1] as u32) * 256 + (bytes[at + 2] as u32)
            * 65536 + (bytes[at + 3] as u32) * 16777216;
        if v < 0x8000_0000 {
            (v as i32, v)
        } else {
            ((v - 0x8000_0000) as i32 - 0x7FFF_FFFF - 1, v)
        }
    }
}

/// The instruction at the instruction pointer, as a fetch gives it: the
/// decoding cached for that address, or else the decoding of the 15 bytes
/// there.
pub open spec fn spec_fetch(cpu: &CPU) -> Result<InstructionView, CpuError> {
    let eip = cpu.registers.eip;
    if cpu.cache().contains_key(eip) {
        Ok(cpu.cache()[eip]@)
    } else {
        match cpu.memory.spec_read_bytes(eip as int, 15) {
            Err(e) => Err(CpuError::Memory(e)),
            Ok(bytes) => spec_decode(bytes),
        }
    }
}

/// `new` is `old` after a fetch: memory is untouched; a failed fetch changes
/// nothing; a successful one moves the instruction pointer past the
/// instruction and caches a fresh decoding under its address.
pub open spec fn fetched(old: &CPU, new: &CPU) -> bool {
    let eip = old.registers.eip;
    &&& new.memory == old.memory
    &&& match spec_fetch(old) {
        Err(_) => new.registers == old.registers && new.cache() == old.cache(),
        Ok(inst) => {
            &&& new.registers == (X86Registers { eip: (eip + inst.length) as u32, ..old.registers })
            &&& if old.cache().contains_key(eip) {
                new.cache() == old.cache()
            } else {
                &&& new.cache().dom() == old.cache().dom().insert(eip)
                &&& new.cache()[eip]@ == inst
                &&& forall|k: u32|
                    k != eip && #[trigger] old.cache().contains_key(k) ==> new.cache()[k]
                        == old.cache()[k]
            }
        },
    }
}

/// A decoded instruction starts with its opcode byte and is between one and
/// eleven bytes long, never longer than the bytes it was decoded from.
pub proof fn law_decoded_shape(b: Seq<u8>, inst: InstructionView)
    requires
        spec_decode(b) == Ok::<InstructionView, CpuError>(inst),
    ensures
        inst.opcode == b[0],
        1 <= inst.length <= 11,
        inst.length <= b.len(),
{
}

/// A 32-bit wrapping sum is the sum taken modulo 2^32.
proof fn lemma_wrapping_add_mod(x: u32, y: u32)
    ensures
        wrapping_add(x, y) as int == (x + y) % 0x1_0000_0000,
{
    if x + y > u32::MAX {
        lemma_mod_add_multiples_vanish(x + y - 0x1_0000_0000, 0x1_0000_0000);
        lemma_small_mod((x + y - 0x1_0000_0000) as nat, 0x1_0000_0000);
    } else {
        lemma_small_mod((x + y) as nat, 0x1_0000_0000);
    }
}

/// The bit pattern of a signed value is that value modulo 2^32.
proof fn lemma_pattern_mod(v: i32)
    ensures
        u32_of_i32(v) as int == (v as int) % 0x1_0000_0000,
{
    if v >= 0 {
        lemma_small_mod(v as nat, 0x1_0000_0000);
    } else {
        lemma_mod_add_multiples_vanish(v as int, 0x1_0000_0000);
        lemma_small_mod((v + 0x1_0000_0000) as nat, 0x1_0000_0000);
    }
}

/// The effective address of a memory operand is its displacement plus the
/// base register's value plus the index register's value times the scale,
/// taken modulo 2^32 (a missing base or index adds nothing); a memory
/// operand's value is the 32-bit word read there.
pub proof fn law_effective_address(regs: X86Registers, mem: MemoryManager, m: MemoryOperand)
    ensures
        operand_address(regs, m) as int == (m.displacement as int + match m.base {
            Some(b) => reg_value(regs, b) as int,
            None => 0int,
        } + match m.index {
            Some(i) => reg_value(regs, i) as int,
            None => 0int,
        } * m.scale as int) % 0x1_0000_0000,
        operand_value(regs, mem, InstructionOperand::Memory(m)) == lift_read(
            mem.spec_read_u32(
                (m.displacement as int + match m.base {
                    Some(b) => reg_value(regs, b) as int,
                    None => 0int,
                } + match m.index {
                    Some(i) => reg_value(regs, i) as int,
                    None => 0int,
                } * m.scale as int) % 0x1_0000_0000,
            ),
        ),
{
    let d = m.displacement as int;
    let bv: int = match m.base {
        Some(b) => reg_value(regs, b) as int,
        None => 0int,
    };
    let iv: int = match m.index {
        Some(i) => reg_value(regs, i) as int,
        None => 0int,
    };
    let a0 = u32_of_i32(m.displacement);
    lemma_pattern_mod(m.displacement);
    let a1 = match m.base {
        Some(b) => wrapping_add(a0, reg_value(regs, b)),
        None => a0,
    };
    match m.base {
        Some(b) => {
            lemma_wrapping_add_mod(a0, reg_value(regs, b));
            lemma_add_mod_noop_right(bv, d, 0x1_0000_0000);
            assert(a1 as int == (d + bv) % 0x1_0000_0000);
        },
        None => {
            assert(a1 as int == (d + bv) % 0x1_0000_0000);
        },
    }
    match m.index {
        Some(i) => {
            let p = wrapping_mul(reg_value(regs, i), m.scale as u32);
            assert(p as int == (iv * m.scale as int) % 0x1_0000_0000);
            lemma_wrapping_add_mod(a1, p);
            lemma_add_mod_noop(d + bv, iv * m.scale as int, 0x1_0000_0000);
            assert(operand_address(regs, m) as int == (d + bv + iv * m.scale as int)
                % 0x1_0000_0000);
        },
        None => {
            assert(iv * m.scale as int == 0);
        },
    }
}

/// MOV r32, r/m32 with a memory source loads the destination register with
/// the word at displacement + base + index * scale (modulo 2^32), wherever
/// that word can be read.
pub proof fn law_mov_loads_from_effective_address(
    new_regs: X86Registers,
    new_mem: MemoryManager,
    regs: X86Registers,
    mem: MemoryManager,
    inst: InstructionView,
    d: Register,
    m: MemoryOperand,
    v: u32,
    r: Result<(), CpuError>,
)
    requires
        inst.opcode == 0x8B,
        inst.operands == seq![InstructionOperand::Register(d), InstructionOperand::Memory(m)],
        mem.spec_read_u32(
            (m.displacement as int + match m.base {
                Some(b) => reg_value(regs, b) as int,
                None => 0int,
            } + match m.index {
                Some(i) => reg_value(regs, i) as int,
                None => 0int,
            } * m.scale as int) % 0x1_0000_0000,
        ) == Ok::<u32, MemoryError>(v),
        step_outcome(new_regs, new_mem, regs, mem, inst, r),
    ensures
        r is Ok,
        new_regs == with_reg(regs, d, v),
        new_mem == mem,
{
    law_effective_address(regs, mem, m);
}

/// The operands of a decoded instruction with a ModR/M byte: first the
/// register named by the reg field (bits 3 to 5); then, when the mod field
/// (bits 6 and 7) is 3, the register named by the r/m field (bits 0 to 2),
/// and otherwise a memory operand based on that register (no base for mod 0
/// with r/m 5), with the instruction's displacement (0 when it has none),
/// and with no index and scale 1 when there is no SIB byte.
pub proof fn law_modrm_fields(b: Seq<u8>, inst: InstructionView, m: u8)
    requires
        spec_decode(b) == Ok::<InstructionView, CpuError>(inst),
        inst.modrm == Some(m),
    ensures
        m == b[1],
        inst.operands.len() >= 2,
        inst.operands[0] == InstructionOperand::Register(modrm_register((m >> 3u8) & 7u8)),
        (m >> 6u8) == 3 ==> inst.operands[1] == InstructionOperand::Register(
            modrm_register(m & 7u8),
        ),
        (m >> 6u8) != 3 ==> (match inst.operands[1] {
            InstructionOperand::Memory(mo) => {
                &&& mo.base == if (m >> 6u8) == 0 && (m & 7u8) == 5 {
                    None
                } else {
                    Some(modrm_register(m & 7u8))
                }
                &&& mo.displacement == match inst.displacement {
                    Some(d) => d,
                    None => 0i32,
                }
                &&& inst.sib is None ==> mo.index is None && mo.scale == 1
            },
            _ => false,
        }),
{
    assert((m >> 3u8) & 7u8 == (m / 8) % 8) by (bit_vector);
    assert(m >> 6u8 == m / 64) by (bit_vector);
    assert(m & 7u8 == m % 8) by (bit_vector);
}

/// With a SIB byte, a decoded memory operand takes its index register from
/// the SIB byte's bits 3 to 5 and its scale from bits 6 and 7 (plus one);
/// bits 0 to 2 play no part in either.
pub proof fn law_sib_index_and_scale(b: Seq<u8>, inst: InstructionView, s: u8)
    requires
        spec_decode(b) == Ok::<InstructionView, CpuError>(inst),
        inst.sib == Some(s),
    ensures
        b.len() > 2,
        s == b[2],
        inst.operands.len() >= 2,
        (match inst.operands[1] {
            InstructionOperand::Memory(mo) => {
                &&& mo.index == Some(modrm_register((s >> 3u8) & 7u8))
                &&& mo.scale == ((s >> 6u8) & 3u8) + 1
            },
            _ => false,
        }),
{
    assert((s >> 3u8) & 7u8 == (s / 8) % 8) by (bit_vector);
    assert(((s >> 6u8) & 3u8) + 1 == s / 64 + 1) by (bit_vector);
}

/// A fetch at an address not fetched before decodes the memory there: the
/// instruction's opcode is the byte at the instruction pointer.
pub proof fn law_fetch_reads_memory(c: CPU, inst: InstructionView)
    requires
        spec_fetch(&c) == Ok::<InstructionView, CpuError>(inst),
        !c.cache().contains_key(c.registers.eip),
    ensures
        inst.opcode == c.memory.byte_at(c.registers.eip as int),
        1 <= inst.length <= 11,
{
    let bytes = c.memory.bytes_at(c.registers.eip as int, 15);
    assert(c.memory.spec_read_bytes(c.registers.eip as int, 15) == Ok::<Seq<u8>, MemoryError>(bytes));
    law_decoded_shape(bytes, inst);
}

/// Once an address was fetched, its decoding is cached: a later fetch at
/// that address gives the same instruction, whatever memory holds by then.
pub proof fn law_fetch_is_cached(c0: CPU, c1: CPU, c2: CPU, inst: InstructionView)
    requires
        spec_fetch(&c0) == Ok::<InstructionView, CpuError>(inst),
        fetched(&c0, &c1),
        c2.registers.eip == c0.registers.eip,
        c2.cache() == c1.cache(),
    ensures
        spec_fetch(&c2) == Ok::<InstructionView, CpuError>(inst),
{
}

impl CPU {
    /// The instructions decoded so far, keyed by the address they were
    /// fetched from.
    pub open spec fn cache(&self) -> Map<u32, X86Instruction> {
        self.instruction_cache@
    }

    /// Memory is well formed, and every cached instruction is at least one
    /// byte long and ends below the top of the address space.
    pub open spec fn wf(&self) -> bool {
        &&& self.memory.wf()
        &&& forall|k: u32| #[trigger]
            self.cache().contains_key(k) ==> k + self.cache()[k]@.length <= u32::MAX
                && self.cache()[k]@.length >= 1
    }

    /// Creates a new CPU instance
    pub fn new(memory: MemoryManager) -> (r: Result<Self, CpuError>)
        requires
            memory.wf(),
        ensures
            r matches Ok(cpu) && cpu.wf() && cpu.registers == reset_registers() && cpu.memory
                == memory && cpu.cache().is_empty(),
    {
        Ok(
            CPU {
                registers: X86Registers::default(),
                memory,
                instruction_cache: HashMap::new(),
            },
        )
    }

    /// Sets the instruction pointer to a specific address
    pub fn set_instruction_pointer(&mut self, address: u32)
        ensures
            final(self).registers == (X86Registers { eip: address, ..old(self).registers }),
            final(self).memory == old(self).memory,
            final(self).cache() == old(self).cache(),
    {
        self.registers.eip = address;
    }

    /// Gets the current instruction pointer
    pub fn get_instruction_pointer(&self) -> (r: u32)
        ensures
            r == self.registers.eip,
    {
        self.registers.eip
    }

    /// Gets current register state (for debugging)
    pub fn get_registers(&self) -> (r: &X86Registers)
        ensures
            *r == self.registers,
    {
        &self.registers
    }

    /// Checks if instruction needs ModR/M byte
    fn needs_modrm(&self, opcode: u8) -> (r: bool)
        ensures
            r == needs_modrm(opcode),
    {
        (0x01 <= opcode && opcode <= 0x33) || (0x39 <= opcode && opcode <= 0x3B) || (0x50 <= opcode
            && opcode <= 0x5F) || (0x68 <= opcode && opcode <= 0x6F) || (0x70 <= opcode && opcode
            <= 0x7F) || (0x80 <= opcode && opcode <= 0x8F) || (0xA0 <= opcode && opcode <= 0xA3)
            || (0xC0 <= opcode && opcode <= 0xC7) || (0xD0 <= opcode && opcode <= 0xD7) || (0xE0 <= opcode
            && opcode <= 0xEF) || 0xF0 <= opcode
    }

    /// Checks if instruction needs SIB byte
    fn needs_sib(&self, modrm: u8) -> (r: bool)
        ensures
            r == needs_sib(modrm),
    {
        let mod_field = modrm / 64;
        let rm_field = modrm % 8;
        mod_field != 3 && rm_field == 4
    }

    /// Gets displacement size for instruction
    fn get_displacement_size(&self, modrm: Option<u8>) -> (r: usize)
        ensures
            r == displacement_size(modrm),
    {
        match modrm {
            Some(m) => {
                let mod_field = m / 64;
                if mod_field == 1 {
                    1
                } else if mod_field == 2 {
                    4
                } else {
                    0
                }
            },
            None => 0,
        }
    }

    /// Gets immediate size for instruction
    fn get_immediate_size(&self, opcode: u8) -> (r: usize)
        ensures
            r == immediate_size(opcode),
    {
        if (0x04 <= opcode && opcode <= 0x05) || (0x0C <= opcode && opcode <= 0x0D) || (0x24
            <= opcode && opcode <= 0x25) || (0x34 <= opcode && opcode <= 0x35) || (0xB0 <= opcode
            && opcode <= 0xB7) {
            1
        } else if opcode == 0x68 || (0xB8 <= opcode && opcode <= 0xBF) {
            4
        } else if opcode == 0xC1 || opcode == 0xC6 || opcode == 0xD1 || opcode == 0xD6 || opcode
            == 0xC0 || opcode == 0xD0 {
            1
        } else {
            0
        }
    }

    /// Converts ModR/M reg field to register
    fn modrm_to_register(&self, reg: u8) -> (r: Register)
        ensures
            r == modrm_register(reg),
    {
        match reg {
            0 => Register::EAX,
            1 => Register::ECX,
            2 => Register::EDX,
            3 => Register::EBX,
            4 => Register::ESP,
            5 => Register::EBP,
            6 => Register::ESI,
            7 => Register::EDI,
            _ => Register::EAX,
        }
    }

    /// Parses memory addressing from ModR/M
    fn parse_memory_addressing(&self, mod_field: u8, rm_field: u8, instruction: &X86Instruction) -> (r:
        MemoryOperand)
        ensures
            r.base == (if mod_field == 0 && rm_field == 5 {
                None
            } else {
                Some(modrm_register(rm_field))
            }),
            r.index == (match instruction.sib {
                Some(sib) => Some(modrm_register((sib / 8) % 8)),
                None => None,
            }),
            r.scale == (match instruction.sib {
                Some(sib) => (sib / 64 + 1) as u8,
                None => 1u8,
            }),
            r.displacement == (match instruction.displacement {
                Some(d) => d,
                None => 0i32,
            }),
    {
        let base = if mod_field == 0 && rm_field == 5 {
            None  // Special case: [disp32]
        } else {
            Some(self.modrm_to_register(rm_field))
        };
        let (index, scale) = match instruction.sib {
            Some(sib) => {
                let scale = sib / 64;
                let index = (sib / 8) % 8;
                (Some(self.modrm_to_register(index)), scale + 1)
            },
            None => (None, 1u8),
        };
        let displacement = match instruction.displacement {
            Some(d) => d,
            None => 0,
        };
        MemoryOperand { base, index, scale, displacement }
    }

    /// Parses ModR/M byte to extract operands
    fn parse_modrm(&self, instruction: &mut X86Instruction, modrm: u8)
        ensures
            final(instruction)@ == (InstructionView {
                operands: old(instruction)@.operands + modrm_operands(
                    modrm,
                    old(instruction).sib,
                    old(instruction).displacement,
                ),
                ..old(instruction)@
            }),
    {
        let mod_field = modrm / 64;
        let reg_field = (modrm / 8) % 8;
        let rm_field = modrm % 8;
        // Add register operand based on reg field
        instruction.operands.push(InstructionOperand::Register(self.modrm_to_register(reg_field)));
        // Add memory/register operand based on mod and rm fields
        if mod_field == 3 {
            // Register direct addressing
            instruction.operands.push(
                InstructionOperand::Register(self.modrm_to_register(rm_field)),
            );
        } else {
            // Memory addressing
            let memory_operand = self.parse_memory_addressing(mod_field, rm_field, instruction);
            instruction.operands.push(InstructionOperand::Memory(memory_operand));
        }
        assert(instruction.operands@ =~= old(instruction).operands@ + modrm_operands(
            modrm,
            old(instruction).sib,
            old(instruction).displacement,
        ));
    }

    /// Decodes x86 instruction bytes
    pub fn decode_instruction(&self, bytes: &[u8]) -> (r: Result<X86Instruction, CpuError>)
        ensures
            match r {
                Ok(inst) => spec_decode(bytes@) == Ok::<InstructionView, CpuError>(inst@),
                Err(e) => spec_decode(bytes@) == Err::<InstructionView, CpuError>(e),
            },
    {
        if bytes.len() == 0 {
            return Err(CpuError::EmptyInstructionBytes);
        }
        let opcode = bytes[0];
        let mut instruction = X86Instruction {
            opcode,
            modrm: None,
            sib: None,
            displacement: None,
            immediate: None,
            operands: Vec::new(),
            length: 1,
        };
        // Handle ModR/M byte if present
        if self.needs_modrm(opcode) {
            if bytes.len() < 2 {
                return Err(CpuError::IncompleteModRM);
            }
            instruction.modrm = Some(bytes[1]);
            instruction.length = instruction.length + 1;
        }
        // Handle SIB byte
        match instruction.modrm {
            Some(modrm) => {
                if self.needs_sib(modrm) && bytes.len() > instruction.length as usize {
                    instruction.sib = Some(bytes[instruction.length as usize]);
                    instruction.length = instruction.length + 1;
                }
            },
            None => {},
        }
        assert(instruction.length == displacement_offset(bytes@));
        // Handle displacement
        let displacement_size = self.get_displacement_size(instruction.modrm);
        if displacement_size > 0 {
            let start = instruction.length as usize;
            if bytes.len() < start + displacement_size {
                return Err(CpuError::IncompleteDisplacement);
            }
            let (displacement, _) = read_signed(bytes, start, displacement_size);
            instruction.displacement = Some(displacement);
            instruction.length = instruction.length + displacement_size as u8;
        }
        // Parse ModR/M to extract operands, now that the SIB byte and the
        // displacement are known
        match instruction.modrm {
            Some(modrm) => self.parse_modrm(&mut instruction, modrm),
            None => {},
        }
        assert(instruction.operands@ =~= (match instruction.modrm {
            Some(m) => modrm_operands(m, instruction.sib, instruction.displacement),
            None => Seq::<InstructionOperand>::empty(),
        }));
        // Handle immediate values
        let imm_size = self.get_immediate_size(opcode);
        let start = instruction.length as usize;
        if bytes.len() < start + imm_size {
            return Err(CpuError::IncompleteImmediate);
        }
        if imm_size > 0 {
            let (immediate, pattern) = read_signed(bytes, start, imm_size);
            instruction.immediate = Some(pattern);
            instruction.length = instruction.length + imm_size as u8;
            instruction.operands.push(InstructionOperand::Immediate(immediate));
        }
        Ok(instruction)
    }

    /// Fetches and decodes the instruction at the instruction pointer and
    /// moves the pointer past it. An address fetched before is answered from
    /// the instruction cache without reading memory again.
    pub fn fetch_instruction(&mut self) -> (r: Result<X86Instruction, CpuError>)
        requires
            old(self).wf(),
        ensures
            final(self).wf(),
            fetched(old(self), final(self)),
            match r {
                Ok(inst) => spec_fetch(old(self)) == Ok::<InstructionView, CpuError>(inst@),
                Err(e) => spec_fetch(old(self)) == Err::<InstructionView, CpuError>(e),
            },
    {
        let eip = self.registers.eip;
        // Check cache first
        match self.instruction_cache.get(&eip) {
            Some(cached) => {
                let instruction = cached.duplicate();
                assert(old(self).cache().contains_key(eip));
                self.registers.eip = eip + instruction.length as u32;
                return Ok(instruction);
            },
            None => {},
        }
        // Fetch instruction bytes from memory
        let instruction_bytes = match self.memory.read_bytes(eip, 15) {
            Ok(b) => b,
            Err(e) => return Err(CpuError::Memory(e)),
        };
        assert(self.memory.is_readable(eip + 14));
        // Decode instruction
        let instruction = match self.decode_instruction(instruction_bytes.as_slice()) {
            Ok(i) => i,
            Err(e) => return Err(e),
        };
        // Cache the decoded instruction
        let copy = instruction.duplicate();
        self.instruction_cache.insert(eip, copy);
        // Advance instruction pointer
        self.registers.eip = eip + instruction.length as u32;
        Ok(instruction)
    }

    /// Gets register value
    fn get_register_value(&self, reg: &Register) -> (r: u32)
        ensures
            r == reg_value(self.registers, *reg),
    {
        match reg {
            Register::EAX => self.registers.eax,
            Register::EBX => self.registers.ebx,
            Register::ECX => self.registers.ecx,
            Register::EDX => self.registers.edx,
            Register::ESI => self.registers.esi,
            Register::EDI => self.registers.edi,
            Register::EBP => self.registers.ebp,
            Register::ESP => self.registers.esp,
            Register::AX => self.registers.eax & 0xFFFF,
            Register::BX => self.registers.ebx & 0xFFFF,
            Register::CX => self.registers.ecx & 0xFFFF,
            Register::DX => self.registers.edx & 0xFFFF,
            Register::SI => self.registers.esi & 0xFFFF,
            Register::DI => self.registers.edi & 0xFFFF,
            Register::BP => self.registers.ebp & 0xFFFF,
            Register::SP => self.registers.esp & 0xFFFF,
            Register::AL => self.registers.eax & 0xFF,
            Register::BL => self.registers.ebx & 0xFF,
            Register::CL => self.registers.ecx & 0xFF,
            Register::DL => self.registers.edx & 0xFF,
            Register::AH => (self.registers.eax >> 8) & 0xFF,
            Register::BH => (self.registers.ebx >> 8) & 0xFF,
            Register::CH => (self.registers.ecx >> 8) & 0xFF,
            Register::DH => (self.registers.edx >> 8) & 0xFF,
        }
    }

    /// Sets register value
    fn set_register_value(&mut self, reg: &Register, value: u32)
        ensures
            final(self).registers == with_reg(old(self).registers, *reg, value),
            final(self).memory == old(self).memory,
            final(self).cache() == old(self).cache(),
    {
        match reg {
            Register::EAX => self.registers.eax = value,
            Register::EBX => self.registers.ebx = value,
            Register::ECX => self.registers.ecx = value,
            Register::EDX => self.registers.edx = value,
            Register::ESI => self.registers.esi = value,
            Register::EDI => self.registers.edi = value,
            Register::EBP => self.registers.ebp = value,
            Register::ESP => self.registers.esp = value,
            Register::AX => self.registers.eax = (self.registers.eax & 0xFFFF_0000) | (value & 0xFFFF),
            Register::BX => self.registers.ebx = (self.registers.ebx & 0xFFFF_0000) | (value & 0xFFFF),
            Register::CX => self.registers.ecx = (self.registers.ecx & 0xFFFF_0000) | (value & 0xFFFF),
            Register::DX => self.registers.edx = (self.registers.edx & 0xFFFF_0000) | (value & 0xFFFF),
            Register::SI => self.registers.esi = (self.registers.esi & 0xFFFF_0000) | (value & 0xFFFF),
            Register::DI => self.registers.edi = (self.registers.edi & 0xFFFF_0000) | (value & 0xFFFF),
            Register::BP => self.registers.ebp = (self.registers.ebp & 0xFFFF_0000) | (value & 0xFFFF),
            Register::SP => self.registers.esp = (self.registers.esp & 0xFFFF_0000) | (value & 0xFFFF),
            Register::AL => self.registers.eax = (self.registers.eax & 0xFFFF_FF00) | (value & 0xFF),
            Register::BL => self.registers.ebx = (self.registers.ebx & 0xFFFF_FF00) | (value & 0xFF),
            Register::CL => self.registers.ecx = (self.registers.ecx & 0xFFFF_FF00) | (value & 0xFF),
            Register::DL => self.registers.edx = (self.registers.edx & 0xFFFF_FF00) | (value & 0xFF),
            Register::AH => self.registers.eax = (self.registers.eax & 0xFF00_FFFF) | ((value & 0xFF)
                << 8),
            Register::BH => self.registers.ebx = (self.registers.ebx & 0xFF00_FFFF) | ((value & 0xFF)
                << 8),
            Register::CH => self.registers.ecx = (self.registers.ecx & 0xFF00_FFFF) | ((value & 0xFF)
                << 8),
            Register::DH => self.registers.edx = (self.registers.edx & 0xFF00_FFFF) | ((value & 0xFF)
                << 8),
        }
    }

    /// Sets the carry flag to `carry`.
    fn restore_carry(&mut self, carry: bool)
        ensures
            final(self).registers == with_flags(
                old(self).registers,
                set_flag(old(self).registers.eflags, FLAG_CF, carry),
            ),
            final(self).memory == old(self).memory,
            final(self).cache() == old(self).cache(),
    {
        if carry {
            self.registers.eflags = self.registers.eflags | FLAG_CF;
        } else {
            self.registers.eflags = self.registers.eflags & !FLAG_CF;
        }
    }

    /// Updates flags after addition
    fn update_flags_add(&mut self, src1: u32, src2: u32, result: u32)
        ensures
            final(self).registers == with_flags(
                old(self).registers,
                flags_after_add(old(self).registers.eflags, src1, src2, result),
            ),
            final(self).memory == old(self).memory,
            final(self).cache() == old(self).cache(),
    {
        // Zero flag
        if result == 0 {
            self.registers.eflags = self.registers.eflags | FLAG_ZF;
        } else {
            self.registers.eflags = self.registers.eflags & !FLAG_ZF;
        }
        // Sign flag
        if result >= 0x8000_0000 {
            self.registers.eflags = self.registers.eflags | FLAG_SF;
        } else {
            self.registers.eflags = self.registers.eflags & !FLAG_SF;
        }
        // Carry flag
        if result < src1 || result < src2 {
            self.registers.eflags = self.registers.eflags | FLAG_CF;
        } else {
            self.registers.eflags = self.registers.eflags & !FLAG_CF;
        }
        // Overflow flag (simplified)
        let n1 = src1 >= 0x8000_0000;
        let n2 = src2 >= 0x8000_0000;
        let nr = result >= 0x8000_0000;
        if (!n1 && !n2 && nr) || (n1 && n2 && !nr) {
            self.registers.eflags = self.registers.eflags | FLAG_OF;
        } else {
            self.registers.eflags = self.registers.eflags & !FLAG_OF;
        }
    }

    /// Updates flags after subtraction
    fn update_flags_sub(&mut self, src1: u32, src2: u32, result: u32)
        ensures
            final(self).registers == with_flags(
                old(self).registers,
                flags_after_sub(old(self).registers.eflags, src1, src2, result),
            ),
            final(self).memory == old(self).memory,
            final(self).cache() == old(self).cache(),
    {
        // Zero flag
        if result == 0 {
            self.registers.eflags = self.registers.eflags | FLAG_ZF;
        } else {
            self.registers.eflags = self.registers.eflags & !FLAG_ZF;
        }
        // Sign flag
        if result >= 0x8000_0000 {
            self.registers.eflags = self.registers.eflags | FLAG_SF;
        } else {
            self.registers.eflags = self.registers.eflags & !FLAG_SF;
        }
        // Carry flag (for subtraction, set if src1 < src2)
        if src1 < src2 {
            self.registers.eflags = self.registers.eflags | FLAG_CF;
        } else {
            self.registers.eflags = self.registers.eflags & !FLAG_CF;
        }
        // Overflow flag (simplified)
        let n1 = src1 >= 0x8000_0000;
        let n2 = src2 >= 0x8000_0000;
        let nr = result >= 0x8000_0000;
        if (!n1 && n2 && nr) || (n1 && !n2 && !nr) {
            self.registers.eflags = self.registers.eflags | FLAG_OF;
        } else {
            self.registers.eflags = self.registers.eflags & !FLAG_OF;
        }
    }

    /// Calculates memory address from memory operand
    fn calculate_memory_address(&self, mem_op: &MemoryOperand) -> (r: Result<u32, CpuError>)
        ensures
            r == Ok::<u32, CpuError>(operand_address(self.registers, *mem_op)),
    {
        let mut address: u32 = if mem_op.displacement >= 0 {
            mem_op.displacement as u32
        } else {
            (mem_op.displacement as i64 + 0x1_0000_0000i64) as u32
        };
        match &mem_op.base {
            Some(base_reg) => {
                address = address.wrapping_add(self.get_register_value(base_reg));
            },
            None => {},
        }
        match &mem_op.index {
            Some(index_reg) => {
                let index_value = self.get_register_value(index_reg);
                address = address.wrapping_add(index_value.wrapping_mul(mem_op.scale as u32));
            },
            None => {},
        }
        Ok(address)
    }

    /// Gets value from operand
    fn get_operand_value(&self, operand: &InstructionOperand) -> (r: Result<u32, CpuError>)
        requires
            self.memory.wf(),
        ensures
            r == operand_value(self.registers, self.memory, *operand),
    {
        match operand {
            InstructionOperand::Register(reg) => Ok(self.get_register_value(reg)),
            InstructionOperand::Memory(mem_op) => {
                let address = self.calculate_memory_address(mem_op)?;
                match self.memory.read_u32(address) {
                    Ok(v) => Ok(v),
                    Err(e) => Err(CpuError::Memory(e)),
                }
            },
            InstructionOperand::Immediate(value) => {
                if *value >= 0 {
                    Ok(*value as u32)
                } else {
                    Ok((*value as i64 + 0x1_0000_0000i64) as u32)
                }
            },
        }
    }

    /// Stores a 32-bit word to memory.
    fn store_u32(&mut self, address: u32, value: u32) -> (r: Result<(), CpuError>)
        requires
            old(self).memory.wf(),
        ensures
            final(self).memory.wf(),
            final(self).registers == old(self).registers,
            final(self).cache() == old(self).cache(),
            stored_u32(final(self).memory, old(self).memory, address, value, r),
    {
        match self.memory.write_u32(address, value) {
            Ok(()) => Ok(()),
            Err(e) => Err(CpuError::Memory(e)),
        }
    }

    /// Sets value for operand
    fn set_operand_value(&mut self, operand: &InstructionOperand, value: u32) -> (r: Result<
        (),
        CpuError,
    >)
        requires
            old(self).memory.wf(),
        ensures
            final(self).memory.wf(),
            final(self).cache() == old(self).cache(),
            store_operand_outcome(
                final(self).registers,
                final(self).memory,
                old(self).registers,
                old(self).memory,
                *operand,
                value,
                old(self).registers.eflags,
                r,
            ),
    {
        match operand {
            InstructionOperand::Register(reg) => {
                self.set_register_value(reg, value);
                Ok(())
            },
            InstructionOperand::Memory(mem_op) => {
                let address = self.calculate_memory_address(mem_op)?;
                self.store_u32(address, value)
            },
            InstructionOperand::Immediate(_) => Err(CpuError::CannotSetImmediate),
        }
    }

    /// Executes MOV r/m32, r32 instruction
    fn execute_mov_reg_to_mem(&mut self, instruction: &X86Instruction) -> (r: Result<(), CpuError>)
        requires
            old(self).wf(),
        ensures
            final(self).wf(),
            final(self).cache() == old(self).cache(),
            mov_to_rm_outcome(
                final(self).registers,
                final(self).memory,
                old(self).registers,
                old(self).memory,
                instruction.operands@,
                r,
            ),
    {
        if instruction.operands.len() != 2 {
            return Err(CpuError::MovRequiresTwoOperands);
        }
        // The reg operand (decoded first) is the source
        let src_value = match &instruction.operands[0] {
            InstructionOperand::Register(reg) => self.get_register_value(reg),
            _ => return Err(CpuError::MovSourceMustBeRegister),
        };
        // The r/m operand is the destination
        match &instruction.operands[1] {
            InstructionOperand::Immediate(_) => Err(CpuError::MovInvalidDestination),
            dest => self.set_operand_value(dest, src_value),
        }
    }

    /// Executes MOV r32, r/m32 instruction
    fn execute_mov_mem_to_reg(&mut self, instruction: &X86Instruction) -> (r: Result<(), CpuError>)
        requires
            old(self).wf(),
        ensures
            final(self).wf(),
            final(self).cache() == old(self).cache(),
            mov_from_rm_outcome(
                final(self).registers,
                final(self).memory,
                old(self).registers,
                old(self).memory,
                instruction.operands@,
                r,
            ),
    {
        if instruction.operands.len() != 2 {
            return Err(CpuError::MovRequiresTwoOperands);
        }
        let src_value = match &instruction.operands[1] {
            InstructionOperand::Immediate(_) => return Err(CpuError::MovInvalidSource),
            src => self.get_operand_value(src)?,
        };
        match &instruction.operands[0] {
            InstructionOperand::Register(reg) => {
                self.set_register_value(reg, src_value);
                Ok(())
            },
            _ => Err(CpuError::MovDestinationMustBeRegister),
        }
    }

    /// Executes ADD r/m32, r32 instruction
    fn execute_add_reg_to_mem(&mut self, instruction: &X86Instruction) -> (r: Result<(), CpuError>)
        requires
            old(self).wf(),
        ensures
            final(self).wf(),
            final(self).cache() == old(self).cache(),
            add_to_rm_outcome(
                final(self).registers,
                final(self).memory,
                old(self).registers,
                old(self).memory,
                instruction.operands@,
                r,
            ),
    {
        if instruction.operands.len() != 2 {
            return Err(CpuError::AddRequiresTwoOperands);
        }
        // The reg operand (decoded first) is the source
        let src_value = match &instruction.operands[0] {
            InstructionOperand::Register(reg) => self.get_register_value(reg),
            _ => return Err(CpuError::AddSourceMustBeRegister),
        };
        // The r/m operand is the destination
        match &instruction.operands[1] {
            InstructionOperand::Immediate(_) => Err(CpuError::AddInvalidDestination),
            dest => {
                let current_value = self.get_operand_value(dest)?;
                let result = current_value.wrapping_add(src_value);
                self.set_operand_value(dest, result)?;
                self.update_flags_add(current_value, src_value, result);
                Ok(())
            },
        }
    }

    /// Executes ADD r32, r/m32 instruction
    fn execute_add_mem_to_reg(&mut self, instruction: &X86Instruction) -> (r: Result<(), CpuError>)
        requires
            old(self).wf(),
        ensures
            final(self).wf(),
            final(self).cache() == old(self).cache(),
            add_from_rm_outcome(
                final(self).registers,
                final(self).memory,
                old(self).registers,
                old(self).memory,
                instruction.operands@,
                r,
            ),
    {
        if instruction.operands.len() != 2 {
            return Err(CpuError::AddRequiresTwoOperands);
        }
        let src_value = match &instruction.operands[1] {
            InstructionOperand::Immediate(_) => return Err(CpuError::AddInvalidSource),
            src => self.get_operand_value(src)?,
        };
        match &instruction.operands[0] {
            InstructionOperand::Register(reg) => {
                let current_value = self.get_register_value(reg);
                let result = current_value.wrapping_add(src_value);
                self.set_register_value(reg, result);
                self.update_flags_add(current_value, src_value, result);
                Ok(())
            },
            _ => Err(CpuError::AddDestinationMustBeRegister),
        }
    }

    /// Executes PUSH instruction
    fn execute_push(&mut self, value: u32) -> (r: Result<(), CpuError>)
        requires
            old(self).wf(),
        ensures
            final(self).wf(),
            final(self).cache() == old(self).cache(),
            final(self).registers == after_push(old(self).registers),
            stored_u32(
                final(self).memory,
                old(self).memory,
                after_push(old(self).registers).esp,
                value,
                r,
            ),
    {
        // Decrease stack pointer
        self.registers.esp = self.registers.esp.wrapping_sub(4);
        // Write value to stack
        let esp = self.registers.esp;
        self.store_u32(esp, value)
    }

    /// Executes CALL instruction
    fn execute_call(&mut self, target: u32) -> (r: Result<(), CpuError>)
        requires
            old(self).wf(),
        ensures
            final(self).wf(),
            final(self).cache() == old(self).cache(),
            stored_u32(
                final(self).memory,
                old(self).memory,
                after_push(old(self).registers).esp,
                old(self).registers.eip,
                r,
            ),
            final(self).registers == if r is Ok {
                X86Registers { eip: target, ..after_push(old(self).registers) }
            } else {
                after_push(old(self).registers)
            },
    {
        // Push return address onto stack
        let return_address = self.registers.eip;
        self.execute_push(return_address)?;
        // Jump to target
        self.registers.eip = target;
        Ok(())
    }

    /// Executes INC instruction
    fn execute_inc(&mut self, operand: &InstructionOperand) -> (r: Result<(), CpuError>)
        requires
            old(self).wf(),
        ensures
            final(self).wf(),
            final(self).cache() == old(self).cache(),
            match operand_value(old(self).registers, old(self).memory, *operand) {
                Err(e) => r == Err::<(), CpuError>(e) && final(self).registers == old(
                    self,
                ).registers && final(self).memory == old(self).memory,
                Ok(v) => store_operand_outcome(
                    final(self).registers,
                    final(self).memory,
                    old(self).registers,
                    old(self).memory,
                    *operand,
                    wrapping_add(v, 1),
                    flags_after_inc(old(self).registers.eflags, v, wrapping_add(v, 1)),
                    r,
                ),
            },
    {
        let carry = self.registers.eflags & FLAG_CF != 0;
        let current_value = self.get_operand_value(operand)?;
        let result = current_value.wrapping_add(1);
        self.set_operand_value(operand, result)?;
        self.update_flags_add(current_value, 1, result);
        // INC leaves the carry flag as it was
        self.restore_carry(carry);
        Ok(())
    }

    /// Executes DEC instruction
    fn execute_dec(&mut self, operand: &InstructionOperand) -> (r: Result<(), CpuError>)
        requires
            old(self).wf(),
        ensures
            final(self).wf(),
            final(self).cache() == old(self).cache(),
            match operand_value(old(self).registers, old(self).memory, *operand) {
                Err(e) => r == Err::<(), CpuError>(e) && final(self).registers == old(
                    self,
                ).registers && final(self).memory == old(self).memory,
                Ok(v) => store_operand_outcome(
                    final(self).registers,
                    final(self).memory,
                    old(self).registers,
                    old(self).memory,
                    *operand,
                    wrapping_sub(v, 1),
                    flags_after_dec(old(self).registers.eflags, v, wrapping_sub(v, 1)),
                    r,
                ),
            },
    {
        let carry = self.registers.eflags & FLAG_CF != 0;
        let current_value = self.get_operand_value(operand)?;
        let result = current_value.wrapping_sub(1);
        self.set_operand_value(operand, result)?;
        self.update_flags_sub(current_value, 1, result);
        // DEC leaves the carry flag as it was
        self.restore_carry(carry);
        Ok(())
    }

    /// Executes instructions in the 0xFF group
    fn execute_ff_group(&mut self, instruction: &X86Instruction) -> (r: Result<(), CpuError>)
        requires
            old(self).wf(),
        ensures
            final(self).wf(),
            final(self).cache() == old(self).cache(),
            group_ff_outcome(
                final(self).registers,
                final(self).memory,
                old(self).registers,
                old(self).memory,
                instruction@,
                r,
            ),
    {
        if instruction.operands.len() == 0 {
            return Err(CpuError::GroupFfRequiresOperands);
        }
        // Get the reg field from ModR/M to determine the specific instruction
        let reg_field = match instruction.modrm {
            Some(modrm) => (modrm / 8) % 8,
            None => return Err(CpuError::GroupFfRequiresModRM),
        };
        let operand = &instruction.operands[0];
        if reg_field == 0 {
            // INC r/m32
            self.execute_inc(operand)
        } else if reg_field == 1 {
            // DEC r/m32
            self.execute_dec(operand)
        } else if reg_field == 2 {
            // CALL r/m32
            let target = self.get_operand_value(operand)?;
            self.execute_call(target)
        } else if reg_field == 4 {
            // JMP r/m32
            let target = self.get_operand_value(operand)?;
            self.registers.eip = target;
            Ok(())
        } else if reg_field == 6 {
            // PUSH r/m32
            let value = self.get_operand_value(operand)?;
            self.execute_push(value)
        } else {
            Err(CpuError::UnimplementedGroupFf(reg_field))
        }
    }

    /// Executes one decoded instruction against the registers and memory.
    pub fn execute_instruction(&mut self, instruction: X86Instruction) -> (r: Result<(), CpuError>)
        requires
            old(self).wf(),
        ensures
            final(self).wf(),
            final(self).cache() == old(self).cache(),
            step_outcome(
                final(self).registers,
                final(self).memory,
                old(self).registers,
                old(self).memory,
                instruction@,
                r,
            ),
    {
        let opcode = instruction.opcode;
        if opcode == 0x90 {
            // NOP
            Ok(())
        } else if opcode == 0xB8 {
            // MOV EAX, imm32
            match instruction.immediate {
                Some(imm) => {
                    self.registers.eax = imm;
                },
                None => {},
            }
            Ok(())
        } else if opcode == 0x89 {
            self.execute_mov_reg_to_mem(&instruction)
        } else if opcode == 0x8B {
            self.execute_mov_mem_to_reg(&instruction)
        } else if opcode == 0x01 {
            self.execute_add_reg_to_mem(&instruction)
        } else if opcode == 0x03 {
            self.execute_add_mem_to_reg(&instruction)
        } else if opcode == 0xFF {
            self.execute_ff_group(&instruction)
        } else {
            Err(CpuError::UnimplementedOpcode(opcode))
        }
    }
}

} // verus!
