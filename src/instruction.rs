//! Decoded instructions: the decoder, which classifies a 32-bit word by its
//! primary opcode and extracts the fields of its format, and the executor,
//! which applies one instruction to the register file and the memory.
use vstd::prelude::*;
use crate::immediates::{
    b_value, i_value, j_value, s_value, u_value, BImmediate, IImmediate, Immediate, JImmediate,
    SImmediate, UImmediate,
};
use crate::math_utils::{wrap_once, MixedIntegerOps};
use crate::register::{Register, RegisterFile};

verus! {

// Primary opcodes.
pub const OP_IMM: u32 = 0b0010011;

pub const OP: u32 = 0b0110011;

pub const LUI: u32 = 0b0110111;

pub const AUIPC: u32 = 0b0010111;

pub const FENCE: u32 = 0b0001111;

pub const JALR: u32 = 0b1100111;

pub const JAL: u32 = 0b1101111;

pub const BRANCH: u32 = 0b1100011;

pub const LOAD: u32 = 0b0000011;

pub const STORE: u32 = 0b0100011;

// Function codes of the register-immediate operations: `funct7 << 3 | funct3`.
pub const ADDI: u32 = 0b0000000000;

pub const SLLI: u32 = 0b0000000001;

pub const SLTI: u32 = 0b0000000010;

pub const SLTIU: u32 = 0b0000000011;

pub const XORI: u32 = 0b0000000100;

pub const SRLI: u32 = 0b0000000101;

pub const SRAI: u32 = 0b0100000101;

pub const ORI: u32 = 0b0000000110;

pub const ANDI: u32 = 0b0000000111;

// Function codes of the register-register operations: `funct7 << 3 | funct3`.
pub const ADD: u32 = 0b0000000000;

pub const SUB: u32 = 0b0100000000;

pub const SLL: u32 = 0b0000000001;

pub const SLT: u32 = 0b0000000010;

pub const SLTU: u32 = 0b0000000011;

pub const XOR: u32 = 0b0000000100;

pub const SRL: u32 = 0b0000000101;

pub const SRA: u32 = 0b0100000101;

pub const OR: u32 = 0b0000000110;

pub const AND: u32 = 0b0000000111;

// Branch conditions (funct3).
pub const BEQ: u32 = 0b000;

pub const BNE: u32 = 0b001;

pub const BLT: u32 = 0b100;

pub const BGE: u32 = 0b101;

pub const BLTU: u32 = 0b110;

pub const BGEU: u32 = 0b111;

// Load widths (funct3).
pub const LB: u32 = 0b000;

pub const LH: u32 = 0b001;

pub const LW: u32 = 0b010;

pub const LBU: u32 = 0b100;

pub const LHU: u32 = 0b101;

// Store widths (funct3).
pub const SB: u32 = 0b000;

pub const SH: u32 = 0b001;

pub const SW: u32 = 0b010;

/// Number of words in the memory.
pub const MEMORY_WORDS: usize = 1024;

/// The memory: words addressed by their index. The address that a load or
/// store computes is taken as a word index as it stands, not divided by 4.
pub type Memory = [u32; 1024];

/// One instruction, by format. Register fields are indices, immediates the
/// sign-extended value of the format (for the U format, the 20-bit payload
/// before its shift by 12).
#[derive(Debug, Clone, Copy, PartialEq, Eq, Structural)]
pub enum Instruction {
    IFormatInstruction { imm: i16, rs1: usize, funct3: u32, rd: usize, opcode: u32 },
    JFormatInstruction { imm: i32, rd: usize, opcode: u32 },
    RFormatInstruction { rd: usize, funct3: u32, rs1: usize, rs2: usize, funct7: u32 },
    UFormatInstruction { imm: i32, rd: usize, opcode: u32 },
    BFormatInstruction { imm: i32, rs1: usize, rs2: usize, funct3: u32 },
    SFormatInstruction { imm: i32, rs1: usize, rs2: usize, funct3: u32 },
}

/// Why an instruction could not be carried out.
#[derive(Debug, Clone, Copy, PartialEq, Eq, Structural)]
pub enum ExecError {
    /// A load or store addressed a word beyond the memory.
    MemoryOutOfRange { address: u32 },
    /// A right shift by immediate whose upper immediate bits name neither
    /// the logical nor the arithmetic shift.
    IllegalShift { imm: i16 },
}

/// The integer that the 32-bit pattern `x` stands for in two's complement.
pub open spec fn signed(x: u32) -> int {
    if x < 0x8000_0000 {
        x as int
    } else {
        x - 0x1_0000_0000
    }
}

/// The 32-bit two's complement pattern of `v`.
pub open spec fn word_of(v: i32) -> u32 {
    wrap_once(v as int, 0x1_0000_0000) as u32
}

/// `x` shifted right by `sh` places, copies of its sign bit moving in.
pub open spec fn sra(x: u32, sh: u32) -> u32 {
    if x >> 31u32 == 1 {
        !((!x) >> sh)
    } else {
        x >> sh
    }
}

/// The low byte of `v`, sign-extended.
pub open spec fn sext8(v: u32) -> u32 {
    if v & 0x80 != 0 {
        (v & 0xFF) | 0xFFFF_FF00
    } else {
        v & 0xFF
    }
}

/// The low half-word of `v`, sign-extended.
pub open spec fn sext16(v: u32) -> u32 {
    if v & 0x8000 != 0 {
        (v & 0xFFFF) | 0xFFFF_0000
    } else {
        v & 0xFFFF
    }
}

/// The register-immediate operation `funct3` on `x` and `imm`: the value for
/// `rd`, `None` for a `funct3` that names no operation.
pub open spec fn op_imm_result(funct3: u32, imm: i16, x: u32) -> Result<Option<u32>, ExecError> {
    let w = word_of(imm as i32);
    if funct3 == ADDI {
        Ok(Some(x.add_signed_wrapped(imm as i32)))
    } else if funct3 == SLLI {
        Ok(Some(x << (w & 31)))
    } else if funct3 == SLTI {
        Ok(Some(if signed(x) < imm { 1u32 } else { 0u32 }))
    } else if funct3 == SLTIU {
        Ok(Some(if x < w { 1u32 } else { 0u32 }))
    } else if funct3 == XORI {
        Ok(Some(x ^ w))
    } else if funct3 == SRLI {
        if 0 <= imm < 0x400 {
            Ok(Some(x >> (w & 31)))
        } else if 0x400 <= imm < 0x800 {
            Ok(Some(sra(x, w & 31)))
        } else {
            Err(ExecError::IllegalShift { imm })
        }
    } else if funct3 == ORI {
        Ok(Some(x | w))
    } else if funct3 == ANDI {
        Ok(Some(x & w))
    } else {
        Ok(None)
    }
}

/// The register-register operation `{funct7, funct3}` on `x` and `y`; `None`
/// for a pair that names no operation.
pub open spec fn op_result(funct7: u32, funct3: u32, x: u32, y: u32) -> Option<u32> {
    let sh = y & 31;
    if funct7 == 0 {
        if funct3 == 0 {
            Some(wrap_once(x + y, 0x1_0000_0000) as u32)
        } else if funct3 == 1 {
            Some(x << sh)
        } else if funct3 == 2 {
            Some(if signed(x) < signed(y) { 1u32 } else { 0u32 })
        } else if funct3 == 3 {
            Some(if x < y { 1u32 } else { 0u32 })
        } else if funct3 == 4 {
            Some(x ^ y)
        } else if funct3 == 5 {
            Some(x >> sh)
        } else if funct3 == 6 {
            Some(x | y)
        } else if funct3 == 7 {
            Some(x & y)
        } else {
            None
        }
    } else if funct7 == 0b0100000 {
        if funct3 == 0 {
            Some(wrap_once(x - y, 0x1_0000_0000) as u32)
        } else if funct3 == 5 {
            Some(sra(x, sh))
        } else {
            None
        }
    } else {
        None
    }
}

pub open spec fn is_load_width(funct3: u32) -> bool {
    funct3 == LB || funct3 == LH || funct3 == LW || funct3 == LBU || funct3 == LHU
}

/// What a load of width `funct3` puts in `rd` from the stored word `w`.
pub open spec fn load_value(funct3: u32, w: u32) -> u32 {
    if funct3 == LB {
        sext8(w)
    } else if funct3 == LH {
        sext16(w)
    } else if funct3 == LBU {
        w & 0xFF
    } else if funct3 == LHU {
        w & 0xFFFF
    } else {
        w
    }
}

pub open spec fn is_store_width(funct3: u32) -> bool {
    funct3 == SB || funct3 == SH || funct3 == SW
}

/// The word that a store of width `funct3` writes for the value `v`.
pub open spec fn store_value(funct3: u32, v: u32) -> u32 {
    if funct3 == SB {
        v & 0xFF
    } else if funct3 == SH {
        v & 0xFFFF
    } else {
        v
    }
}

/// Whether the branch condition `funct3` holds of `x` and `y`; false for a
/// `funct3` that names no condition.
pub open spec fn branch_taken(funct3: u32, x: u32, y: u32) -> bool {
    if funct3 == BEQ {
        x == y
    } else if funct3 == BNE {
        x != y
    } else if funct3 == BLT {
        signed(x) < signed(y)
    } else if funct3 == BGE {
        signed(x) >= signed(y)
    } else if funct3 == BLTU {
        x < y
    } else if funct3 == BGEU {
        x >= y
    } else {
        false
    }
}

/// The registers after writing `v` to `rd`; a write to x0 is discarded.
pub open spec fn write_reg(x: Seq<u32>, rd: usize, v: u32) -> Seq<u32> {
    if rd == 0 {
        x
    } else {
        x.update(rd as int, v)
    }
}

/// The return address of a jump at `pc`.
pub open spec fn link_value(pc: usize) -> u32 {
    wrap_once((pc as u32) + 4, 0x1_0000_0000) as u32
}

/// `rf` with `v` written to `rd`.
pub open spec fn with_rd(rf: RegisterFile, rd: usize, v: u32) -> RegisterFile {
    RegisterFile { x: write_reg(rf.x, rd, v), ..rf }
}

/// `rf` with the program counter set to `pc`.
pub open spec fn with_pc(rf: RegisterFile, pc: usize) -> RegisterFile {
    RegisterFile { pc, ..rf }
}

/// The integer that the 32-bit pattern `v` stands for in two's complement.
fn to_signed(v: u32) -> (r: i32)
    ensures
        r == signed(v),
{
    if v < 0x8000_0000 {
        v as i32
    } else {
        (v as i64 - 0x1_0000_0000i64) as i32
    }
}

fn register_field(bits: u32, lsb: u32) -> (r: usize)
    requires
        lsb == 7 || lsb == 15 || lsb == 20,
    ensures
        r == ((bits >> lsb) & 0x1F) as usize,
        r < 32,
{
    proof {
        lemma_register_fields(bits);
    }
    ((bits >> lsb) & 0x1F) as usize
}

proof fn lemma_shift_amount(w: u32)
    ensures
        w & 31 < 32,
{
    assert(w & 31 < 32) by (bit_vector);
}

/// The 32-bit two's complement pattern of `v`.
fn to_word(v: i32) -> (r: u32)
    ensures
        r == word_of(v),
{
    MixedIntegerOps::wrapping_add_signed(0u32, v)
}

/// Whether `x < y` as two's complement integers.
fn signed_less(x: u32, y: u32) -> (r: bool)
    ensures
        r == (signed(x) < signed(y)),
{
    let x_negative = x >= 0x8000_0000;
    let y_negative = y >= 0x8000_0000;
    if x_negative == y_negative {
        x < y
    } else {
        x_negative
    }
}

fn shift_right_arithmetic(x: u32, sh: u32) -> (r: u32)
    requires
        sh < 32,
    ensures
        r == sra(x, sh),
{
    if x >> 31u32 == 1 {
        !((!x) >> sh)
    } else {
        x >> sh
    }
}

fn flag(b: bool) -> (r: u32)
    ensures
        r == (if b { 1u32 } else { 0u32 }),
{
    if b {
        1
    } else {
        0
    }
}

fn alu_imm(funct3: u32, imm: i16, x: u32) -> (r: Result<Option<u32>, ExecError>)
    ensures
        r == op_imm_result(funct3, imm, x),
{
    let w = to_word(imm as i32);
    proof {
        lemma_shift_amount(w);
    }
    if funct3 == ADDI {
        Ok(Some(MixedIntegerOps::wrapping_add_signed(x, imm as i32)))
    } else if funct3 == SLLI {
        Ok(Some(x << (w & 31)))
    } else if funct3 == SLTI {
        Ok(Some(flag(signed_less(x, w))))
    } else if funct3 == SLTIU {
        Ok(Some(flag(x < w)))
    } else if funct3 == XORI {
        Ok(Some(x ^ w))
    } else if funct3 == SRLI {
        // the upper immediate bits tell the logical shift from the arithmetic one
        if 0 <= imm && imm < 0x400 {
            Ok(Some(x >> (w & 31)))
        } else if 0x400 <= imm && imm < 0x800 {
            Ok(Some(shift_right_arithmetic(x, w & 31)))
        } else {
            Err(ExecError::IllegalShift { imm })
        }
    } else if funct3 == ORI {
        Ok(Some(x | w))
    } else if funct3 == ANDI {
        Ok(Some(x & w))
    } else {
        Ok(None)
    }
}

fn alu(funct7: u32, funct3: u32, x: u32, y: u32) -> (r: Option<u32>)
    ensures
        r == op_result(funct7, funct3, x, y),
{
    let sh = y & 31;
    proof {
        lemma_shift_amount(y);
    }
    if funct7 == 0 {
        if funct3 == 0 {
            Some(x.wrapping_add(y))
        } else if funct3 == 1 {
            Some(x << sh)
        } else if funct3 == 2 {
            Some(flag(signed_less(x, y)))
        } else if funct3 == 3 {
            Some(flag(x < y))
        } else if funct3 == 4 {
            Some(x ^ y)
        } else if funct3 == 5 {
            Some(x >> sh)
        } else if funct3 == 6 {
            Some(x | y)
        } else if funct3 == 7 {
            Some(x & y)
        } else {
            None
        }
    } else if funct7 == 0b0100000 {
        if funct3 == 0 {
            Some(x.wrapping_sub(y))
        } else if funct3 == 5 {
            Some(shift_right_arithmetic(x, sh))
        } else {
            None
        }
    } else {
        None
    }
}

fn load_extend(funct3: u32, w: u32) -> (r: u32)
    ensures
        r == load_value(funct3, w),
{
    if funct3 == LB {
        if w & 0x80 != 0 {
            (w & 0xFF) | 0xFFFF_FF00
        } else {
            w & 0xFF
        }
    } else if funct3 == LH {
        if w & 0x8000 != 0 {
            (w & 0xFFFF) | 0xFFFF_0000
        } else {
            w & 0xFFFF
        }
    } else if funct3 == LBU {
        w & 0xFF
    } else if funct3 == LHU {
        w & 0xFFFF
    } else {
        w
    }
}

fn store_narrow(funct3: u32, v: u32) -> (r: u32)
    ensures
        r == store_value(funct3, v),
{
    if funct3 == SB {
        v & 0xFF
    } else if funct3 == SH {
        v & 0xFFFF
    } else {
        v
    }
}

fn condition_holds(funct3: u32, x: u32, y: u32) -> (r: bool)
    ensures
        r == branch_taken(funct3, x, y),
{
    if funct3 == BEQ {
        x == y
    } else if funct3 == BNE {
        x != y
    } else if funct3 == BLT {
        signed_less(x, y)
    } else if funct3 == BGE {
        !signed_less(x, y)
    } else if funct3 == BLTU {
        x < y
    } else if funct3 == BGEU {
        x >= y
    } else {
        false
    }
}

/// Writes `v` to register `rd`, unless `rd` is x0.
fn write_rd(register: &mut Register, rd: usize, v: u32)
    requires
        rd < 32,
    ensures
        final(register)@ == with_rd(old(register)@, rd, v),
{
    if rd != 0 {
        register.put(rd, v);
    } else {
        assert(old(register)@ == with_rd(old(register)@, rd, v));
    }
}

fn link(pc: usize) -> (r: u32)
    ensures
        r == link_value(pc),
{
    (pc as u32).wrapping_add(4)
}

pub open spec fn opcode_field(bits: u32) -> u32 {
    bits & 0x7F
}

pub open spec fn rd_field(bits: u32) -> usize {
    ((bits >> 7u32) & 0x1F) as usize
}

pub open spec fn funct3_field(bits: u32) -> u32 {
    (bits >> 12u32) & 0x7
}

pub open spec fn rs1_field(bits: u32) -> usize {
    ((bits >> 15u32) & 0x1F) as usize
}

pub open spec fn rs2_field(bits: u32) -> usize {
    ((bits >> 20u32) & 0x1F) as usize
}

pub open spec fn funct7_field(bits: u32) -> u32 {
    bits >> 25u32
}

pub open spec fn i_format(bits: u32) -> Instruction {
    Instruction::IFormatInstruction {
        imm: signed(i_value(bits)) as i16,
        rs1: rs1_field(bits),
        funct3: funct3_field(bits),
        rd: rd_field(bits),
        opcode: opcode_field(bits),
    }
}

pub open spec fn r_format(bits: u32) -> Instruction {
    Instruction::RFormatInstruction {
        rd: rd_field(bits),
        funct3: funct3_field(bits),
        rs1: rs1_field(bits),
        rs2: rs2_field(bits),
        funct7: funct7_field(bits),
    }
}

/// The U-format immediate is kept as its 20-bit payload.
pub open spec fn u_format(bits: u32) -> Instruction {
    Instruction::UFormatInstruction {
        imm: (u_value(bits) >> 12u32) as i32,
        rd: rd_field(bits),
        opcode: opcode_field(bits),
    }
}

pub open spec fn j_format(bits: u32) -> Instruction {
    Instruction::JFormatInstruction {
        imm: signed(j_value(bits)) as i32,
        rd: rd_field(bits),
        opcode: opcode_field(bits),
    }
}

pub open spec fn b_format(bits: u32) -> Instruction {
    Instruction::BFormatInstruction {
        imm: signed(b_value(bits)) as i32,
        rs1: rs1_field(bits),
        rs2: rs2_field(bits),
        funct3: funct3_field(bits),
    }
}

pub open spec fn s_format(bits: u32) -> Instruction {
    Instruction::SFormatInstruction {
        imm: signed(s_value(bits)) as i32,
        rs1: rs1_field(bits),
        rs2: rs2_field(bits),
        funct3: funct3_field(bits),
    }
}

/// The instruction that `bits` encodes, by its primary opcode; `None` for an
/// opcode outside the base set. A FENCE decodes in the I format and has no
/// effect.
pub open spec fn decode(bits: u32) -> Option<Instruction> {
    let opcode = opcode_field(bits);
    if opcode == OP_IMM || opcode == JALR || opcode == LOAD || opcode == FENCE {
        Some(i_format(bits))
    } else if opcode == OP {
        Some(r_format(bits))
    } else if opcode == LUI || opcode == AUIPC {
        Some(u_format(bits))
    } else if opcode == JAL {
        Some(j_format(bits))
    } else if opcode == BRANCH {
        Some(b_format(bits))
    } else if opcode == STORE {
        Some(s_format(bits))
    } else {
        None
    }
}

proof fn lemma_register_fields(bits: u32)
    ensures
        (bits >> 7u32) & 0x1F < 32,
        (bits >> 15u32) & 0x1F < 32,
        (bits >> 20u32) & 0x1F < 32,
{
    assert((bits >> 7u32) & 0x1F < 32) by (bit_vector);
    assert((bits >> 15u32) & 0x1F < 32) by (bit_vector);
    assert((bits >> 20u32) & 0x1F < 32) by (bit_vector);
}

/// Decoded instructions name registers that exist.
pub proof fn lemma_decode_wf(bits: u32)
    ensures
        decode(bits) matches Some(ins) ==> ins.wf(),
{
    lemma_register_fields(bits);
}

impl Instruction {
    /// Every register field names one of the 32 registers.
    pub open spec fn wf(&self) -> bool {
        match *self {
            Instruction::IFormatInstruction { rs1, rd, .. } => rs1 < 32 && rd < 32,
            Instruction::JFormatInstruction { rd, .. } => rd < 32,
            Instruction::RFormatInstruction { rd, rs1, rs2, .. } => rd < 32 && rs1 < 32 && rs2
                < 32,
            Instruction::UFormatInstruction { rd, .. } => rd < 32,
            Instruction::BFormatInstruction { rs1, rs2, .. } => rs1 < 32 && rs2 < 32,
            Instruction::SFormatInstruction { rs1, rs2, .. } => rs1 < 32 && rs2 < 32,
        }
    }

    /// The effect of the instruction at address `pc` on the register file
    /// `rf` and the memory `mem`: the new register file and memory, or the
    /// error that stops it. Only jumps and taken branches change `rf.pc`.
    /// The target of JALR is `rs1 + imm` as it is, bit 0 included.
    pub open spec fn effect(self, pc: usize, rf: RegisterFile, mem: Seq<u32>) -> Result<
        (RegisterFile, Seq<u32>),
        ExecError,
    > {
        match self {
            Instruction::IFormatInstruction { imm, rs1, funct3, rd, opcode } => {
                let x = rf.x[rs1 as int];
                if opcode == OP_IMM {
                    match op_imm_result(funct3, imm, x) {
                        Err(e) => Err(e),
                        Ok(None) => Ok((rf, mem)),
                        Ok(Some(v)) => Ok((with_rd(rf, rd, v), mem)),
                    }
                } else if opcode == JALR {
                    let target = x.add_signed_wrapped(imm as i32);
                    Ok((with_pc(with_rd(rf, rd, link_value(pc)), target as usize), mem))
                } else if opcode == LOAD && is_load_width(funct3) {
                    let address = x.add_signed_wrapped(imm as i32);
                    if address < MEMORY_WORDS {
                        Ok((with_rd(rf, rd, load_value(funct3, mem[address as int])), mem))
                    } else {
                        Err(ExecError::MemoryOutOfRange { address })
                    }
                } else {
                    Ok((rf, mem))
                }
            },
            Instruction::RFormatInstruction { rd, funct3, rs1, rs2, funct7 } => {
                match op_result(funct7, funct3, rf.x[rs1 as int], rf.x[rs2 as int]) {
                    None => Ok((rf, mem)),
                    Some(v) => Ok((with_rd(rf, rd, v), mem)),
                }
            },
            Instruction::UFormatInstruction { imm, rd, opcode } => {
                let upper = word_of(imm) << 12u32;
                if opcode == LUI {
                    Ok((with_rd(rf, rd, upper), mem))
                } else if opcode == AUIPC {
                    Ok((with_rd(rf, rd, wrap_once((pc as u32) + upper, 0x1_0000_0000) as u32), mem))
                } else {
                    Ok((rf, mem))
                }
            },
            Instruction::JFormatInstruction { imm, rd, opcode } => {
                if opcode == JAL {
                    Ok((with_pc(with_rd(rf, rd, link_value(pc)), pc.add_signed_wrapped(imm)), mem))
                } else {
                    Ok((rf, mem))
                }
            },
            Instruction::BFormatInstruction { imm, rs1, rs2, funct3 } => {
                if branch_taken(funct3, rf.x[rs1 as int], rf.x[rs2 as int]) {
                    Ok((with_pc(rf, pc.add_signed_wrapped(imm)), mem))
                } else {
                    Ok((rf, mem))
                }
            },
            Instruction::SFormatInstruction { imm, rs1, rs2, funct3 } => {
                if is_store_width(funct3) {
                    let address = rf.x[rs1 as int].add_signed_wrapped(imm);
                    if address < MEMORY_WORDS {
                        Ok((rf, mem.update(address as int, store_value(funct3, rf.x[rs2 as int]))))
                    } else {
                        Err(ExecError::MemoryOutOfRange { address })
                    }
                } else {
                    Ok((rf, mem))
                }
            },
        }
    }

    /// Carries out the instruction as the one at address `register.pc()`.
    pub fn execute(self, register: &mut Register, memory: &mut Memory) -> (r: Result<(), ExecError>)
        requires
            self.wf(),
            old(register).wf(),
        ensures
            match self.effect(old(register)@.pc, old(register)@, old(memory)@) {
                Ok((rf, mem)) => r is Ok && final(register)@ == rf && final(memory)@ == mem,
                Err(e) => r == Err::<(), ExecError>(e) && final(register)@ == old(register)@
                    && final(memory)@ == old(memory)@,
            },
            final(register).wf(),
    {
        let pc = register.pc();
        self.execute_at(pc, register, memory)
    }

    /// Carries out the instruction as the one at address `pc`, whatever the
    /// program counter of `register` holds: PC-relative targets and return
    /// addresses are taken from `pc`, and the program counter of `register`
    /// is written only by jumps and taken branches. On an error nothing is
    /// changed.
    pub fn execute_at(self, pc: usize, register: &mut Register, memory: &mut Memory) -> (r: Result<(), ExecError>)
        requires
            self.wf(),
            old(register).wf(),
        ensures
            match self.effect(pc, old(register)@, old(memory)@) {
                Ok((rf, mem)) => r is Ok && final(register)@ == rf && final(memory)@ == mem,
                Err(e) => r == Err::<(), ExecError>(e) && final(register)@ == old(register)@
                    && final(memory)@ == old(memory)@,
            },
            final(register).wf(),
    {
        match self {
            Instruction::IFormatInstruction { imm, rs1, funct3, rd, opcode } => {
                let x = register.get(rs1);
                if opcode == OP_IMM {
                    match alu_imm(funct3, imm, x) {
                        Err(e) => Err(e),
                        Ok(None) => Ok(()),
                        Ok(Some(v)) => {
                            write_rd(register, rd, v);
                            Ok(())
                        },
                    }
                } else if opcode == JALR {
                    let target = MixedIntegerOps::wrapping_add_signed(x, imm as i32);
                    write_rd(register, rd, link(pc));
                    register.update_pc(target as usize);
                    Ok(())
                } else if opcode == LOAD && (funct3 == LB || funct3 == LH || funct3 == LW || funct3
                    == LBU || funct3 == LHU) {
                    let address = MixedIntegerOps::wrapping_add_signed(x, imm as i32);
                    if (address as usize) < MEMORY_WORDS {
                        let w = memory[address as usize];
                        write_rd(register, rd, load_extend(funct3, w));
                        Ok(())
                    } else {
                        Err(ExecError::MemoryOutOfRange { address })
                    }
                } else {
                    Ok(())
                }
            },
            Instruction::RFormatInstruction { rd, funct3, rs1, rs2, funct7 } => {
                match alu(funct7, funct3, register.get(rs1), register.get(rs2)) {
                    None => Ok(()),
                    Some(v) => {
                        write_rd(register, rd, v);
                        Ok(())
                    },
                }
            },
            Instruction::UFormatInstruction { imm, rd, opcode } => {
                let upper = to_word(imm) << 12u32;
                if opcode == LUI {
                    write_rd(register, rd, upper);
                } else if opcode == AUIPC {
                    write_rd(register, rd, (pc as u32).wrapping_add(upper));
                }
                Ok(())
            },
            Instruction::JFormatInstruction { imm, rd, opcode } => {
                if opcode == JAL {
                    write_rd(register, rd, link(pc));
                    register.update_pc(MixedIntegerOps::wrapping_add_signed(pc, imm));
                }
                Ok(())
            },
            Instruction::BFormatInstruction { imm, rs1, rs2, funct3 } => {
                if condition_holds(funct3, register.get(rs1), register.get(rs2)) {
                    register.update_pc(MixedIntegerOps::wrapping_add_signed(pc, imm));
                }
                Ok(())
            },
            Instruction::SFormatInstruction { imm, rs1, rs2, funct3 } => {
                if funct3 == SB || funct3 == SH || funct3 == SW {
                    let address = MixedIntegerOps::wrapping_add_signed(register.get(rs1), imm);
                    if (address as usize) < MEMORY_WORDS {
                        memory[address as usize] = store_narrow(funct3, register.get(rs2));
                        Ok(())
                    } else {
                        Err(ExecError::MemoryOutOfRange { address })
                    }
                } else {
                    Ok(())
                }
            },
        }
    }


    /// Decodes `bits`; `None` where its opcode is outside the base set.
    pub fn from(bits: u32) -> (r: Option<Instruction>)
        ensures
            r == decode(bits),
            r matches Some(ins) ==> ins.wf(),
    {
        proof {
            lemma_decode_wf(bits);
        }
        let opcode = bits & 0b1111111;
        if opcode == OP_IMM || opcode == JALR || opcode == LOAD || opcode == FENCE {
            Some(Instruction::parse_iformat(bits))
        } else if opcode == OP {
            Some(Instruction::parse_rformat(bits))
        } else if opcode == LUI || opcode == AUIPC {
            Some(Instruction::parse_uformat(bits))
        } else if opcode == JAL {
            Some(Instruction::parse_jformat(bits))
        } else if opcode == BRANCH {
            Some(Instruction::parse_bformat(bits))
        } else if opcode == STORE {
            Some(Instruction::parse_sformat(bits))
        } else {
            None
        }
    }

    fn parse_iformat(bits: u32) -> (r: Instruction)
        ensures
            r == i_format(bits),
    {
        let opcode = bits & 0b1111111;
        let rd = register_field(bits, 7);
        let funct3 = (bits >> 12u32) & 0b111;
        let rs1 = register_field(bits, 15);
        let imm: u32 = IImmediate::from_instruction(bits).into();
        proof {
            assert(i_value(bits) < 0x800 || i_value(bits) >= 0xFFFF_F800) by (bit_vector);
        }
        let imm = to_signed(imm) as i16;
        Instruction::IFormatInstruction { imm, rs1, funct3, rd, opcode }
    }

    fn parse_rformat(bits: u32) -> (r: Instruction)
        ensures
            r == r_format(bits),
    {
        let rd = register_field(bits, 7);
        let funct3 = (bits >> 12u32) & 0b111;
        let rs1 = register_field(bits, 15);
        let rs2 = register_field(bits, 20);
        let funct7 = bits >> 25u32;
        Instruction::RFormatInstruction { rd, funct3, rs1, rs2, funct7 }
    }

    fn parse_uformat(bits: u32) -> (r: Instruction)
        ensures
            r == u_format(bits),
    {
        let opcode = bits & 0b1111111;
        let rd = register_field(bits, 7);
        let imm: u32 = UImmediate::from_instruction(bits).into();
        proof {
            assert(imm >> 12u32 < 0x10_0000) by (bit_vector);
        }
        let imm = (imm >> 12u32) as i32;
        Instruction::UFormatInstruction { imm, rd, opcode }
    }

    fn parse_jformat(bits: u32) -> (r: Instruction)
        ensures
            r == j_format(bits),
    {
        let opcode = bits & 0b1111111;
        let rd = register_field(bits, 7);
        let imm: u32 = JImmediate::from_instruction(bits).into();
        let imm = to_signed(imm);
        Instruction::JFormatInstruction { imm, rd, opcode }
    }

    fn parse_bformat(bits: u32) -> (r: Instruction)
        ensures
            r == b_format(bits),
    {
        let rs1 = register_field(bits, 15);
        let rs2 = register_field(bits, 20);
        let funct3 = (bits >> 12u32) & 0b111;
        let imm: u32 = BImmediate::from_instruction(bits).into();
        let imm = to_signed(imm);
        Instruction::BFormatInstruction { imm, rs1, rs2, funct3 }
    }

    fn parse_sformat(bits: u32) -> (r: Instruction)
        ensures
            r == s_format(bits),
    {
        let rs1 = register_field(bits, 15);
        let rs2 = register_field(bits, 20);
        let funct3 = (bits >> 12u32) & 0b111;
        let imm: u32 = SImmediate::from_instruction(bits).into();
        let imm = to_signed(imm);
        Instruction::SFormatInstruction { imm, rs1, rs2, funct3 }
    }

}

} // verus!
