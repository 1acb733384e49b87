//! A one-pass assembler: each line holds one instruction, a mnemonic followed
//! by its operands; pseudo-instructions expand to base instructions and each
//! base instruction becomes one 32-bit word.
use vstd::prelude::*;
use crate::immediates::{
    b_field, fits_12, fits_b, fits_j, i_field, i_value, j_field, lemma_b_round_trip,
    lemma_j_round_trip, lemma_s_round_trip, lemma_u_round_trip, s_field, u_field, u_value,
    BImmediate, IImmediate, Immediate, JImmediate, SImmediate, UImmediate, S_BITS, U_BITS,
};
use crate::instruction::{
    decode, funct3_field, funct7_field, opcode_field, signed, word_of, Instruction, ADD, ADDI, AND,
    ANDI, AUIPC, BEQ, BGE, BGEU, BLT, BLTU, BNE, BRANCH, JAL, JALR, LB, LBU, LH, LHU, LOAD, LUI, LW,
    OP, OP_IMM, OR, ORI, SB, SH, SLL, SLLI, SLT, SLTI, SLTIU, SLTU, SRA, SRAI, SRL, SRLI, STORE, SUB,
    SW, XOR, XORI,
};
use crate::lexer::{
    eq_lit, i32_value, offset_and_base, parse_base_and_offset, parse_i32, parse_register, parse_u32,
    register_number, split_tokens, split_whitespace, strip_commas, token_views, trim_commas,
    u32_value,
};
use crate::math_utils::MixedIntegerOps;

verus! {

/// The kind of a base instruction, with the function code that the mnemonic
/// selects.
#[derive(Debug, Clone, Copy, PartialEq, Eq, Structural)]
pub enum BaseOp {
    /// Register-register operation; `funct` is `funct7 << 3 | funct3`.
    Op { funct: u32 },
    /// Register-immediate operation; `funct` is `funct7 << 3 | funct3`.
    OpImm { funct: u32 },
    Load { funct3: u32 },
    Store { funct3: u32 },
    Branch { funct3: u32 },
    /// LUI or AUIPC.
    Upper { opcode: u32 },
    Jal,
    Jalr,
}

/// A base instruction with its operands resolved: register numbers, and the
/// immediate as a 32-bit pattern (for LUI and AUIPC, the 20-bit payload).
/// Operands that the instruction does not have are zero.
#[derive(Debug, Clone, Copy, PartialEq, Eq, Structural)]
pub struct AsmInstruction {
    pub op: BaseOp,
    pub rd: u32,
    pub rs1: u32,
    pub rs2: u32,
    pub imm: u32,
}

/// What went wrong in a line.
#[derive(Debug, Clone, Copy, PartialEq, Eq, Structural)]
pub enum AsmErrorKind {
    /// The line holds no token.
    EmptyLine,
    UnknownMnemonic,
    UnknownRegister,
    /// An immediate that is no decimal integer, or does not fit.
    BadImmediate,
    /// A load or store address not of the form `offset(base)`.
    MalformedOperand,
    /// The mnemonic takes another number of operands.
    WrongOperandCount,
}

/// An assembler error, with the token it concerns (the mnemonic where the
/// operand count is wrong, the whole line where it is empty).
#[derive(Debug)]
pub struct AsmError {
    pub kind: AsmErrorKind,
    pub token: String,
}

/// An assembler error as a value: its kind and its token.
pub type AsmFault = (AsmErrorKind, Seq<char>);

impl View for AsmError {
    type V = AsmFault;

    open spec fn view(&self) -> AsmFault {
        (self.kind, self.token@)
    }
}

pub open spec fn fault_of<T>(r: Result<T, AsmError>) -> Result<T, AsmFault> {
    match r {
        Ok(v) => Ok(v),
        Err(e) => Err(e@),
    }
}

/// The base instruction that the mnemonic `m` names.
pub open spec fn base_op_of(m: Seq<char>) -> Option<BaseOp> {
    if m == "add"@ {
        Some(BaseOp::Op { funct: ADD })
    } else if m == "slt"@ {
        Some(BaseOp::Op { funct: SLT })
    } else if m == "sltu"@ {
        Some(BaseOp::Op { funct: SLTU })
    } else if m == "and"@ {
        Some(BaseOp::Op { funct: AND })
    } else if m == "or"@ {
        Some(BaseOp::Op { funct: OR })
    } else if m == "xor"@ {
        Some(BaseOp::Op { funct: XOR })
    } else if m == "sll"@ {
        Some(BaseOp::Op { funct: SLL })
    } else if m == "srl"@ {
        Some(BaseOp::Op { funct: SRL })
    } else if m == "sub"@ {
        Some(BaseOp::Op { funct: SUB })
    } else if m == "sra"@ {
        Some(BaseOp::Op { funct: SRA })
    } else if m == "addi"@ {
        Some(BaseOp::OpImm { funct: ADDI })
    } else if m == "slti"@ {
        Some(BaseOp::OpImm { funct: SLTI })
    } else if m == "sltiu"@ {
        Some(BaseOp::OpImm { funct: SLTIU })
    } else if m == "andi"@ {
        Some(BaseOp::OpImm { funct: ANDI })
    } else if m == "ori"@ {
        Some(BaseOp::OpImm { funct: ORI })
    } else if m == "xori"@ {
        Some(BaseOp::OpImm { funct: XORI })
    } else if m == "slli"@ {
        Some(BaseOp::OpImm { funct: SLLI })
    } else if m == "srli"@ {
        Some(BaseOp::OpImm { funct: SRLI })
    } else if m == "srai"@ {
        Some(BaseOp::OpImm { funct: SRAI })
    } else if m == "jalr"@ {
        Some(BaseOp::Jalr)
    } else if m == "lw"@ {
        Some(BaseOp::Load { funct3: LW })
    } else if m == "lh"@ {
        Some(BaseOp::Load { funct3: LH })
    } else if m == "lhu"@ {
        Some(BaseOp::Load { funct3: LHU })
    } else if m == "lb"@ {
        Some(BaseOp::Load { funct3: LB })
    } else if m == "lbu"@ {
        Some(BaseOp::Load { funct3: LBU })
    } else if m == "lui"@ {
        Some(BaseOp::Upper { opcode: LUI })
    } else if m == "auipc"@ {
        Some(BaseOp::Upper { opcode: AUIPC })
    } else if m == "jal"@ {
        Some(BaseOp::Jal)
    } else if m == "beq"@ {
        Some(BaseOp::Branch { funct3: BEQ })
    } else if m == "bne"@ {
        Some(BaseOp::Branch { funct3: BNE })
    } else if m == "blt"@ {
        Some(BaseOp::Branch { funct3: BLT })
    } else if m == "bltu"@ {
        Some(BaseOp::Branch { funct3: BLTU })
    } else if m == "bge"@ {
        Some(BaseOp::Branch { funct3: BGE })
    } else if m == "bgeu"@ {
        Some(BaseOp::Branch { funct3: BGEU })
    } else if m == "sw"@ {
        Some(BaseOp::Store { funct3: SW })
    } else if m == "sh"@ {
        Some(BaseOp::Store { funct3: SH })
    } else if m == "sb"@ {
        Some(BaseOp::Store { funct3: SB })
    } else {
        None
    }
}

pub open spec fn base_instr(op: BaseOp, rd: u32, rs1: u32, rs2: u32, imm: u32) -> AsmInstruction {
    AsmInstruction { op, rd, rs1, rs2, imm }
}

pub open spec fn reg_operand(t: Seq<char>) -> Result<u32, AsmFault> {
    match register_number(t) {
        Some(n) => Ok(n),
        None => Err((AsmErrorKind::UnknownRegister, t)),
    }
}

/// A signed immediate, as its 32-bit pattern.
pub open spec fn imm_operand(t: Seq<char>) -> Result<u32, AsmFault> {
    match i32_value(t) {
        Some(v) => Ok(word_of(v)),
        None => Err((AsmErrorKind::BadImmediate, t)),
    }
}

/// An unsigned immediate.
pub open spec fn upper_operand(t: Seq<char>) -> Result<u32, AsmFault> {
    match u32_value(t) {
        Some(v) => Ok(v),
        None => Err((AsmErrorKind::BadImmediate, t)),
    }
}

/// Both operands, or the first error among them.
pub open spec fn both(a: Result<u32, AsmFault>, b: Result<u32, AsmFault>) -> Result<(u32, u32), AsmFault> {
    match (a, b) {
        (Err(e), _) => Err(e),
        (Ok(_), Err(e)) => Err(e),
        (Ok(x), Ok(y)) => Ok((x, y)),
    }
}

/// All three operands, or the first error among them.
pub open spec fn all_three(a: Result<u32, AsmFault>, b: Result<u32, AsmFault>, c: Result<u32, AsmFault>) -> Result<(u32, u32, u32), AsmFault> {
    match (a, b, c) {
        (Err(e), _, _) => Err(e),
        (Ok(_), Err(e), _) => Err(e),
        (Ok(_), Ok(_), Err(e)) => Err(e),
        (Ok(x), Ok(y), Ok(z)) => Ok((x, y, z)),
    }
}

/// The number of operands that each kind of base instruction takes.
pub open spec fn operand_count(op: BaseOp) -> nat {
    match op {
        BaseOp::Load { .. } | BaseOp::Store { .. } | BaseOp::Upper { .. } | BaseOp::Jal => 2,
        _ => 3,
    }
}

/// The operands `ops` of the base instruction `op` (mnemonic `m`), resolved.
pub open spec fn resolve_operands(m: Seq<char>, op: BaseOp, ops: Seq<Seq<char>>) -> Result<AsmInstruction, AsmFault> {
    if ops.len() != operand_count(op) {
        Err((AsmErrorKind::WrongOperandCount, m))
    } else {
        match op {
            BaseOp::Op { .. } => match all_three(reg_operand(ops[0]), reg_operand(ops[1]), reg_operand(ops[2])) {
                Ok((rd, rs1, rs2)) => Ok(base_instr(op, rd, rs1, rs2, 0)),
                Err(e) => Err(e),
            },
            BaseOp::OpImm { .. } | BaseOp::Jalr => match all_three(reg_operand(ops[0]), reg_operand(ops[1]), imm_operand(ops[2])) {
                Ok((rd, rs1, imm)) => Ok(base_instr(op, rd, rs1, 0, imm)),
                Err(e) => Err(e),
            },
            BaseOp::Branch { .. } => match all_three(reg_operand(ops[0]), reg_operand(ops[1]), imm_operand(ops[2])) {
                Ok((rs1, rs2, imm)) => Ok(base_instr(op, 0, rs1, rs2, imm)),
                Err(e) => Err(e),
            },
            BaseOp::Load { .. } | BaseOp::Store { .. } => match reg_operand(ops[0]) {
                Err(e) => Err(e),
                Ok(r) => match offset_and_base(ops[1]) {
                    None => Err((AsmErrorKind::MalformedOperand, ops[1])),
                    Some((offset, base)) => match both(reg_operand(base), imm_operand(offset)) {
                        Err(e) => Err(e),
                        Ok((rs1, imm)) => if op is Load {
                            Ok(base_instr(op, r, rs1, 0, imm))
                        } else {
                            Ok(base_instr(op, 0, rs1, r, imm))
                        },
                    },
                },
            },
            BaseOp::Upper { .. } => match both(reg_operand(ops[0]), upper_operand(ops[1])) {
                Ok((rd, imm)) => Ok(base_instr(op, rd, 0, 0, imm)),
                Err(e) => Err(e),
            },
            BaseOp::Jal => match both(reg_operand(ops[0]), imm_operand(ops[1])) {
                Ok((rd, imm)) => Ok(base_instr(op, rd, 0, 0, imm)),
                Err(e) => Err(e),
            },
        }
    }
}

/// The word that encodes `ai`: its fields OR-ed together.
pub open spec fn encode(ai: AsmInstruction) -> u32 {
    let rd = ai.rd << 7u32;
    let rs1 = ai.rs1 << 15u32;
    let rs2 = ai.rs2 << 20u32;
    match ai.op {
        BaseOp::Op { funct } => OP | rd | ((funct & 7) << 12u32) | rs1 | rs2 | ((funct >> 3u32) << 25u32),
        BaseOp::OpImm { funct } => OP_IMM | rd | ((funct & 7) << 12u32) | rs1 | i_field(ai.imm) | ((funct
            >> 3u32) << 25u32),
        BaseOp::Jalr => JALR | rd | rs1 | i_field(ai.imm),
        BaseOp::Load { funct3 } => LOAD | rd | (funct3 << 12u32) | rs1 | i_field(ai.imm),
        BaseOp::Store { funct3 } => STORE | s_field(ai.imm) | (funct3 << 12u32) | rs1 | rs2,
        BaseOp::Branch { funct3 } => BRANCH | b_field(ai.imm) | (funct3 << 12u32) | rs1 | rs2,
        BaseOp::Upper { opcode } => opcode | rd | u_field(ai.imm << 12u32),
        BaseOp::Jal => JAL | rd | j_field(ai.imm),
    }
}

/// The operand tokens of a tokenised line, trailing commas stripped.
pub open spec fn operands_of(tokens: Seq<Seq<char>>) -> Seq<Seq<char>> {
    tokens.drop_first().map_values(|t: Seq<char>| strip_commas(t))
}

/// The word for the base instruction with mnemonic `m` and operands `ops`.
pub open spec fn assemble_base(m: Seq<char>, ops: Seq<Seq<char>>) -> Result<u32, AsmFault> {
    match base_op_of(m) {
        None => Err((AsmErrorKind::UnknownMnemonic, m)),
        Some(op) => match resolve_operands(m, op, ops) {
            Ok(ai) => Ok(encode(ai)),
            Err(e) => Err(e),
        },
    }
}

/// The word for a line that holds one base instruction.
pub open spec fn line_word(s: Seq<char>) -> Result<u32, AsmFault> {
    let tokens = split_tokens(s);
    if tokens.len() == 0 {
        Err((AsmErrorKind::EmptyLine, s))
    } else {
        assemble_base(tokens[0], operands_of(tokens))
    }
}



pub open spec fn count_fault<T>(m: Seq<char>) -> Result<T, AsmFault> {
    Err((AsmErrorKind::WrongOperandCount, m))
}

/// Operands `rd, rs` of a pseudo-instruction.
pub open spec fn two_regs(m: Seq<char>, ops: Seq<Seq<char>>) -> Result<(u32, u32), AsmFault> {
    if ops.len() != 2 {
        count_fault(m)
    } else {
        both(reg_operand(ops[0]), reg_operand(ops[1]))
    }
}

/// Operands `r, imm` of a pseudo-instruction.
pub open spec fn reg_imm(m: Seq<char>, ops: Seq<Seq<char>>) -> Result<(u32, u32), AsmFault> {
    if ops.len() != 2 {
        count_fault(m)
    } else {
        both(reg_operand(ops[0]), imm_operand(ops[1]))
    }
}

/// Operands `rs, rt, offset` of a pseudo-instruction.
pub open spec fn regs_imm(m: Seq<char>, ops: Seq<Seq<char>>) -> Result<(u32, u32, u32), AsmFault> {
    if ops.len() != 3 {
        count_fault(m)
    } else {
        all_three(reg_operand(ops[0]), reg_operand(ops[1]), imm_operand(ops[2]))
    }
}

/// The lone operand `offset` of a pseudo-instruction; `upper` for an
/// unsigned one.
pub open spec fn one_imm(m: Seq<char>, ops: Seq<Seq<char>>, upper: bool) -> Result<u32, AsmFault> {
    if ops.len() != 1 {
        count_fault(m)
    } else if upper {
        upper_operand(ops[0])
    } else {
        imm_operand(ops[0])
    }
}

/// A pseudo-instruction without operands.
pub open spec fn no_operands(m: Seq<char>, ops: Seq<Seq<char>>, ai: AsmInstruction) -> Result<Seq<AsmInstruction>, AsmFault> {
    if ops.len() != 0 {
        count_fault(m)
    } else {
        Ok(seq![ai])
    }
}

pub open spec fn from_two_regs(r: Result<(u32, u32), AsmFault>, op: BaseOp, rd_first: bool, imm: u32) -> Result<Seq<AsmInstruction>, AsmFault> {
    match r {
        Err(e) => Err(e),
        Ok((rd, rs)) => Ok(seq![if rd_first {
            base_instr(op, rd, rs, 0, imm)
        } else {
            base_instr(op, rd, 0, rs, imm)
        }]),
    }
}

/// The base instructions that the pseudo-instruction `m` with operands `ops`
/// stands for; `None` where `m` names no pseudo-instruction.
pub open spec fn expand_pseudo(m: Seq<char>, ops: Seq<Seq<char>>) -> Option<Result<Seq<AsmInstruction>, AsmFault>> {
    if m == "nop"@ {
        Some(no_operands(m, ops, base_instr(BaseOp::OpImm { funct: ADDI }, 0, 0, 0, 0)))
    } else if m == "li"@ {
        Some(
            match reg_imm(m, ops) {
                Err(e) => Err(e),
                Ok((rd, imm)) => Ok(seq![base_instr(BaseOp::OpImm { funct: ADDI }, rd, 0, 0, imm)]),
            },
        )
    } else if m == "mv"@ {
        Some(from_two_regs(two_regs(m, ops), BaseOp::OpImm { funct: ADDI }, true, 0))
    } else if m == "not"@ {
        Some(from_two_regs(two_regs(m, ops), BaseOp::OpImm { funct: XORI }, true, 0xFFFF_FFFF))
    } else if m == "neg"@ {
        Some(from_two_regs(two_regs(m, ops), BaseOp::Op { funct: SUB }, false, 0))
    } else if m == "seqz"@ {
        Some(from_two_regs(two_regs(m, ops), BaseOp::OpImm { funct: SLTIU }, true, 1))
    } else if m == "snez"@ {
        Some(from_two_regs(two_regs(m, ops), BaseOp::Op { funct: SLTU }, false, 0))
    } else if m == "sltz"@ {
        Some(from_two_regs(two_regs(m, ops), BaseOp::Op { funct: SLT }, true, 0))
    } else if m == "sgtz"@ {
        Some(from_two_regs(two_regs(m, ops), BaseOp::Op { funct: SLT }, false, 0))
    } else if m == "beqz"@ || m == "bnez"@ {
        let funct3 = if m == "beqz"@ { BEQ } else { BNE };
        Some(
            match reg_imm(m, ops) {
                Err(e) => Err(e),
                Ok((rs, offset)) => Ok(seq![base_instr(BaseOp::Branch { funct3 }, 0, rs, 0, offset)]),
            },
        )
    } else if m == "bgt"@ || m == "ble"@ {
        let funct3 = if m == "bgt"@ { BLT } else { BGE };
        Some(
            match regs_imm(m, ops) {
                Err(e) => Err(e),
                Ok((rs, rt, offset)) => Ok(seq![base_instr(BaseOp::Branch { funct3 }, 0, rt, rs, offset)]),
            },
        )
    } else if m == "j"@ {
        Some(
            match one_imm(m, ops, false) {
                Err(e) => Err(e),
                Ok(offset) => Ok(seq![base_instr(BaseOp::Jal, 0, 0, 0, offset)]),
            },
        )
    } else if m == "ret"@ {
        Some(no_operands(m, ops, base_instr(BaseOp::Jalr, 0, 1, 0, 0)))
    } else if m == "call"@ {
        Some(
            match one_imm(m, ops, true) {
                Err(e) => Err(e),
                Ok(offset) => Ok(
                    seq![
                        base_instr(BaseOp::Upper { opcode: AUIPC }, 6, 0, 0, offset >> 12u32),
                        base_instr(BaseOp::Jalr, 1, 6, 0, offset & 0xFFF),
                    ],
                ),
            },
        )
    } else {
        None
    }
}

/// The words for one line: the expansion of a pseudo-instruction, or the one
/// word of a base instruction.
pub open spec fn line_words(s: Seq<char>) -> Result<Seq<u32>, AsmFault> {
    let tokens = split_tokens(s);
    if tokens.len() == 0 {
        Err((AsmErrorKind::EmptyLine, s))
    } else {
        let m = tokens[0];
        let ops = operands_of(tokens);
        match expand_pseudo(m, ops) {
            Some(Ok(instrs)) => Ok(instrs.map_values(|ai: AsmInstruction| encode(ai))),
            Some(Err(e)) => Err(e),
            None => match assemble_base(m, ops) {
                Ok(w) => Ok(seq![w]),
                Err(e) => Err(e),
            },
        }
    }
}

/// The words for `lines`, in order; the first error among the lines where
/// there is one.
pub open spec fn assemble(lines: Seq<Seq<char>>) -> Result<Seq<u32>, AsmFault>
    decreases lines.len(),
{
    if lines.len() == 0 {
        Ok(Seq::empty())
    } else {
        match assemble(lines.drop_last()) {
            Err(e) => Err(e),
            Ok(words) => match line_words(lines.last()) {
                Err(e) => Err(e),
                Ok(more) => Ok(words + more),
            },
        }
    }
}

pub open spec fn line_views(lines: Seq<String>) -> Seq<Seq<char>> {
    lines.map_values(|l: String| l@)
}

/// An error in the first `k` lines is the error of all of them.
proof fn lemma_assemble_error_stays(lines: Seq<Seq<char>>, k: int)
    requires
        0 <= k <= lines.len(),
        assemble(lines.subrange(0, k)) is Err,
    ensures
        assemble(lines) == assemble(lines.subrange(0, k)),
    decreases lines.len() - k,
{
    if k < lines.len() {
        let next = lines.subrange(0, k + 1);
        assert(next.drop_last() =~= lines.subrange(0, k));
        lemma_assemble_error_stays(lines, k + 1);
    } else {
        assert(lines.subrange(0, k) =~= lines);
    }
}


/// Base instructions whose function codes and immediates the encoding holds
/// without loss: register numbers below 32, immediates in the range of their
/// format, and shift amounts below 32.
pub open spec fn encodable(ai: AsmInstruction) -> bool {
    &&& ai.rd < 32
    &&& ai.rs1 < 32
    &&& ai.rs2 < 32
    &&& match ai.op {
        BaseOp::Op { funct } => funct < 1024,
        BaseOp::OpImm { funct } => (funct < 8 && fits_12(ai.imm)) || (funct == SRAI && ai.imm < 32),
        BaseOp::Jalr => fits_12(ai.imm),
        BaseOp::Load { funct3 } => funct3 < 8 && fits_12(ai.imm),
        BaseOp::Store { funct3 } => funct3 < 8 && fits_12(ai.imm),
        BaseOp::Branch { funct3 } => funct3 < 8 && fits_b(ai.imm),
        BaseOp::Upper { opcode } => (opcode == LUI || opcode == AUIPC) && ai.imm < 0x10_0000,
        BaseOp::Jal => fits_j(ai.imm),
    }
}

/// The instruction that decoding the word of `ai` should give: the same
/// registers and function codes, the immediate as its signed value (for a
/// shift by immediate, with the upper function bits above the shift amount;
/// for LUI and AUIPC, the 20-bit payload).
pub open spec fn decoded_form(ai: AsmInstruction) -> Instruction {
    let rd = ai.rd as usize;
    let rs1 = ai.rs1 as usize;
    let rs2 = ai.rs2 as usize;
    match ai.op {
        BaseOp::Op { funct } => Instruction::RFormatInstruction {
            rd,
            funct3: funct & 7,
            rs1,
            rs2,
            funct7: funct >> 3u32,
        },
        BaseOp::OpImm { funct } => Instruction::IFormatInstruction {
            imm: (signed(ai.imm) + 32 * (funct >> 3u32)) as i16,
            rs1,
            funct3: funct & 7,
            rd,
            opcode: OP_IMM,
        },
        BaseOp::Jalr => Instruction::IFormatInstruction {
            imm: signed(ai.imm) as i16,
            rs1,
            funct3: 0,
            rd,
            opcode: JALR,
        },
        BaseOp::Load { funct3 } => Instruction::IFormatInstruction {
            imm: signed(ai.imm) as i16,
            rs1,
            funct3,
            rd,
            opcode: LOAD,
        },
        BaseOp::Store { funct3 } => Instruction::SFormatInstruction {
            imm: signed(ai.imm) as i32,
            rs1,
            rs2,
            funct3,
        },
        BaseOp::Branch { funct3 } => Instruction::BFormatInstruction {
            imm: signed(ai.imm) as i32,
            rs1,
            rs2,
            funct3,
        },
        BaseOp::Upper { opcode } => Instruction::UFormatInstruction { imm: ai.imm as i32, rd, opcode },
        BaseOp::Jal => Instruction::JFormatInstruction { imm: signed(ai.imm) as i32, rd, opcode: JAL },
    }
}

proof fn lemma_i_word(opcode: u32, rd: u32, funct3: u32, rs1: u32, imm: u32, funct7: u32)
    requires
        opcode < 128,
        rd < 32,
        funct3 < 8,
        rs1 < 32,
        (funct7 == 0 && fits_12(imm)) || (funct7 == 0x20 && imm < 32),
    ensures
        ({
            let w = opcode | (rd << 7u32) | (funct3 << 12u32) | (rs1 << 15u32) | i_field(imm) | (funct7
                << 25u32);
            &&& opcode_field(w) == opcode
            &&& (w >> 7u32) & 0x1F == rd
            &&& funct3_field(w) == funct3
            &&& (w >> 15u32) & 0x1F == rs1
            &&& i_value(w) == if funct7 == 0 {
                imm
            } else {
                (imm + 0x400) as u32
            }
        }),
{
    assert({
        let w = opcode | (rd << 7u32) | (funct3 << 12u32) | (rs1 << 15u32) | i_field(imm) | (funct7
            << 25u32);
        &&& w & 0x7F == opcode
        &&& (w >> 7u32) & 0x1F == rd
        &&& (w >> 12u32) & 7 == funct3
        &&& (w >> 15u32) & 0x1F == rs1
        &&& i_value(w) == if funct7 == 0 {
            imm
        } else {
            (imm + 0x400) as u32
        }
    }) by (bit_vector)
        requires
            opcode < 128,
            rd < 32,
            funct3 < 8,
            rs1 < 32,
            (funct7 == 0 && (imm < 0x800 || imm >= 0xFFFF_F800)) || (funct7 == 0x20 && imm < 32),
    ;
}

proof fn lemma_r_word(rd: u32, rs1: u32, rs2: u32, funct: u32)
    requires
        rd < 32,
        rs1 < 32,
        rs2 < 32,
        funct < 1024,
    ensures
        ({
            let w = OP | (rd << 7u32) | ((funct & 7) << 12u32) | (rs1 << 15u32) | (rs2 << 20u32) | ((
            funct >> 3u32) << 25u32);
            &&& opcode_field(w) == OP
            &&& (w >> 7u32) & 0x1F == rd
            &&& funct3_field(w) == funct & 7
            &&& (w >> 15u32) & 0x1F == rs1
            &&& (w >> 20u32) & 0x1F == rs2
            &&& funct7_field(w) == funct >> 3u32
        }),
{
    assert({
        let w = 0b0110011u32 | (rd << 7u32) | ((funct & 7) << 12u32) | (rs1 << 15u32) | (rs2 << 20u32)
            | ((funct >> 3u32) << 25u32);
        &&& w & 0x7F == 0b0110011u32
        &&& (w >> 7u32) & 0x1F == rd
        &&& (w >> 12u32) & 7 == funct & 7
        &&& (w >> 15u32) & 0x1F == rs1
        &&& (w >> 20u32) & 0x1F == rs2
        &&& w >> 25u32 == funct >> 3u32
    }) by (bit_vector)
        requires
            rd < 32,
            rs1 < 32,
            rs2 < 32,
            funct < 1024,
    ;
}

proof fn lemma_sb_word(opcode: u32, field: u32, funct3: u32, rs1: u32, rs2: u32)
    requires
        opcode < 128,
        funct3 < 8,
        rs1 < 32,
        rs2 < 32,
        field & !S_BITS == 0,
    ensures
        ({
            let w = opcode | field | (funct3 << 12u32) | (rs1 << 15u32) | (rs2 << 20u32);
            let other = opcode | (funct3 << 12u32) | (rs1 << 15u32) | (rs2 << 20u32);
            &&& opcode_field(w) == opcode
            &&& funct3_field(w) == funct3
            &&& (w >> 15u32) & 0x1F == rs1
            &&& (w >> 20u32) & 0x1F == rs2
            &&& w == field | other
            &&& other & S_BITS == 0
        }),
{
    assert({
        let w = opcode | field | (funct3 << 12u32) | (rs1 << 15u32) | (rs2 << 20u32);
        let other = opcode | (funct3 << 12u32) | (rs1 << 15u32) | (rs2 << 20u32);
        &&& w & 0x7F == opcode
        &&& (w >> 12u32) & 7 == funct3
        &&& (w >> 15u32) & 0x1F == rs1
        &&& (w >> 20u32) & 0x1F == rs2
        &&& w == field | other
        &&& other & 0xFE00_0F80 == 0
    }) by (bit_vector)
        requires
            opcode < 128,
            funct3 < 8,
            rs1 < 32,
            rs2 < 32,
            field & !0xFE00_0F80u32 == 0,
    ;
}

proof fn lemma_uj_word(opcode: u32, rd: u32, field: u32)
    requires
        opcode < 128,
        rd < 32,
        field & !U_BITS == 0,
    ensures
        ({
            let w = opcode | (rd << 7u32) | field;
            &&& opcode_field(w) == opcode
            &&& (w >> 7u32) & 0x1F == rd
            &&& w == field | (opcode | (rd << 7u32))
            &&& (opcode | (rd << 7u32)) & U_BITS == 0
        }),
{
    assert({
        let w = opcode | (rd << 7u32) | field;
        &&& w & 0x7F == opcode
        &&& (w >> 7u32) & 0x1F == rd
        &&& w == field | (opcode | (rd << 7u32))
        &&& (opcode | (rd << 7u32)) & 0xFFFF_F000 == 0
    }) by (bit_vector)
        requires
            opcode < 128,
            rd < 32,
            field & !0xFFFF_F000u32 == 0,
    ;
}

proof fn lemma_fields_in_place(v: u32)
    ensures
        s_field(v) & !S_BITS == 0,
        b_field(v) & !S_BITS == 0,
        j_field(v) & !U_BITS == 0,
        u_field(v << 12u32) & !U_BITS == 0,
        (v << 12u32) & 0xFFF == 0,
        v < 0x10_0000 ==> (v << 12u32) >> 12u32 == v,
{
    assert(s_field(v) & !0xFE00_0F80u32 == 0) by (bit_vector);
    assert(b_field(v) & !0xFE00_0F80u32 == 0) by (bit_vector);
    assert(j_field(v) & !0xFFFF_F000u32 == 0) by (bit_vector);
    assert(u_field(v << 12u32) & !0xFFFF_F000u32 == 0) by (bit_vector);
    assert((v << 12u32) & 0xFFF == 0) by (bit_vector);
    assert(v < 0x10_0000 ==> (v << 12u32) >> 12u32 == v) by (bit_vector);
}

/// Decoding the word of an assembled base instruction gives back its
/// opcode, function codes, registers and immediate (in the form that the
/// decoded instruction keeps it).
pub proof fn lemma_decode_assembled(ai: AsmInstruction)
    requires
        encodable(ai),
    ensures
        decode(encode(ai)) == Some(decoded_form(ai)),
{
    let w = encode(ai);
    lemma_fields_in_place(ai.imm);
    match ai.op {
        BaseOp::Op { funct } => {
            lemma_r_word(ai.rd, ai.rs1, ai.rs2, funct);
        },
        BaseOp::OpImm { funct } => {
            let funct7 = funct >> 3u32;
            assert(funct < 8 ==> funct >> 3u32 == 0 && funct & 7 == funct) by (bit_vector);
            assert(funct == 0b0100000101u32 ==> funct >> 3u32 == 0x20 && funct & 7 == 5) by (
            bit_vector);
            lemma_i_word(OP_IMM, ai.rd, funct & 7, ai.rs1, ai.imm, funct7);
        },
        BaseOp::Jalr => {
            let (rd, rs1, imm) = (ai.rd, ai.rs1, ai.imm);
            assert(JALR | (rd << 7u32) | (rs1 << 15u32) | i_field(imm) == JALR | (rd << 7u32) | (0u32
                << 12u32) | (rs1 << 15u32) | i_field(imm) | (0u32 << 25u32)) by (bit_vector);
            lemma_i_word(JALR, ai.rd, 0, ai.rs1, ai.imm, 0);
        },
        BaseOp::Load { funct3 } => {
            let (rd, rs1, imm) = (ai.rd, ai.rs1, ai.imm);
            assert(LOAD | (rd << 7u32) | (funct3 << 12u32) | (rs1 << 15u32) | i_field(imm) == LOAD | (rd
                << 7u32) | (funct3 << 12u32) | (rs1 << 15u32) | i_field(imm) | (0u32 << 25u32)) by (
            bit_vector);
            lemma_i_word(LOAD, ai.rd, funct3, ai.rs1, ai.imm, 0);
        },
        BaseOp::Store { funct3 } => {
            lemma_sb_word(STORE, s_field(ai.imm), funct3, ai.rs1, ai.rs2);
            lemma_s_round_trip(ai.imm, STORE | (funct3 << 12u32) | (ai.rs1 << 15u32) | (ai.rs2 << 20u32));
        },
        BaseOp::Branch { funct3 } => {
            lemma_sb_word(BRANCH, b_field(ai.imm), funct3, ai.rs1, ai.rs2);
            lemma_b_round_trip(ai.imm, BRANCH | (funct3 << 12u32) | (ai.rs1 << 15u32) | (ai.rs2 << 20u32));
        },
        BaseOp::Upper { opcode } => {
            lemma_uj_word(opcode, ai.rd, u_field(ai.imm << 12u32));
            lemma_u_round_trip(ai.imm << 12u32, opcode | (ai.rd << 7u32));
        },
        BaseOp::Jal => {
            lemma_uj_word(JAL, ai.rd, j_field(ai.imm));
            lemma_j_round_trip(ai.imm, JAL | (ai.rd << 7u32));
        },
    }
}

/// A `jal` assembled with an even offset `k` in `[-2^20, 2^20)` decodes to a
/// jump by exactly `k`.
pub proof fn lemma_jal_offset(rd: u32, k: i32)
    requires
        rd < 32,
        k % 2 == 0,
        -0x10_0000 <= k < 0x10_0000,
    ensures
        decode(encode(base_instr(BaseOp::Jal, rd, 0, 0, word_of(k)))) == Some(
            Instruction::JFormatInstruction { imm: k, rd: rd as usize, opcode: JAL },
        ),
{
    let v = word_of(k);
    assert(v % 2 == 0);
    assert(v % 2 == 0 ==> v & 1 == 0) by (bit_vector);
    assert(signed(v) == k);
    lemma_decode_assembled(base_instr(BaseOp::Jal, rd, 0, 0, v));
}

/// The base instruction that the mnemonic `m` names.
fn base_op(m: &str) -> (r: Option<BaseOp>)
    ensures
        r == base_op_of(m@),
{
    if eq_lit(m, "add") {
        Some(BaseOp::Op { funct: ADD })
    } else if eq_lit(m, "slt") {
        Some(BaseOp::Op { funct: SLT })
    } else if eq_lit(m, "sltu") {
        Some(BaseOp::Op { funct: SLTU })
    } else if eq_lit(m, "and") {
        Some(BaseOp::Op { funct: AND })
    } else if eq_lit(m, "or") {
        Some(BaseOp::Op { funct: OR })
    } else if eq_lit(m, "xor") {
        Some(BaseOp::Op { funct: XOR })
    } else if eq_lit(m, "sll") {
        Some(BaseOp::Op { funct: SLL })
    } else if eq_lit(m, "srl") {
        Some(BaseOp::Op { funct: SRL })
    } else if eq_lit(m, "sub") {
        Some(BaseOp::Op { funct: SUB })
    } else if eq_lit(m, "sra") {
        Some(BaseOp::Op { funct: SRA })
    } else if eq_lit(m, "addi") {
        Some(BaseOp::OpImm { funct: ADDI })
    } else if eq_lit(m, "slti") {
        Some(BaseOp::OpImm { funct: SLTI })
    } else if eq_lit(m, "sltiu") {
        Some(BaseOp::OpImm { funct: SLTIU })
    } else if eq_lit(m, "andi") {
        Some(BaseOp::OpImm { funct: ANDI })
    } else if eq_lit(m, "ori") {
        Some(BaseOp::OpImm { funct: ORI })
    } else if eq_lit(m, "xori") {
        Some(BaseOp::OpImm { funct: XORI })
    } else if eq_lit(m, "slli") {
        Some(BaseOp::OpImm { funct: SLLI })
    } else if eq_lit(m, "srli") {
        Some(BaseOp::OpImm { funct: SRLI })
    } else if eq_lit(m, "srai") {
        Some(BaseOp::OpImm { funct: SRAI })
    } else if eq_lit(m, "jalr") {
        Some(BaseOp::Jalr)
    } else if eq_lit(m, "lw") {
        Some(BaseOp::Load { funct3: LW })
    } else if eq_lit(m, "lh") {
        Some(BaseOp::Load { funct3: LH })
    } else if eq_lit(m, "lhu") {
        Some(BaseOp::Load { funct3: LHU })
    } else if eq_lit(m, "lb") {
        Some(BaseOp::Load { funct3: LB })
    } else if eq_lit(m, "lbu") {
        Some(BaseOp::Load { funct3: LBU })
    } else if eq_lit(m, "lui") {
        Some(BaseOp::Upper { opcode: LUI })
    } else if eq_lit(m, "auipc") {
        Some(BaseOp::Upper { opcode: AUIPC })
    } else if eq_lit(m, "jal") {
        Some(BaseOp::Jal)
    } else if eq_lit(m, "beq") {
        Some(BaseOp::Branch { funct3: BEQ })
    } else if eq_lit(m, "bne") {
        Some(BaseOp::Branch { funct3: BNE })
    } else if eq_lit(m, "blt") {
        Some(BaseOp::Branch { funct3: BLT })
    } else if eq_lit(m, "bltu") {
        Some(BaseOp::Branch { funct3: BLTU })
    } else if eq_lit(m, "bge") {
        Some(BaseOp::Branch { funct3: BGE })
    } else if eq_lit(m, "bgeu") {
        Some(BaseOp::Branch { funct3: BGEU })
    } else if eq_lit(m, "sw") {
        Some(BaseOp::Store { funct3: SW })
    } else if eq_lit(m, "sh") {
        Some(BaseOp::Store { funct3: SH })
    } else if eq_lit(m, "sb") {
        Some(BaseOp::Store { funct3: SB })
    } else {
        None
    }
}

fn fault(kind: AsmErrorKind, t: &str) -> (r: AsmError)
    ensures
        r@ == (kind, t@),
{
    AsmError { kind, token: t.to_owned() }
}

fn reg_operand_of(t: &str) -> (r: Result<u32, AsmError>)
    ensures
        fault_of(r) == reg_operand(t@),
{
    match parse_register(t) {
        Some(n) => Ok(n),
        None => Err(fault(AsmErrorKind::UnknownRegister, t)),
    }
}

fn imm_operand_of(t: &str) -> (r: Result<u32, AsmError>)
    ensures
        fault_of(r) == imm_operand(t@),
{
    match parse_i32(t) {
        Some(v) => Ok(MixedIntegerOps::wrapping_add_signed(0u32, v)),
        None => Err(fault(AsmErrorKind::BadImmediate, t)),
    }
}

fn upper_operand_of(t: &str) -> (r: Result<u32, AsmError>)
    ensures
        fault_of(r) == upper_operand(t@),
{
    match parse_u32(t) {
        Some(v) => Ok(v),
        None => Err(fault(AsmErrorKind::BadImmediate, t)),
    }
}

/// Resolves the operands `ops` of the base instruction `op`, whose mnemonic
/// is `m`.
fn parse_operands(m: &str, op: BaseOp, ops: &Vec<&str>) -> (r: Result<AsmInstruction, AsmError>)
    ensures
        fault_of(r) == resolve_operands(m@, op, token_views(ops@)),
{
    let ghost views = token_views(ops@);
    let count: usize = match op {
        BaseOp::Load { .. } | BaseOp::Store { .. } | BaseOp::Upper { .. } | BaseOp::Jal => 2,
        _ => 3,
    };
    if ops.len() != count {
        return Err(fault(AsmErrorKind::WrongOperandCount, m));
    }
    assert(views[0] == ops@[0]@ && views[1] == ops@[1]@);
    match op {
        BaseOp::Op { .. } | BaseOp::OpImm { .. } | BaseOp::Jalr | BaseOp::Branch { .. } => {
            assert(views[2] == ops@[2]@);
            let first = match reg_operand_of(ops[0]) {
                Ok(v) => v,
                Err(e) => return Err(e),
            };
            let second = match reg_operand_of(ops[1]) {
                Ok(v) => v,
                Err(e) => return Err(e),
            };
            match op {
                BaseOp::Op { .. } => {
                    let rs2 = match reg_operand_of(ops[2]) {
                        Ok(v) => v,
                        Err(e) => return Err(e),
                    };
                    Ok(AsmInstruction { op, rd: first, rs1: second, rs2, imm: 0 })
                },
                BaseOp::Branch { .. } => {
                    let imm = match imm_operand_of(ops[2]) {
                        Ok(v) => v,
                        Err(e) => return Err(e),
                    };
                    Ok(AsmInstruction { op, rd: 0, rs1: first, rs2: second, imm })
                },
                _ => {
                    let imm = match imm_operand_of(ops[2]) {
                        Ok(v) => v,
                        Err(e) => return Err(e),
                    };
                    Ok(AsmInstruction { op, rd: first, rs1: second, rs2: 0, imm })
                },
            }
        },
        BaseOp::Load { .. } | BaseOp::Store { .. } => {
            let r = match reg_operand_of(ops[0]) {
                Ok(v) => v,
                Err(e) => return Err(e),
            };
            let (offset, base) = match parse_base_and_offset(ops[1]) {
                Some(parts) => parts,
                None => return Err(fault(AsmErrorKind::MalformedOperand, ops[1])),
            };
            let rs1 = match reg_operand_of(base) {
                Ok(v) => v,
                Err(e) => return Err(e),
            };
            let imm = match imm_operand_of(offset) {
                Ok(v) => v,
                Err(e) => return Err(e),
            };
            if matches!(op, BaseOp::Load { .. }) {
                Ok(AsmInstruction { op, rd: r, rs1, rs2: 0, imm })
            } else {
                Ok(AsmInstruction { op, rd: 0, rs1, rs2: r, imm })
            }
        },
        BaseOp::Upper { .. } => {
            let rd = match reg_operand_of(ops[0]) {
                Ok(v) => v,
                Err(e) => return Err(e),
            };
            let imm = match upper_operand_of(ops[1]) {
                Ok(v) => v,
                Err(e) => return Err(e),
            };
            Ok(AsmInstruction { op, rd, rs1: 0, rs2: 0, imm })
        },
        BaseOp::Jal => {
            let rd = match reg_operand_of(ops[0]) {
                Ok(v) => v,
                Err(e) => return Err(e),
            };
            let imm = match imm_operand_of(ops[1]) {
                Ok(v) => v,
                Err(e) => return Err(e),
            };
            Ok(AsmInstruction { op, rd, rs1: 0, rs2: 0, imm })
        },
    }
}

impl AsmInstruction {
    /// The word that encodes this instruction.
    pub fn compile(&self) -> (r: u32)
        ensures
            r == encode(*self),
    {
        let rd = self.rd << 7u32;
        let rs1 = self.rs1 << 15u32;
        let rs2 = self.rs2 << 20u32;
        match self.op {
            BaseOp::Op { funct } => OP | rd | ((funct & 7) << 12u32) | rs1 | rs2 | ((funct >> 3u32)
                << 25u32),
            BaseOp::OpImm { funct } => OP_IMM | rd | ((funct & 7) << 12u32) | rs1
                | IImmediate::new(self.imm).to_instruction_bitmask() | ((funct >> 3u32) << 25u32),
            BaseOp::Jalr => JALR | rd | rs1 | IImmediate::new(self.imm).to_instruction_bitmask(),
            BaseOp::Load { funct3 } => LOAD | rd | (funct3 << 12u32) | rs1 | IImmediate::new(
                self.imm,
            ).to_instruction_bitmask(),
            BaseOp::Store { funct3 } => STORE | SImmediate::new(self.imm).to_instruction_bitmask()
                | (funct3 << 12u32) | rs1 | rs2,
            BaseOp::Branch { funct3 } => BRANCH | BImmediate::new(self.imm).to_instruction_bitmask()
                | (funct3 << 12u32) | rs1 | rs2,
            BaseOp::Upper { opcode } => opcode | rd | UImmediate::new(
                self.imm << 12u32,
            ).to_instruction_bitmask(),
            BaseOp::Jal => JAL | rd | JImmediate::new(self.imm).to_instruction_bitmask(),
        }
    }
}


fn two_regs_of(m: &str, ops: &Vec<&str>) -> (r: Result<(u32, u32), AsmError>)
    ensures
        fault_of(r) == two_regs(m@, token_views(ops@)),
{
    if ops.len() != 2 {
        return Err(fault(AsmErrorKind::WrongOperandCount, m));
    }
    let rd = match reg_operand_of(ops[0]) {
        Ok(v) => v,
        Err(e) => return Err(e),
    };
    let rs = match reg_operand_of(ops[1]) {
        Ok(v) => v,
        Err(e) => return Err(e),
    };
    Ok((rd, rs))
}

fn reg_imm_of(m: &str, ops: &Vec<&str>) -> (r: Result<(u32, u32), AsmError>)
    ensures
        fault_of(r) == reg_imm(m@, token_views(ops@)),
{
    if ops.len() != 2 {
        return Err(fault(AsmErrorKind::WrongOperandCount, m));
    }
    let rd = match reg_operand_of(ops[0]) {
        Ok(v) => v,
        Err(e) => return Err(e),
    };
    let imm = match imm_operand_of(ops[1]) {
        Ok(v) => v,
        Err(e) => return Err(e),
    };
    Ok((rd, imm))
}

fn regs_imm_of(m: &str, ops: &Vec<&str>) -> (r: Result<(u32, u32, u32), AsmError>)
    ensures
        fault_of(r) == regs_imm(m@, token_views(ops@)),
{
    if ops.len() != 3 {
        return Err(fault(AsmErrorKind::WrongOperandCount, m));
    }
    let rs = match reg_operand_of(ops[0]) {
        Ok(v) => v,
        Err(e) => return Err(e),
    };
    let rt = match reg_operand_of(ops[1]) {
        Ok(v) => v,
        Err(e) => return Err(e),
    };
    let imm = match imm_operand_of(ops[2]) {
        Ok(v) => v,
        Err(e) => return Err(e),
    };
    Ok((rs, rt, imm))
}

fn one_imm_of(m: &str, ops: &Vec<&str>, upper: bool) -> (r: Result<u32, AsmError>)
    ensures
        fault_of(r) == one_imm(m@, token_views(ops@), upper),
{
    if ops.len() != 1 {
        Err(fault(AsmErrorKind::WrongOperandCount, m))
    } else if upper {
        upper_operand_of(ops[0])
    } else {
        imm_operand_of(ops[0])
    }
}

pub open spec fn seq_fault<T>(r: Result<Vec<T>, AsmError>) -> Result<Seq<T>, AsmFault> {
    match r {
        Ok(v) => Ok(v@),
        Err(e) => Err(e@),
    }
}

pub open spec fn expansion_of(r: Option<Result<Vec<AsmInstruction>, AsmError>>) -> Option<Result<Seq<AsmInstruction>, AsmFault>> {
    match r {
        None => None,
        Some(Ok(v)) => Some(Ok(v@)),
        Some(Err(e)) => Some(Err(e@)),
    }
}

fn one(ai: AsmInstruction) -> (r: Vec<AsmInstruction>)
    ensures
        r@ == seq![ai],
{
    let mut v = Vec::new();
    v.push(ai);
    assert(v@ =~= seq![ai]);
    v
}

fn with_two_regs(r: Result<(u32, u32), AsmError>, op: BaseOp, rd_first: bool, imm: u32) -> (res: Result<Vec<AsmInstruction>, AsmError>)
    ensures
        seq_fault(res) == from_two_regs(fault_of(r), op, rd_first, imm),
{
    match r {
        Err(e) => Err(e),
        Ok((rd, rs)) => if rd_first {
            Ok(one(AsmInstruction { op, rd, rs1: rs, rs2: 0, imm }))
        } else {
            Ok(one(AsmInstruction { op, rd, rs1: 0, rs2: rs, imm }))
        },
    }
}

/// The base instructions for the pseudo-instruction `m` with operands
/// `ops`; `None` where `m` names no pseudo-instruction.
fn pseudo_to_base_instructions(m: &str, ops: &Vec<&str>) -> (r: Option<Result<Vec<AsmInstruction>, AsmError>>)
    ensures
        expansion_of(r) == expand_pseudo(m@, token_views(ops@)),
{
    let addi = BaseOp::OpImm { funct: ADDI };
    if eq_lit(m, "nop") {
        if ops.len() != 0 {
            Some(Err(fault(AsmErrorKind::WrongOperandCount, m)))
        } else {
            Some(Ok(one(AsmInstruction { op: addi, rd: 0, rs1: 0, rs2: 0, imm: 0 })))
        }
    } else if eq_lit(m, "li") {
        Some(
            match reg_imm_of(m, ops) {
                Err(e) => Err(e),
                Ok((rd, imm)) => Ok(one(AsmInstruction { op: addi, rd, rs1: 0, rs2: 0, imm })),
            },
        )
    } else if eq_lit(m, "mv") {
        Some(with_two_regs(two_regs_of(m, ops), addi, true, 0))
    } else if eq_lit(m, "not") {
        Some(with_two_regs(two_regs_of(m, ops), BaseOp::OpImm { funct: XORI }, true, 0xFFFF_FFFF))
    } else if eq_lit(m, "neg") {
        Some(with_two_regs(two_regs_of(m, ops), BaseOp::Op { funct: SUB }, false, 0))
    } else if eq_lit(m, "seqz") {
        Some(with_two_regs(two_regs_of(m, ops), BaseOp::OpImm { funct: SLTIU }, true, 1))
    } else if eq_lit(m, "snez") {
        Some(with_two_regs(two_regs_of(m, ops), BaseOp::Op { funct: SLTU }, false, 0))
    } else if eq_lit(m, "sltz") {
        Some(with_two_regs(two_regs_of(m, ops), BaseOp::Op { funct: SLT }, true, 0))
    } else if eq_lit(m, "sgtz") {
        Some(with_two_regs(two_regs_of(m, ops), BaseOp::Op { funct: SLT }, false, 0))
    } else if eq_lit(m, "beqz") || eq_lit(m, "bnez") {
        let funct3 = if eq_lit(m, "beqz") {
            BEQ
        } else {
            BNE
        };
        Some(
            match reg_imm_of(m, ops) {
                Err(e) => Err(e),
                Ok((rs, offset)) => Ok(
                    one(AsmInstruction { op: BaseOp::Branch { funct3 }, rd: 0, rs1: rs, rs2: 0, imm: offset }),
                ),
            },
        )
    } else if eq_lit(m, "bgt") || eq_lit(m, "ble") {
        let funct3 = if eq_lit(m, "bgt") {
            BLT
        } else {
            BGE
        };
        Some(
            match regs_imm_of(m, ops) {
                Err(e) => Err(e),
                Ok((rs, rt, offset)) => Ok(
                    one(AsmInstruction { op: BaseOp::Branch { funct3 }, rd: 0, rs1: rt, rs2: rs, imm: offset }),
                ),
            },
        )
    } else if eq_lit(m, "j") {
        Some(
            match one_imm_of(m, ops, false) {
                Err(e) => Err(e),
                Ok(offset) => Ok(one(AsmInstruction { op: BaseOp::Jal, rd: 0, rs1: 0, rs2: 0, imm: offset })),
            },
        )
    } else if eq_lit(m, "ret") {
        if ops.len() != 0 {
            Some(Err(fault(AsmErrorKind::WrongOperandCount, m)))
        } else {
            Some(Ok(one(AsmInstruction { op: BaseOp::Jalr, rd: 0, rs1: 1, rs2: 0, imm: 0 })))
        }
    } else if eq_lit(m, "call") {
        Some(
            match one_imm_of(m, ops, true) {
                Err(e) => Err(e),
                Ok(offset) => {
                    let mut v = Vec::new();
                    v.push(AsmInstruction { op: BaseOp::Upper { opcode: AUIPC }, rd: 6, rs1: 0, rs2: 0, imm: offset >> 12u32 });
                    v.push(AsmInstruction { op: BaseOp::Jalr, rd: 1, rs1: 6, rs2: 0, imm: offset & 0xFFF });
                    assert(v@ =~= seq![
                        base_instr(BaseOp::Upper { opcode: AUIPC }, 6, 0, 0, offset >> 12u32),
                        base_instr(BaseOp::Jalr, 1, 6, 0, offset & 0xFFF),
                    ]);
                    Ok(v)
                },
            },
        )
    } else {
        None
    }
}

/// The mnemonic of `line` and its operands, trailing commas stripped;
/// `None` for a line without tokens.
fn line_parts<'a>(line: &'a str) -> (r: Option<(&'a str, Vec<&'a str>)>)
    ensures
        match r {
            None => split_tokens(line@).len() == 0,
            Some((m, ops)) => split_tokens(line@).len() > 0 && m@ == split_tokens(line@)[0]
                && token_views(ops@) == operands_of(split_tokens(line@)),
        },
{
    let tokens = split_whitespace(line);
    let ghost split = split_tokens(line@);
    if tokens.len() == 0 {
        return None;
    }
    assert(tokens@[0]@ == token_views(tokens@)[0]);
    let mut ops: Vec<&'a str> = Vec::new();
    let mut i: usize = 1;
    while i < tokens.len()
        invariant
            token_views(tokens@) == split,
            1 <= i <= tokens.len(),
            ops@.len() == i - 1,
            forall|j: int| 0 <= j < i - 1 ==> #[trigger] ops@[j]@ == strip_commas(split[j + 1]),
        decreases tokens.len() - i,
    {
        assert(tokens@[i as int]@ == split[i as int]);
        ops.push(trim_commas(tokens[i]));
        i = i + 1;
    }
    assert(token_views(ops@) =~= operands_of(split));
    Some((tokens[0], ops))
}

/// Assembles one line holding a base instruction.
pub fn compile_line(line: &str) -> (r: Result<u32, AsmError>)
    ensures
        fault_of(r) == line_word(line@),
{
    match line_parts(line) {
        None => Err(fault(AsmErrorKind::EmptyLine, line)),
        Some((m, ops)) => match base_op(m) {
            None => Err(fault(AsmErrorKind::UnknownMnemonic, m)),
            Some(op) => match parse_operands(m, op, &ops) {
                Ok(ai) => Ok(ai.compile()),
                Err(e) => Err(e),
            },
        },
    }
}

/// The words for one line: a pseudo-instruction's expansion, or the word of
/// a base instruction.
fn compile_words(line: &str) -> (r: Result<Vec<u32>, AsmError>)
    ensures
        seq_fault(r) == line_words(line@),
{
    match line_parts(line) {
        None => Err(fault(AsmErrorKind::EmptyLine, line)),
        Some((m, ops)) => match pseudo_to_base_instructions(m, &ops) {
            Some(Ok(instrs)) => {
                let mut words: Vec<u32> = Vec::new();
                let mut i: usize = 0;
                while i < instrs.len()
                    invariant
                        i <= instrs.len(),
                        words@ =~= instrs@.subrange(0, i as int).map_values(|ai: AsmInstruction| encode(ai)),
                    decreases instrs.len() - i,
                {
                    words.push(instrs[i].compile());
                    i = i + 1;
                }
                assert(instrs@.subrange(0, instrs.len() as int) =~= instrs@);
                Ok(words)
            },
            Some(Err(e)) => Err(e),
            None => match base_op(m) {
                None => Err(fault(AsmErrorKind::UnknownMnemonic, m)),
                Some(op) => match parse_operands(m, op, &ops) {
                    Ok(ai) => {
                        let w = ai.compile();
                        let mut words: Vec<u32> = Vec::new();
                        words.push(w);
                        assert(words@ =~= seq![w]);
                        Ok(words)
                    },
                    Err(e) => Err(e),
                },
            },
        },
    }
}

/// Assembles the lines in order, one word per base instruction; the first
/// error, if a line has one.
pub fn compile(instructions: Vec<String>) -> (r: Result<Vec<u32>, AsmError>)
    ensures
        seq_fault(r) == assemble(line_views(instructions@)),
{
    let ghost lines = line_views(instructions@);
    let mut words: Vec<u32> = Vec::new();
    let mut i: usize = 0;
    assert(lines.subrange(0, 0) =~= Seq::<Seq<char>>::empty());
    while i < instructions.len()
        invariant
            lines == line_views(instructions@),
            i <= instructions.len(),
            assemble(lines.subrange(0, i as int)) == Ok::<Seq<u32>, AsmFault>(words@),
        decreases instructions.len() - i,
    {
        let ghost prefix = lines.subrange(0, i + 1);
        assert(prefix.drop_last() =~= lines.subrange(0, i as int));
        assert(prefix.last() == instructions@[i as int]@);
        match compile_words(instructions[i].as_str()) {
            Err(e) => {
                proof {
                    lemma_assemble_error_stays(lines, i + 1);
                }
                return Err(e);
            },
            Ok(more) => {
                let ghost before = words@;
                let mut j: usize = 0;
                while j < more.len()
                    invariant
                        j <= more.len(),
                        words@ =~= before + more@.subrange(0, j as int),
                    decreases more.len() - j,
                {
                    words.push(more[j]);
                    j = j + 1;
                }
                assert(more@.subrange(0, more.len() as int) =~= more@);
            },
        }
        i = i + 1;
    }
    assert(lines.subrange(0, instructions.len() as int) =~= lines);
    Ok(words)
}

} // verus!
