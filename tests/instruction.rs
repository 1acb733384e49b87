use risc_v_emulator::instruction::Instruction::{
    BFormatInstruction, IFormatInstruction, RFormatInstruction, SFormatInstruction, UFormatInstruction,
};
use risc_v_emulator::instruction::{
    ADDI, ANDI, AUIPC, BEQ, BGE, BGEU, BLT, BLTU, BNE, LB, LBU, LH, LHU, LOAD, LUI, LW, OP_IMM, ORI, SB,
    SH, SLLI, SLTI, SLTIU, SRLI, SW, XORI,
};
use risc_v_emulator::register::Register;

#[test]
fn test_add() {
    let mut register = Register::new();
    register.put(4, 0x7fffffff);
    register.put(24, 0x1);

    let mut memory = [0u32; 1024];

    let instruction = RFormatInstruction {
        rd: 25,
        funct3: 0b000,
        rs1: 4,
        rs2: 24,
        funct7: 0b0000000
    };
    instruction.execute(&mut register, &mut memory).unwrap();

    assert_eq!(register.get(25), 0x80000000);
}

#[test]
fn test_addi() {
    let mut register = Register::new();
    register.put(20, 0x20000000);

    let mut memory = [0u32; 1024];

    let instruction = IFormatInstruction {
        imm: -0x800,
        rs1: 20,
        funct3: ADDI,
        rd: 7,
        opcode: OP_IMM
    };
    instruction.execute(&mut register, &mut memory).unwrap();

    assert_eq!(register.get(7), 0x1ffff800);
}

#[test]
fn test_and() {
    let mut register = Register::new();
    register.put(10, 0x3);
    register.put(11, 0x55555556);

    let mut memory = [0u32; 1024];

    let instruction = RFormatInstruction {
        rd: 12,
        funct3: 0b111,
        rs1: 10,
        rs2: 11,
        funct7: 0b0000000
    };
    instruction.execute(&mut register, &mut memory).unwrap();

    assert_eq!(register.get(12), 0x2);
}

#[test]
fn test_andi() {
    let mut register = Register::new();
    register.put(10, 0x55555555);

    let mut memory = [0u32; 1024];

    let instruction = IFormatInstruction {
        imm: 0x334,
        rs1: 10,
        funct3: ANDI,
        rd: 11,
        opcode: OP_IMM
    };
    instruction.execute(&mut register, &mut memory).unwrap();

    assert_eq!(register.get(11), 0x114);
}

#[test]
fn test_auipc() {
    let mut register = Register::new();

    let mut memory = [0u32; 1024];

    let instruction = UFormatInstruction {
        imm: 0x100,
        rd: 10,
        opcode: AUIPC
    };
    instruction.execute(&mut register, &mut memory).unwrap();

    assert_eq!(register.get(10), 0x100000);
}

#[test]
fn test_lui() {
    let mut register = Register::new();

    let mut memory = [0u32; 1024];

    let instruction = UFormatInstruction {
        imm: 0x3,
        rd: 13,
        opcode: LUI
    };
    instruction.execute(&mut register, &mut memory).unwrap();

    assert_eq!(register.get(13), 0x3000);
}

#[test]
fn test_or() {
    let mut register = Register::new();
    register.put(8, 0x100000);
    register.put(26, 0x10);

    let mut memory = [0u32; 1024];

    let instruction = RFormatInstruction {
        rd: 26,
        funct3: 0b110,
        rs1: 8,
        rs2: 26,
        funct7: 0b0000000
    };
    instruction.execute(&mut register, &mut memory).unwrap();

    assert_eq!(register.get(26), 0x100010);
}

#[test]
fn test_ori() {
    let mut register = Register::new();
    register.put(17, 0x33333334);

    let mut memory = [0u32; 1024];

    let instruction = IFormatInstruction {
        imm: 0x7ff,
        rs1: 17,
        funct3: ORI,
        rd: 8,
        opcode: OP_IMM
    };
    instruction.execute(&mut register, &mut memory).unwrap();

    assert_eq!(register.get(8), 0x333337ff);
}

#[test]
fn test_sll() {
    let mut register = Register::new();
    register.put(12, 0x7fffffff);
    register.put(26, 0x15);

    let mut memory = [0u32; 1024];

    let instruction = RFormatInstruction {
        rd: 16,
        funct3: 0b001,
        rs1: 12,
        rs2: 26,
        funct7: 0b0000000
    };
    instruction.execute(&mut register, &mut memory).unwrap();

    assert_eq!(register.get(16), 0xffe00000);
}

#[test]
fn test_slli() {
    let mut register = Register::new();
    register.put(26, 0x66666666);

    let mut memory = [0u32; 1024];

    let instruction = IFormatInstruction {
        imm: 0xf,
        rs1: 26,
        funct3: SLLI,
        rd: 26,
        opcode: OP_IMM
    };
    instruction.execute(&mut register, &mut memory).unwrap();

    assert_eq!(register.get(26), 0x33330000);
}

#[test]
fn test_slt_equal() {
    let mut register = Register::new();
    register.put(26, 0x66666667);
    register.put(18, 0x66666667);

    let mut memory = [0u32; 1024];

    let instruction = RFormatInstruction {
        rd: 26,
        funct3: 0b010,
        rs1: 26,
        rs2: 18,
        funct7: 0b0000000
    };
    instruction.execute(&mut register, &mut memory).unwrap();

    assert_eq!(register.get(26), 0x0);
}

#[test]
fn test_slt_greater_than() {
    let mut register = Register::new();
    register.put(26, 0x66666667);
    register.put(18, 0x66666667);

    let mut memory = [0u32; 1024];

    let instruction = RFormatInstruction {
        rd: 26,
        funct3: 0b010,
        rs1: 26,
        rs2: 18,
        funct7: 0b0000000
    };
    instruction.execute(&mut register, &mut memory).unwrap();

    assert_eq!(register.get(26), 0x0);
}

#[test]
fn test_slt_less_than() {
    let mut register = Register::new();
    register.put(26, (-0x201i32) as u32);
    register.put(18, 0x5);

    let mut memory = [0u32; 1024];

    let instruction = RFormatInstruction {
        rd: 26,
        funct3: 0b010,
        rs1: 26,
        rs2: 18,
        funct7: 0b0000000
    };
    instruction.execute(&mut register, &mut memory).unwrap();

    assert_eq!(register.get(26), 0x1);
}

#[test]
fn test_slti_eq() {
    let mut register = Register::new();
    register.put(14, 0x10);

    let mut memory = [0u32; 1024];

    let instruction = IFormatInstruction {
        imm: 0x10,
        rs1: 14,
        funct3: SLTI,
        rd: 27,
        opcode: OP_IMM
    };
    instruction.execute(&mut register, &mut memory).unwrap();

    assert_eq!(register.get(27), 0x0);
}

#[test]
fn test_slti_gt() {
    let mut register = Register::new();
    register.put(25, -0x81i32 as u32);

    let mut memory = [0u32; 1024];

    let instruction = IFormatInstruction {
        imm: -0x800,
        rs1: 25,
        funct3: SLTI,
        rd: 12,
        opcode: OP_IMM
    };
    instruction.execute(&mut register, &mut memory).unwrap();

    assert_eq!(register.get(12), 0x0);
}

#[test]
fn test_slti_lt() {
    let mut register = Register::new();
    register.put(5, -0x1001i32 as u32);

    let mut memory = [0u32; 1024];

    let instruction = IFormatInstruction {
        imm: 0x0,
        rs1: 5,
        funct3: SLTI,
        rd: 5,
        opcode: OP_IMM
    };
    instruction.execute(&mut register, &mut memory).unwrap();

    assert_eq!(register.get(5), 0x1);
}

#[test]
fn test_sltiu_gt() {
    let mut register = Register::new();
    register.put(23, 0x400);

    let mut memory = [0u32; 1024];

    let instruction = IFormatInstruction {
        imm: 0x0,
        rs1: 23,
        funct3: SLTIU,
        rd: 28,
        opcode: OP_IMM
    };
    instruction.execute(&mut register, &mut memory).unwrap();

    assert_eq!(register.get(28), 0x0);
}

#[test]
fn test_sltiu_lt() {
    let mut register = Register::new();
    register.put(2, 0x800);

    let mut memory = [0u32; 1024];

    let instruction = IFormatInstruction {
        imm: 0xfff,
        rs1: 2,
        funct3: SLTIU,
        rd: 2,
        opcode: OP_IMM
    };
    instruction.execute(&mut register, &mut memory).unwrap();

    assert_eq!(register.get(2), 0x1);
}

#[test]
fn test_sltu_lt() {
    let mut register = Register::new();
    register.put(14, 0xfffffffe);
    register.put(24, 0xffffffff);

    let mut memory = [0u32; 1024];

    let instruction = RFormatInstruction {
        rd: 14,
        funct3: 0b011,
        rs1: 14,
        rs2: 24,
        funct7: 0b0000000
    };
    instruction.execute(&mut register, &mut memory).unwrap();

    assert_eq!(register.get(14), 0x1);
}

#[test]
fn test_sltu_gt() {
    let mut register = Register::new();
    register.put(5, 0xffffffff);
    register.put(14, 0x0);

    let mut memory = [0u32; 1024];

    let instruction = RFormatInstruction {
        rd: 19,
        funct3: 0b011,
        rs1: 5,
        rs2: 14,
        funct7: 0b0000000
    };
    instruction.execute(&mut register, &mut memory).unwrap();

    assert_eq!(register.get(19), 0x0);
}

#[test]
fn test_sra() {
    let mut register = Register::new();
    register.put(16, -0x80000000i32 as u32);
    register.put(27, 0x8);

    let mut memory = [0u32; 1024];

    let instruction = RFormatInstruction {
        rd: 16,
        funct3: 0b101,
        rs1: 16,
        rs2: 27,
        funct7: 0b0100000
    };
    instruction.execute(&mut register, &mut memory).unwrap();

    assert_eq!(register.get(16), -0x800000i32 as u32)
}

#[test]
fn test_srai() {
    let mut register = Register::new();
    register.put(31, -0x9i32 as u32);

    let mut memory = [0u32; 1024];

    let instruction = IFormatInstruction {
        imm: 0x9 + 0b010000000000, // adding discriminator
        rs1: 31,
        funct3: SRLI,
        rd: 25,
        opcode: OP_IMM
    };
    instruction.execute(&mut register, &mut memory).unwrap();

    assert_eq!(register.get(25), -0x1i32 as u32)
}

#[test]
fn test_srl() {
    let mut register = Register::new();
    register.put(26, -0x400001i32 as u32);
    register.put(11, 0xf);

    let mut memory = [0u32; 1024];

    let instruction = RFormatInstruction {
        rd: 11,
        funct3: 0b101,
        rs1: 26,
        rs2: 11,
        funct7: 0b0000000
    };
    instruction.execute(&mut register, &mut memory).unwrap();

    assert_eq!(register.get(11), 0x1ff7f)
}

#[test]
fn test_srli() {
    let mut register = Register::new();
    register.put(30, -0xb504i32 as u32);

    let mut memory = [0u32; 1024];

    let instruction = IFormatInstruction {
        imm: 0x2,
        rs1: 30,
        funct3: SRLI,
        rd: 8,
        opcode: OP_IMM
    };
    instruction.execute(&mut register, &mut memory).unwrap();

    assert_eq!(register.get(8), 0x3fffd2bf)
}

#[test]
fn test_sub() {
    let mut register = Register::new();
    register.put(24, 0x55555554);
    register.put(26, 0x6);

    let mut memory = [0u32; 1024];

    let instruction = RFormatInstruction {
        rd: 26,
        funct3: 0b000,
        rs1: 24,
        rs2: 26,
        funct7: 0b0100000
    };
    instruction.execute(&mut register, &mut memory).unwrap();

    assert_eq!(register.get(26), 0x5555554e)
}

#[test]
fn test_xor() {
    let mut register = Register::new();
    register.put(27, 0x66666665);
    register.put(24, 0x3);

    let mut memory = [0u32; 1024];

    let instruction = RFormatInstruction {
        rd: 24,
        funct3: 0b100,
        rs1: 27,
        rs2: 24,
        funct7: 0b0000000
    };
    instruction.execute(&mut register, &mut memory).unwrap();

    assert_eq!(register.get(24), 0x66666666)
}

#[test]
fn test_xori() {
    let mut register = Register::new();
    register.put(24, 0x33333334);

    let mut memory = [0u32; 1024];

    let instruction = IFormatInstruction {
        imm: -0x800,
        rs1: 24,
        funct3: XORI,
        rd: 10,
        opcode: OP_IMM
    };
    instruction.execute(&mut register, &mut memory).unwrap();

    assert_eq!(register.get(10), 0xcccccb34)
}

#[test]
fn test_lb() {
    let mut register = Register::new();
    register.put(24, 0xFF);

    let mut memory = [0u32; 1024];
    memory[0xFF] = 0xcccccb34;

    let instruction = IFormatInstruction {
        imm: 0x0,
        rs1: 24,
        funct3: LB,
        rd: 10,
        opcode: LOAD
    };
    instruction.execute(&mut register, &mut memory).unwrap();

    assert_eq!(register.get(10), 0b00000000_00000000_00000000_00110100)
}

#[test]
fn test_lh() {
    let mut register = Register::new();
    register.put(24, 0xFF);

    let mut memory = [0u32; 1024];
    memory[0xFF] = 0xcccccb34;

    let instruction = IFormatInstruction {
        imm: 0x0,
        rs1: 24,
        funct3: LH,
        rd: 10,
        opcode: LOAD
    };
    instruction.execute(&mut register, &mut memory).unwrap();

    assert_eq!(register.get(10), 0b11111111_11111111_11001011_00110100)
}

#[test]
fn test_lw() {
    let mut register = Register::new();
    register.put(24, 0xFF);

    let mut memory = [0u32; 1024];
    memory[0xFF] = 0xcccccb34;

    let instruction = IFormatInstruction {
        imm: 0x0,
        rs1: 24,
        funct3: LW,
        rd: 10,
        opcode: LOAD
    };
    instruction.execute(&mut register, &mut memory).unwrap();

    assert_eq!(register.get(10), 0b11001100_11001100_11001011_00110100)
}

#[test]
fn test_lbu() {
    let mut register = Register::new();
    register.put(24, 0xFF);

    let mut memory = [0u32; 1024];
    memory[0xFF] = 0xcccccb34;

    let instruction = IFormatInstruction {
        imm: 0x0,
        rs1: 24,
        funct3: LBU,
        rd: 10,
        opcode: LOAD
    };
    instruction.execute(&mut register, &mut memory).unwrap();

    assert_eq!(register.get(10), 0b00000000_00000000_00000000_00110100)
}

#[test]
fn test_lhu() {
    let mut register = Register::new();
    register.put(24, 0xFF);

    let mut memory = [0u32; 1024];
    memory[0xFF] = 0xcccccb34;

    let instruction = IFormatInstruction {
        imm: 0x0,
        rs1: 24,
        funct3: LHU,
        rd: 10,
        opcode: LOAD
    };
    instruction.execute(&mut register, &mut memory).unwrap();

    assert_eq!(register.get(10), 0b00000000_00000000_11001011_00110100)
}

#[test]
fn test_beq_true() {
    let mut register = Register::new();
    register.put(10, 0xFF);
    register.put(20, 0xFF);

    let mut memory = [0u32; 1024];

    let instruction = BFormatInstruction {
        imm: 100,
        rs1: 10,
        rs2: 20,
        funct3: BEQ
    };
    instruction.execute(&mut register, &mut memory).unwrap();

    assert_eq!(register.pc(), 100);
}

#[test]
fn test_beq_false() {
    let mut register = Register::new();
    register.put(10, 0xFF);
    register.put(20, -100i32 as u32);

    let mut memory = [0u32; 1024];

    let instruction = BFormatInstruction {
        imm: 100,
        rs1: 10,
        rs2: 20,
        funct3: BEQ
    };
    instruction.execute(&mut register, &mut memory).unwrap();

    assert_eq!(register.pc(), 0);
}

#[test]
fn test_bne_true() {
    let mut register = Register::new();
    register.put(10, 0xFF);
    register.put(20, -100i32 as u32);

    let mut memory = [0u32; 1024];

    let instruction = BFormatInstruction {
        imm: 100,
        rs1: 10,
        rs2: 20,
        funct3: BNE
    };
    instruction.execute(&mut register, &mut memory).unwrap();

    assert_eq!(register.pc(), 100);
}

#[test]
fn test_bne_false() {
    let mut register = Register::new();
    register.put(10, 0xFF);
    register.put(20, 0xFF);

    let mut memory = [0u32; 1024];

    let instruction = BFormatInstruction {
        imm: 100,
        rs1: 10,
        rs2: 20,
        funct3: BNE
    };
    instruction.execute(&mut register, &mut memory).unwrap();

    assert_eq!(register.pc(), 0);
}

#[test]
fn test_blt_true() {
    let mut register = Register::new();
    register.put(10, -100i32 as u32);
    register.put(20, 0xFF);

    let mut memory = [0u32; 1024];

    let instruction = BFormatInstruction {
        imm: 100,
        rs1: 10,
        rs2: 20,
        funct3: BLT
    };
    instruction.execute(&mut register, &mut memory).unwrap();

    assert_eq!(register.pc(), 100);
}

#[test]
fn test_blt_false() {
    let mut register = Register::new();
    register.put(10, 0xFF);
    register.put(20, 0xFF);

    let mut memory = [0u32; 1024];

    let instruction = BFormatInstruction {
        imm: 100,
        rs1: 10,
        rs2: 20,
        funct3: BLT
    };
    instruction.execute(&mut register, &mut memory).unwrap();

    assert_eq!(register.pc(), 0);
}

#[test]
fn test_bge_true() {
    let mut register = Register::new();
    register.put(10, 0xFF);
    register.put(20, -100i32 as u32);

    let mut memory = [0u32; 1024];

    let instruction = BFormatInstruction {
        imm: 100,
        rs1: 10,
        rs2: 20,
        funct3: BGE
    };
    instruction.execute(&mut register, &mut memory).unwrap();

    assert_eq!(register.pc(), 100);
}

#[test]
fn test_bge_false() {
    let mut register = Register::new();
    register.put(10, 0xFF);
    register.put(20, 0xFFF);

    let mut memory = [0u32; 1024];

    let instruction = BFormatInstruction {
        imm: 100,
        rs1: 10,
        rs2: 20,
        funct3: BGE
    };
    instruction.execute(&mut register, &mut memory).unwrap();

    assert_eq!(register.pc(), 0);
}

#[test]
fn test_bltu_true() {
    let mut register = Register::new();
    register.put(10, 0xFF);
    register.put(20, -100i32 as u32);

    let mut memory = [0u32; 1024];

    let instruction = BFormatInstruction {
        imm: 100,
        rs1: 10,
        rs2: 20,
        funct3: BLTU
    };
    instruction.execute(&mut register, &mut memory).unwrap();

    assert_eq!(register.pc(), 100);
}

#[test]
fn test_bltu_false() {
    let mut register = Register::new();
    register.put(10, 0xFF);
    register.put(20, 0xFF);

    let mut memory = [0u32; 1024];

    let instruction = BFormatInstruction {
        imm: 100,
        rs1: 10,
        rs2: 20,
        funct3: BLTU
    };
    instruction.execute(&mut register, &mut memory).unwrap();

    assert_eq!(register.pc(), 0);
}

#[test]
fn test_bgeu_true() {
    let mut register = Register::new();
    register.put(10, -100i32 as u32);
    register.put(20, 0xFF);

    let mut memory = [0u32; 1024];

    let instruction = BFormatInstruction {
        imm: 100,
        rs1: 10,
        rs2: 20,
        funct3: BGEU
    };
    instruction.execute(&mut register, &mut memory).unwrap();

    assert_eq!(register.pc(), 100);
}

#[test]
fn test_bgeu_false() {
    let mut register = Register::new();
    register.put(10, 0xFF);
    register.put(20, 0xFFF);

    let mut memory = [0u32; 1024];

    let instruction = BFormatInstruction {
        imm: 100,
        rs1: 10,
        rs2: 20,
        funct3: BGEU
    };
    instruction.execute(&mut register, &mut memory).unwrap();

    assert_eq!(register.pc(), 0);
}

#[test]
fn test_sb() {
    let mut register = Register::new();
    register.put(10, 0x100);
    register.put(20, 0xFFFFFF);

    let mut memory = [0u32; 1024];

    let instruction = SFormatInstruction {
        imm: 128,
        rs1: 10,
        rs2: 20,
        funct3: SB
    };
    instruction.execute(&mut register, &mut memory).unwrap();

    assert_eq!(memory[384], 0xFF);
}

#[test]
fn test_sh() {
    let mut register = Register::new();
    register.put(10, 0x100);
    register.put(20, 0xFFFFFF);

    let mut memory = [0u32; 1024];

    let instruction = SFormatInstruction {
        imm: 128,
        rs1: 10,
        rs2: 20,
        funct3: SH
    };
    instruction.execute(&mut register, &mut memory).unwrap();

    assert_eq!(memory[384], 0xFFFF);
}

#[test]
fn test_sw() {
    let mut register = Register::new();
    register.put(10, 0x100);
    register.put(20, 0xFFFFFF);

    let mut memory = [0u32; 1024];

    let instruction = SFormatInstruction {
        imm: 128,
        rs1: 10,
        rs2: 20,
        funct3: SW
    };
    instruction.execute(&mut register, &mut memory).unwrap();

    assert_eq!(memory[384], 0xFFFFFF);
}
