use risc_v_emulator::assembly_compiler::{compile, compile_line, AsmErrorKind};
use risc_v_emulator::lexer::split_whitespace;

#[test]
fn test_compile_add() {
    let instruction = "add x5, x0, x1";

    let op = compile_line(instruction).unwrap();

    assert_eq!(op, 0b0000000_00001_00000_000_00101_0110011)
}

#[test]
fn test_compile_slt() {
    let instruction = "slt x5, x0, x1";

    let op = compile_line(instruction).unwrap();

    assert_eq!(op, 0b0000000_00001_00000_010_00101_0110011)
}

#[test]
fn test_compile_sra() {
    let instruction = "sra x5, x0, x1";

    let op = compile_line(instruction).unwrap();

    assert_eq!(op, 0b0100000_00001_00000_101_00101_0110011)
}

#[test]
fn test_compile_addi() {
    let instruction = "addi x5, x4, 20";

    let op = compile_line(instruction).unwrap();

    assert_eq!(op, 0b000000010100_00100_000_00101_0010011)
}

#[test]
fn test_compile_slti() {
    let instruction = "slti x5, x4, 20";

    let op = compile_line(instruction).unwrap();

    assert_eq!(op, 0b000000010100_00100_010_00101_0010011)
}

#[test]
fn test_compile_srai() {
    let instruction = "srai x5, x0, 20";

    let op = compile_line(instruction).unwrap();

    assert_eq!(op, 0b0100000_10100_00000_101_00101_0010011)
}

#[test]
fn test_compile_lui() {
    let instruction = "lui x5, 1234";

    let op = compile_line(instruction).unwrap();

    assert_eq!(op, 0b00000000010011010010_00101_0110111)
}

#[test]
fn test_compile_jal() {
    let instruction = "jal x5, 1234";

    let op = compile_line(instruction).unwrap();

    assert_eq!(op, 0b01001101001000000000001011101111)
}

#[test]
fn test_compile_jalr() {
    let instruction = "jalr x5, x3, 1234";

    let op = compile_line(instruction).unwrap();

    assert_eq!(op, 0b010011010010_00011_000_00101_1100111)
}

#[test]
fn test_compile_beq() {
    let instruction = "beq x5, x3, 1234";

    let op = compile_line(instruction).unwrap();

    assert_eq!(op, 0b0_100110_00011_00101_000_1001_0_1100011)
}

#[test]
fn test_compile_bltu() {
    let instruction = "bltu x5, x3, 1234";

    let op = compile_line(instruction).unwrap();

    assert_eq!(op, 0b0_100110_00011_00101_110_1001_0_1100011)
}

#[test]
fn test_compile_lw() {
    let instruction = "lw t2, 0(t3)";

    let op = compile_line(instruction).unwrap();

    assert_eq!(op, 0b000000000000_11100_010_00111_0000011)
}

#[test]
fn test_compile_lbu() {
    let instruction = "lbu t2, 0(t3)";

    let op = compile_line(instruction).unwrap();

    assert_eq!(op, 0b000000000000_11100_100_00111_0000011)
}

#[test]
fn test_compile_sw() {
    let instruction = "sw t2, 0(t3)";

    let op = compile_line(instruction).unwrap();

    assert_eq!(op, 0b0000000_00111_11100_010_00000_0100011)
}

#[test]
fn test_compile_beqz() {
    let instruction = "beqz t2, 6".to_string();

    let ops = compile(vec![instruction]).unwrap();

    assert_eq!(ops, vec![0b0_000000_00000_00111_000_0011_0_1100011])
}

#[test]
fn test_compile_call() {
    let instruction = "call 123456789".to_string();

    let ops = compile(vec![instruction]).unwrap();

    assert_eq!(ops, vec![
        0b00000111010110111100_00110_0010111,
        0b110100010101_00110_000_00001_1100111
    ])
}

fn words(lines: &[&str]) -> Vec<u32> {
    compile(lines.iter().map(|l| l.to_string()).collect()).unwrap()
}

fn one_word(line: &str) -> u32 {
    compile_line(line).unwrap()
}

#[test]
fn pseudo_instructions_expand_to_their_base_forms() {
    assert_eq!(words(&["nop"]), vec![one_word("addi x0, x0, 0")]);
    assert_eq!(words(&["li a0, -5"]), vec![one_word("addi a0, x0, -5")]);
    assert_eq!(words(&["mv a0, a1"]), vec![one_word("addi a0, a1, 0")]);
    assert_eq!(words(&["not a0, a1"]), vec![one_word("xori a0, a1, -1")]);
    assert_eq!(words(&["neg a0, a1"]), vec![one_word("sub a0, x0, a1")]);
    assert_eq!(words(&["seqz a0, a1"]), vec![one_word("sltiu a0, a1, 1")]);
    assert_eq!(words(&["snez a0, a1"]), vec![one_word("sltu a0, x0, a1")]);
    assert_eq!(words(&["sltz a0, a1"]), vec![one_word("slt a0, a1, x0")]);
    assert_eq!(words(&["sgtz a0, a1"]), vec![one_word("slt a0, x0, a1")]);
    assert_eq!(words(&["bnez a0, -8"]), vec![one_word("bne a0, x0, -8")]);
    assert_eq!(words(&["bgt a0, a1, 16"]), vec![one_word("blt a1, a0, 16")]);
    assert_eq!(words(&["ble a0, a1, 16"]), vec![one_word("bge a1, a0, 16")]);
    assert_eq!(words(&["j -20"]), vec![one_word("jal x0, -20")]);
    assert_eq!(words(&["ret"]), vec![0b000000000000_00001_000_00000_1100111]);
}

#[test]
fn lines_assemble_in_order() {
    let ws = words(&["addi x1, x0, 3", "call 4096", "add x3, x1, x2"]);
    assert_eq!(ws.len(), 4);
    assert_eq!(ws[0], one_word("addi x1, x0, 3"));
    assert_eq!(ws[1], one_word("auipc x6, 1"));
    assert_eq!(ws[2], one_word("jalr x1, x6, 0"));
    assert_eq!(ws[3], one_word("add x3, x1, x2"));
    assert_eq!(words(&[]), Vec::<u32>::new());
}

#[test]
fn register_aliases_resolve_to_their_numbers() {
    let aliases = [
        ("zero", 0), ("ra", 1), ("sp", 2), ("gp", 3), ("tp", 4), ("t0", 5), ("t1", 6),
        ("t2", 7), ("s0", 8), ("fp", 8), ("s1", 9), ("a0", 10), ("a7", 17), ("s2", 18),
        ("s11", 27), ("t3", 28), ("t6", 31), ("x31", 31), ("x0", 0),
    ];
    for (name, number) in aliases {
        let w = compile_line(&format!("add {}, x0, x0", name)).unwrap();
        assert_eq!((w >> 7) & 0x1F, number, "{}", name);
    }
}

#[test]
fn operand_commas_and_spacing_are_ignored() {
    assert_eq!(one_word("  addi   x5,   x4,\t20  "), one_word("addi x5, x4, 20"));
    assert_eq!(one_word("addi\tx5,,\tx4, 20"), one_word("addi x5, x4, 20"));
}

#[test]
fn immediates_keep_their_low_bits() {
    // the I-format field holds the low 12 bits of the value
    assert_eq!(one_word("addi x1, x0, 4095") >> 20, 0xFFF);
    assert_eq!(one_word("addi x1, x0, -1") >> 20, 0xFFF);
    assert_eq!(one_word("addi x1, x0, +7") >> 20, 7);
    assert_eq!(one_word("lui x1, 1048575") >> 12, 0xFFFFF);
}

#[test]
fn assembler_errors_name_their_token() {
    let e = compile_line("").unwrap_err();
    assert_eq!(e.kind, AsmErrorKind::EmptyLine);
    let e = compile_line("frob x1, x2, x3").unwrap_err();
    assert_eq!(e.kind, AsmErrorKind::UnknownMnemonic);
    assert_eq!(e.token, "frob");
    let e = compile_line("add x1, x32, x3").unwrap_err();
    assert_eq!(e.kind, AsmErrorKind::UnknownRegister);
    assert_eq!(e.token, "x32");
    let e = compile_line("add x1, q7, x3").unwrap_err();
    assert_eq!(e.kind, AsmErrorKind::UnknownRegister);
    let e = compile_line("addi x1, x2, 12a").unwrap_err();
    assert_eq!(e.kind, AsmErrorKind::BadImmediate);
    assert_eq!(e.token, "12a");
    let e = compile_line("addi x1, x2, 2147483648").unwrap_err();
    assert_eq!(e.kind, AsmErrorKind::BadImmediate);
    let e = compile_line("lui x1, -1").unwrap_err();
    assert_eq!(e.kind, AsmErrorKind::BadImmediate);
    let e = compile_line("lw t2, 0").unwrap_err();
    assert_eq!(e.kind, AsmErrorKind::MalformedOperand);
    assert_eq!(e.token, "0");
    let e = compile_line("lw t2, 4(t3").unwrap_err();
    assert_eq!(e.kind, AsmErrorKind::MalformedOperand);
    let e = compile_line("add x1, x2").unwrap_err();
    assert_eq!(e.kind, AsmErrorKind::WrongOperandCount);
    assert_eq!(e.token, "add");
    let e = compile(vec!["nop".to_string(), "ret x1".to_string()]).unwrap_err();
    assert_eq!(e.kind, AsmErrorKind::WrongOperandCount);
    assert_eq!(e.token, "ret");
    let e = compile(vec!["li a0".to_string()]).unwrap_err();
    assert_eq!(e.kind, AsmErrorKind::WrongOperandCount);
    let e = compile(vec!["call -4".to_string()]).unwrap_err();
    assert_eq!(e.kind, AsmErrorKind::BadImmediate);
    // pseudo-instructions are not base instructions
    let e = compile_line("nop").unwrap_err();
    assert_eq!(e.kind, AsmErrorKind::UnknownMnemonic);
}

#[test]
fn tokens_split_at_any_white_space() {
    assert_eq!(split_whitespace("  add\u{A0}x1,\u{3000}x2,\tx3 "), vec!["add", "x1,", "x2,", "x3"]);
    assert_eq!(split_whitespace(" \t "), Vec::<&str>::new());
    assert_eq!(one_word("add\u{2003}x1, x2, x3"), one_word("add x1, x2, x3"));
    assert_eq!(one_word("addi x05, x4, 007"), one_word("addi x5, x4, 7"));
}
