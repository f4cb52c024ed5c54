use mb8::assembler::{assemble, parse_reg, parse_u16_literal, parse_u8, AsmError};
use mb8::encode::encode_program;
use mb8::opcodes::Opcode;
use mb8::registers::Register;
use mb8::vm::VirtualMachine;

#[test]
fn test_parse_u16_literal_decimal_and_hex() {
    assert_eq!(parse_u16_literal(b"0"), Some(0));
    assert_eq!(parse_u16_literal(b"255"), Some(255));
    assert_eq!(parse_u16_literal(b"65535"), Some(65535));
    assert_eq!(parse_u16_literal(b"65536"), None);
    assert_eq!(parse_u16_literal(b"0x1F"), Some(0x1F));
    assert_eq!(parse_u16_literal(b"0XFFFF"), Some(0xFFFF));
    assert_eq!(parse_u16_literal(b"0x10000"), None);
    assert_eq!(parse_u16_literal(b""), None);
    assert_eq!(parse_u16_literal(b"0x"), None);
    assert_eq!(parse_u16_literal(b"12a"), None);
    assert_eq!(parse_u16_literal(b"0xG1"), None);
}

#[test]
fn test_parse_reg_accepts_r0_to_r7() {
    assert_eq!(parse_reg(b"R0", 1), Ok(0));
    assert_eq!(parse_reg(b"r7", 1), Ok(7));
    assert_eq!(parse_reg(b"R003", 1), Ok(3));
    assert_eq!(parse_reg(b"R8", 4), Err(AsmError::RegisterOutOfRange(4)));
    assert_eq!(parse_reg(b"R", 2), Err(AsmError::InvalidRegister(2)));
    assert_eq!(parse_reg(b"Rx", 2), Err(AsmError::InvalidRegister(2)));
    assert_eq!(parse_reg(b"R999", 2), Err(AsmError::InvalidRegister(2)));
    assert_eq!(parse_reg(b"5", 3), Err(AsmError::UnknownRegister(3)));
}

#[test]
fn test_parse_u8_bounds() {
    assert_eq!(parse_u8(b"255", 1), Ok(255));
    assert_eq!(parse_u8(b"0x2A", 1), Ok(0x2A));
    assert_eq!(parse_u8(b"256", 7), Err(AsmError::NumberTooWide(7)));
    assert_eq!(parse_u8(b"abc", 7), Err(AsmError::InvalidNumber(7)));
}

#[test]
fn test_assemble_program_with_label() {
    let source = b"start:\n  LDI R0, 5\n  LDI R1, 3\n  ADD R0, R1\nspin: JMP spin ; forever\n";
    let binary = assemble(source).unwrap();
    // `spin` sits at instruction offset 6, so the jump resolves to
    // 6 + 256 = 0x106.
    assert_eq!(
        binary,
        vec![0x20, 0x05, 0x21, 0x03, 0x11, 0x01, 0x31, 0x06]
    );
}

#[test]
fn test_assemble_matches_engine_encoding() {
    let source = b"NOP\nHALT 2\nMOV R1, R2\nSUB R3, R4\nRET\nPUSH R5\nPOP R6\nLD 0x200\nST 0x201\nJZ 8\nJNZ 0x10\nCALL 0\n";
    let program = vec![
        Opcode::Nop,
        Opcode::Halt { code: 2 },
        Opcode::Mov {
            dst: Register::R1,
            src: Register::R2,
        },
        Opcode::Sub {
            dst: Register::R3,
            src: Register::R4,
        },
        Opcode::Ret,
        Opcode::Push { src: Register::R5 },
        Opcode::Pop { dst: Register::R6 },
        Opcode::Ld { addr: 0x200 },
        Opcode::St { addr: 0x201 },
        Opcode::Jz { addr: 8 },
        Opcode::Jnz { addr: 0x10 },
        Opcode::Call { addr: 0 },
    ];
    assert_eq!(assemble(source).unwrap(), encode_program(&program));
}

#[test]
fn test_assembled_program_runs() {
    let source = b"LDI R0, 5\nLDI R1, 3\nADD R0, R1\nHALT 9\n";
    let binary = assemble(source).unwrap();
    let mut vm = VirtualMachine::new();
    vm.load_memory(&binary);
    vm.run();
    assert!(vm.halted);
    assert_eq!(vm.halt_code, 9);
    assert_eq!(vm.registers.read(Register::R0), 8);
}

#[test]
fn test_assemble_call_to_instruction_offset() {
    // The engine's call handler adds the code-region offset itself, so a
    // numeric call target is a plain instruction offset: calling 4 lands
    // on the third instruction.
    let source = b"CALL 4\nHALT 1\nHALT 9\n";
    let binary = assemble(source).unwrap();
    let mut vm = VirtualMachine::new();
    vm.load_memory(&binary);
    vm.run();
    assert!(vm.halted);
    assert_eq!(vm.halt_code, 9);
    assert_eq!(vm.registers.read(mb8::registers::Register::SP), 2);
}

#[test]
fn test_assemble_jump_through_label() {
    // Jump targets are absolute program-counter values, so a label —
    // recorded as an instruction offset — resolves with the code-region
    // offset added, exactly where the loader put that instruction.
    let source = b"JMP over\nHALT 1\nover: HALT 9\n";
    let binary = assemble(source).unwrap();
    let mut vm = VirtualMachine::new();
    vm.load_memory(&binary);
    vm.run();
    assert!(vm.halted);
    assert_eq!(vm.halt_code, 9);
}

#[test]
fn test_assemble_case_insensitive_mnemonics() {
    assert_eq!(
        assemble(b"nop\n").unwrap(),
        assemble(b"NOP\n").unwrap()
    );
    assert_eq!(assemble(b"halt").unwrap(), vec![0x01, 0x00]);
}

#[test]
fn test_assemble_rejects_bad_sources() {
    assert_eq!(assemble(b":\n"), Err(AsmError::EmptyLabel(1)));
    assert_eq!(
        assemble(b"a: NOP\na: NOP\n"),
        Err(AsmError::DuplicateLabel(2))
    );
    assert_eq!(assemble(b"FOO\n"), Err(AsmError::UnknownInstruction(1)));
    assert_eq!(assemble(b"NOP R0\n"), Err(AsmError::WrongArgumentCount(1)));
    assert_eq!(
        assemble(b"MOV R0\n"),
        Err(AsmError::WrongArgumentCount(1))
    );
    assert_eq!(assemble(b"JMP nowhere\n"), Err(AsmError::UnknownLabel(1)));
    assert_eq!(
        assemble(b"JMP 4096\n"),
        Err(AsmError::AddressOutOfRange(1))
    );
    assert_eq!(assemble(b"lbl: ,\n"), Err(AsmError::EmptyInstruction(1)));
    assert_eq!(
        assemble(b"MOV R0, R9\n"),
        Err(AsmError::RegisterOutOfRange(1))
    );
    assert_eq!(
        assemble(b"LDI R0, 300\n"),
        Err(AsmError::NumberTooWide(1))
    );
    assert_eq!(
        assemble(b"LDI R0, x\n"),
        Err(AsmError::InvalidNumber(1))
    );
    assert_eq!(
        assemble(b"PUSH Rq\n"),
        Err(AsmError::InvalidRegister(1))
    );
    assert_eq!(
        assemble(b"POP 3\n"),
        Err(AsmError::UnknownRegister(1))
    );
}

#[test]
fn test_assemble_rejects_too_large_program() {
    let mut source = Vec::new();
    for _ in 0..32769 {
        source.extend_from_slice(b"NOP\n");
    }
    assert_eq!(assemble(&source), Err(AsmError::ProgramTooLarge));
}

#[test]
fn test_assemble_skips_comments_and_blank_lines() {
    let source = b"; a comment\n\n   \nNOP ; trailing\n";
    assert_eq!(assemble(source).unwrap(), vec![0x00, 0x00]);
}
