use mb8::encode::{encode, encode_program, encode_register};
use mb8::opcodes::Opcode;
use mb8::registers::Register;

#[test]
fn test_encode_register() {
    assert_eq!(encode_register(Register::R0), 0x0);
    assert_eq!(encode_register(Register::R1), 0x1);
    assert_eq!(encode_register(Register::R2), 0x2);
    assert_eq!(encode_register(Register::R3), 0x3);
    assert_eq!(encode_register(Register::R4), 0x4);
    assert_eq!(encode_register(Register::R5), 0x5);
    assert_eq!(encode_register(Register::R6), 0x6);
    assert_eq!(encode_register(Register::R7), 0x7);
    assert_eq!(encode_register(Register::SP), 0xD);
    assert_eq!(encode_register(Register::PC), 0xE);
    assert_eq!(encode_register(Register::F), 0xF);
}

#[test]
fn test_encode_index_register() {
    assert_eq!(encode_register(Register::I), 0xC);
}

#[test]
fn test_encode_program() {
    let program = vec![Opcode::Nop, Opcode::Halt { code: 0 }];
    assert_eq!(encode_program(&program), vec![0x00, 0x00, 0x01, 0x00]);
}

#[test]
fn test_encode_nop() {
    assert_eq!(encode(&Opcode::Nop), 0x0000);
}

#[test]
fn test_encode_halt() {
    assert_eq!(encode(&Opcode::Halt { code: 0 }), 0x0100);
}

#[test]
fn test_encode_halt_code() {
    assert_eq!(encode(&Opcode::Halt { code: 0x2A }), 0x012A);
}

#[test]
fn test_encode_mov() {
    assert_eq!(
        encode(&Opcode::Mov {
            dst: Register::R0,
            src: Register::R1
        }),
        0x1001
    );
}

#[test]
fn test_encode_add() {
    assert_eq!(
        encode(&Opcode::Add {
            dst: Register::R0,
            src: Register::R1
        }),
        0x1101
    );
}

#[test]
fn test_encode_sub() {
    assert_eq!(
        encode(&Opcode::Sub {
            dst: Register::R0,
            src: Register::R1
        }),
        0x1201
    );
}

#[test]
fn test_encode_ldi() {
    assert_eq!(
        encode(&Opcode::Ldi {
            dst: Register::R0,
            value: 0x12
        }),
        0x2012
    );
}

#[test]
fn test_encode_ldi_high_register() {
    assert_eq!(
        encode(&Opcode::Ldi {
            dst: Register::R3,
            value: 0x12
        }),
        0x2312
    );
}

#[test]
fn test_encode_jmp() {
    assert_eq!(encode(&Opcode::Jmp { addr: 0x123 }), 0x3123);
}

#[test]
fn test_encode_jz() {
    assert_eq!(encode(&Opcode::Jz { addr: 0x123 }), 0x4123);
}

#[test]
fn test_encode_jnz() {
    assert_eq!(encode(&Opcode::Jnz { addr: 0x123 }), 0x5123);
}

#[test]
fn test_encode_call() {
    assert_eq!(encode(&Opcode::Call { addr: 0x123 }), 0x6123);
}

#[test]
fn test_encode_ret() {
    assert_eq!(encode(&Opcode::Ret), 0x7000);
}

#[test]
fn test_encode_push() {
    assert_eq!(encode(&Opcode::Push { src: Register::R3 }), 0x7130);
}

#[test]
fn test_encode_pop() {
    assert_eq!(encode(&Opcode::Pop { dst: Register::R3 }), 0x7230);
}

#[test]
fn test_encode_ld() {
    assert_eq!(
        encode(&Opcode::Ld { addr: 0x123 }),
        0x8000 | (Register::R0 as u16) << 4 | 0x123
    );
}

#[test]
fn test_encode_st() {
    assert_eq!(
        encode(&Opcode::St { addr: 0x123 }),
        0x9000 | (Register::R0 as u16) << 4 | 0x123
    );
}

#[test]
fn test_encode_ldg() {
    assert_eq!(
        encode(&Opcode::Ldg {
            dst: Register::R0,
            bot: Register::R1
        }),
        0xA001
    );
}

#[test]
fn test_encode_stg() {
    assert_eq!(
        encode(&Opcode::Stg {
            src: Register::R0,
            bot: Register::R1
        }),
        0xB001
    );
}

#[test]
fn test_encode_sys() {
    assert_eq!(
        encode(&Opcode::Sys {
            syscall: mb8::opcodes::Syscall::Putc,
            src: Register::R2
        }),
        0xC020
    );
}
