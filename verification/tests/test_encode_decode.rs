use mb8::decode::decode;
use mb8::encode::encode;
use mb8::opcodes::{Opcode, Syscall};
use mb8::registers::Register;

#[test]
fn test_round_trip() {
    {
        let opcode = Opcode::Nop;
        let bin = encode(&opcode);
        assert_eq!(decode(bin), Some(opcode));
    }
    {
        let opcode = Opcode::Halt { code: 0 };
        let bin = encode(&opcode);
        assert_eq!(decode(bin), Some(opcode));
    }
    {
        let opcode = Opcode::Mov {
            dst: Register::R0,
            src: Register::R1,
        };
        let bin = encode(&opcode);
        assert_eq!(decode(bin), Some(opcode));
    }
    {
        let opcode = Opcode::Add {
            dst: Register::R0,
            src: Register::R1,
        };
        let bin = encode(&opcode);
        assert_eq!(decode(bin), Some(opcode));
    }
    {
        let opcode = Opcode::Sub {
            dst: Register::R0,
            src: Register::R1,
        };
        let bin = encode(&opcode);
        assert_eq!(decode(bin), Some(opcode));
    }
    {
        let opcode = Opcode::Ldi {
            dst: Register::R0,
            value: 0x12,
        };
        let bin = encode(&opcode);
        assert_eq!(decode(bin), Some(opcode));
    }
    {
        let opcode = Opcode::Jmp { addr: 0x123 };
        let bin = encode(&opcode);
        assert_eq!(decode(bin), Some(opcode));
    }
    {
        let opcode = Opcode::Jz { addr: 0x123 };
        let bin = encode(&opcode);
        assert_eq!(decode(bin), Some(opcode));
    }
    {
        let opcode = Opcode::Jnz { addr: 0x123 };
        let bin = encode(&opcode);
        assert_eq!(decode(bin), Some(opcode));
    }
    {
        let opcode = Opcode::Call { addr: 0x123 };
        let bin = encode(&opcode);
        assert_eq!(decode(bin), Some(opcode));
    }
    {
        let opcode = Opcode::Ret;
        let bin = encode(&opcode);
        assert_eq!(decode(bin), Some(opcode));
    }
    {
        let opcode = Opcode::Ld { addr: 0x12 };
        let bin = encode(&opcode);
        assert_eq!(decode(bin), Some(opcode));
    }
    {
        let opcode = Opcode::St { addr: 0x12 };
        let bin = encode(&opcode);
        assert_eq!(decode(bin), Some(opcode));
    }
}

#[test]
fn test_round_trip_stack_and_global() {
    {
        let opcode = Opcode::Push { src: Register::R5 };
        let bin = encode(&opcode);
        assert_eq!(decode(bin), Some(opcode));
    }
    {
        let opcode = Opcode::Pop { dst: Register::SP };
        let bin = encode(&opcode);
        assert_eq!(decode(bin), Some(opcode));
    }
    {
        let opcode = Opcode::Ldg {
            dst: Register::R2,
            bot: Register::I,
        };
        let bin = encode(&opcode);
        assert_eq!(decode(bin), Some(opcode));
    }
    {
        let opcode = Opcode::Stg {
            src: Register::R7,
            bot: Register::F,
        };
        let bin = encode(&opcode);
        assert_eq!(decode(bin), Some(opcode));
    }
    {
        let opcode = Opcode::Sys {
            syscall: Syscall::Putc,
            src: Register::R1,
        };
        let bin = encode(&opcode);
        assert_eq!(decode(bin), Some(opcode));
    }
    {
        let opcode = Opcode::Halt { code: 0xFF };
        let bin = encode(&opcode);
        assert_eq!(decode(bin), Some(opcode));
    }
    {
        let opcode = Opcode::Ldi {
            dst: Register::PC,
            value: 0xAB,
        };
        let bin = encode(&opcode);
        assert_eq!(decode(bin), Some(opcode));
    }
}

#[test]
fn test_decode_rejects_invalid_words() {
    // Control group: only no-op and halt exist.
    assert_eq!(decode(0x0200), None);
    assert_eq!(decode(0x0FFF), None);
    // ALU group: sub-selectors above subtract are invalid.
    assert_eq!(decode(0x1300), None);
    assert_eq!(decode(0x1F00), None);
    // Register codes 0x8 to 0xB name no register.
    assert_eq!(decode(0x1008), None);
    assert_eq!(decode(0x1080), None);
    assert_eq!(decode(0x10B0), None);
    // Immediate load with an invalid destination code.
    assert_eq!(decode(0x2812), None);
    // Stack group: invalid sub-selector, stray low bits on return,
    // push/pop with nonzero low nibble or an invalid register code.
    assert_eq!(decode(0x7300), None);
    assert_eq!(decode(0x7005), None);
    assert_eq!(decode(0x7101), None);
    assert_eq!(decode(0x7180), None);
    assert_eq!(decode(0x72A0), None);
    // Global load/store: nonzero sub-selector or invalid register code.
    assert_eq!(decode(0xA100), None);
    assert_eq!(decode(0xA008), None);
    assert_eq!(decode(0xB900), None);
    assert_eq!(decode(0xB00A), None);
    // System call group: unknown selector or stray low bits.
    assert_eq!(decode(0xC100), None);
    assert_eq!(decode(0xC001), None);
    assert_eq!(decode(0xC090), None);
    // Groups with no opcodes at all.
    assert_eq!(decode(0xD000), None);
    assert_eq!(decode(0xE000), None);
    assert_eq!(decode(0xFFFF), None);
}

#[test]
fn test_decode_accepts_every_group() {
    assert_eq!(decode(0x0000), Some(Opcode::Nop));
    assert_eq!(decode(0x0107), Some(Opcode::Halt { code: 7 }));
    assert_eq!(
        decode(0x10D1),
        Some(Opcode::Mov {
            dst: Register::SP,
            src: Register::R1
        })
    );
    assert_eq!(
        decode(0x2E55),
        Some(Opcode::Ldi {
            dst: Register::PC,
            value: 0x55
        })
    );
    assert_eq!(decode(0x3FFF), Some(Opcode::Jmp { addr: 0xFFF }));
    assert_eq!(decode(0x8001), Some(Opcode::Ld { addr: 0x001 }));
    assert_eq!(decode(0x9FFF), Some(Opcode::St { addr: 0xFFF }));
}
