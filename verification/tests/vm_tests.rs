use mb8::encode::encode_program;
use mb8::mem::{CONSOLE_PORT, FRAME_BUFFER_BASE, RNG_PORT};
use mb8::opcodes::{Opcode, Syscall};
use mb8::registers::{Register, N_FLAG, V_FLAG, Z_FLAG};
use mb8::vm::{Role, VirtualMachine};
use mb8::STACK_SIZE;

#[test]
fn test_mov_truncates_to_destination_width() {
    let mut vm = VirtualMachine::new();
    vm.registers.write(Register::PC, 0x1234);
    vm.execute(&Opcode::Mov {
        dst: Register::R0,
        src: Register::PC,
    });
    assert_eq!(vm.registers.read(Register::R0), 0x34);
}

#[test]
fn test_ldi_loads_immediate() {
    let mut vm = VirtualMachine::new();
    vm.execute(&Opcode::Ldi {
        dst: Register::R5,
        value: 0xAB,
    });
    assert_eq!(vm.registers.read(Register::R5), 0xAB);
}

#[test]
fn test_add_signed_overflow_flag() {
    // 127 + 1 overflows as a signed 8-bit addition: negative and
    // overflow set, carry clear.
    let mut vm = VirtualMachine::new();
    vm.registers.write(Register::R0, 127);
    vm.registers.write(Register::R1, 1);
    vm.execute(&Opcode::Add {
        dst: Register::R0,
        src: Register::R1,
    });
    assert_eq!(vm.registers.read(Register::R0), 128);
    assert_eq!(vm.registers.read(Register::F), (N_FLAG | V_FLAG) as u16);
}

#[test]
fn test_sub_zero_flag() {
    let mut vm = VirtualMachine::new();
    vm.registers.write(Register::R0, 9);
    vm.registers.write(Register::R1, 9);
    vm.execute(&Opcode::Sub {
        dst: Register::R0,
        src: Register::R1,
    });
    assert_eq!(vm.registers.read(Register::R0), 0);
    assert_eq!(vm.registers.read(Register::F), Z_FLAG as u16);
}

#[test]
fn test_jz_taken_and_not_taken() {
    let mut vm = VirtualMachine::new();
    vm.registers.write(Register::F, Z_FLAG as u16);
    vm.execute(&Opcode::Jz { addr: 0x300 });
    assert_eq!(vm.registers.read(Register::PC), 0x300);

    let mut vm = VirtualMachine::new();
    vm.registers.write(Register::F, 0);
    vm.execute(&Opcode::Jz { addr: 0x300 });
    assert_eq!(vm.registers.read(Register::PC), STACK_SIZE);
}

#[test]
fn test_jnz_taken_and_not_taken() {
    let mut vm = VirtualMachine::new();
    vm.registers.write(Register::F, 0);
    vm.execute(&Opcode::Jnz { addr: 0x300 });
    assert_eq!(vm.registers.read(Register::PC), 0x300);

    let mut vm = VirtualMachine::new();
    vm.registers.write(Register::F, Z_FLAG as u16);
    vm.execute(&Opcode::Jnz { addr: 0x300 });
    assert_eq!(vm.registers.read(Register::PC), STACK_SIZE);
}

#[test]
fn test_call_stack_overflow_leaves_registers_unmodified() {
    // Stack overflow halts, not wraps: with two bytes short of the
    // region, a call halts the machine and changes nothing else.
    let mut vm = VirtualMachine::new();
    vm.registers.write(Register::R3, 0x44);
    vm.registers.write(Register::SP, STACK_SIZE - 2);
    vm.execute(&Opcode::Call { addr: 0x100 });
    assert!(vm.halted);
    assert_eq!(vm.registers.read(Register::SP), STACK_SIZE - 2);
    assert_eq!(vm.registers.read(Register::PC), STACK_SIZE);
    assert_eq!(vm.registers.read(Register::R3), 0x44);
    assert_eq!(vm.registers.read(Register::F), 0);
}

#[test]
fn test_call_ret_round_trip_scenario() {
    // Starting PC=0x100, SP=0: call pushes 0x100 at the top of the
    // stack region, lands at 0x100 plus the stack region size, and an
    // immediate return restores PC and SP.
    let mut vm = VirtualMachine::new();
    vm.registers.write(Register::PC, 0x100);
    vm.registers.write(Register::SP, 0);
    vm.execute(&Opcode::Call { addr: 0x100 });
    assert_eq!(vm.registers.read(Register::SP), 2);
    assert_eq!(vm.registers.read(Register::PC), 0x100 + STACK_SIZE);
    assert_eq!(vm.mem.read_u16(STACK_SIZE - 2), 0x100);
    vm.execute(&Opcode::Ret);
    assert_eq!(vm.registers.read(Register::SP), 0);
    assert_eq!(vm.registers.read(Register::PC), 0x100);
    assert!(!vm.halted);
}

#[test]
fn test_agent_mailbox_isolation() {
    // An agent reads and writes only its own mailbox, whatever the
    // operand register holds.
    let mut vm = VirtualMachine::new();
    vm.role = Role::Bot(1);
    vm.registers.write(Register::I, 0x10);
    vm.registers.write(Register::R0, 0x5A);
    vm.registers.write(Register::R1, 7);
    vm.execute(&Opcode::Stg {
        src: Register::R0,
        bot: Register::R1,
    });
    assert_eq!(vm.mem.mailbox_read(1, 0x10), 0x5A);
    assert_eq!(vm.mem.mailbox_read(7, 0x10), 0);

    vm.registers.write(Register::R4, 3);
    vm.execute(&Opcode::Ldg {
        dst: Register::R2,
        bot: Register::R4,
    });
    assert_eq!(vm.registers.read(Register::R2), 0x5A);
}

#[test]
fn test_arbiter_reaches_named_mailbox() {
    // The arbiter writes agent 2's mailbox through an operand register;
    // a machine running as agent 2 over the same mailbox bytes reads the
    // byte back.
    let mut arbiter = VirtualMachine::new();
    arbiter.registers.write(Register::I, 0x08);
    arbiter.registers.write(Register::R0, 0xC3);
    arbiter.registers.write(Register::R1, 2);
    arbiter.execute(&Opcode::Stg {
        src: Register::R0,
        bot: Register::R1,
    });
    assert_eq!(arbiter.mem.mailbox_read(2, 0x08), 0xC3);

    let mut agent = VirtualMachine::new();
    agent.role = Role::Bot(2);
    for offset in 0..=255u8 {
        let byte = arbiter.mem.mailbox_read(2, offset);
        agent.mem.mailbox_write(2, offset, byte);
    }
    agent.registers.write(Register::I, 0x08);
    agent.execute(&Opcode::Ldg {
        dst: Register::R3,
        bot: Register::R6,
    });
    assert_eq!(agent.registers.read(Register::R3), 0xC3);
}

#[test]
fn test_global_access_to_unknown_agent_halts() {
    let mut vm = VirtualMachine::new();
    vm.registers.write(Register::R1, 200);
    vm.execute(&Opcode::Ldg {
        dst: Register::R0,
        bot: Register::R1,
    });
    assert!(vm.halted);
}

#[test]
fn test_frame_buffer_bit_addressing() {
    // Writing byte 0x80 to row 0 sets pixel (0,0) and leaves pixels
    // (1..7, 0) clear.
    let mut vm = VirtualMachine::new();
    vm.mem.write_u8(FRAME_BUFFER_BASE, 0x80);
    let gfx = vm.mem.graphic_buffer();
    assert!(gfx.get_pixel(0, 0));
    for x in 1..8u8 {
        assert!(!gfx.get_pixel(x, 0));
    }
}

#[test]
fn test_frame_buffer_second_byte_and_row() {
    let mut vm = VirtualMachine::new();
    vm.mem.write_u8(FRAME_BUFFER_BASE + 1, 0x01);
    vm.mem.write_u8(FRAME_BUFFER_BASE + 8, 0x40);
    let gfx = vm.mem.graphic_buffer();
    assert!(gfx.get_pixel(15, 0));
    assert!(!gfx.get_pixel(14, 0));
    assert!(gfx.get_pixel(1, 1));
    assert!(!gfx.get_pixel(0, 1));
}

#[test]
fn test_sys_putc_appends_to_console() {
    let mut vm = VirtualMachine::new();
    vm.registers.write(Register::R0, b'A' as u16);
    vm.execute(&Opcode::Sys {
        syscall: Syscall::Putc,
        src: Register::R0,
    });
    vm.registers.write(Register::R0, b'B' as u16);
    vm.execute(&Opcode::Sys {
        syscall: Syscall::Putc,
        src: Register::R0,
    });
    assert_eq!(vm.mem.console_bytes().as_slice(), b"AB");
}

#[test]
fn test_store_to_console_port_appends() {
    let mut vm = VirtualMachine::new();
    vm.registers.write(Register::R7, b'x' as u16);
    vm.execute(&Opcode::St { addr: CONSOLE_PORT });
    assert_eq!(vm.mem.console_bytes().as_slice(), b"x");
}

#[test]
fn test_rng_port_steps_on_read() {
    let mut vm = VirtualMachine::new();
    vm.mem.write_u8(RNG_PORT, 1);
    assert_eq!(vm.mem.read_u8(RNG_PORT), 1);
    assert_eq!(vm.mem.read_u8(RNG_PORT), 2);
    assert_eq!(vm.mem.read_u8(RNG_PORT), 4);
    // The generator never leaves a nonzero state for zero.
    vm.mem.write_u8(RNG_PORT, 0x80);
    assert_eq!(vm.mem.read_u8(RNG_PORT), 0x80);
    assert_eq!(vm.mem.read_u8(RNG_PORT), 0x1D);
}

#[test]
fn test_run_program_to_halt() {
    // A whole program through load, fetch, decode and execute: R0 = 5,
    // R1 = 3, R0 += R1, halt with code 7.
    let program = vec![
        Opcode::Ldi {
            dst: Register::R0,
            value: 5,
        },
        Opcode::Ldi {
            dst: Register::R1,
            value: 3,
        },
        Opcode::Add {
            dst: Register::R0,
            src: Register::R1,
        },
        Opcode::Halt { code: 7 },
    ];
    let binary = encode_program(&program);
    let mut vm = VirtualMachine::new();
    vm.load_memory(&binary);
    vm.run();
    assert!(vm.halted);
    assert_eq!(vm.halt_code, 7);
    assert_eq!(vm.registers.read(Register::R0), 8);
    assert_eq!(vm.registers.read(Register::PC), STACK_SIZE + 8);
}

#[test]
fn test_step_halts_on_decode_failure() {
    let mut vm = VirtualMachine::new();
    vm.load_memory(&[0xFF, 0xFF]);
    vm.step();
    assert!(vm.halted);
}

#[test]
fn test_step_halts_on_pc_out_of_range() {
    let mut vm = VirtualMachine::new();
    vm.registers.write(Register::PC, 0xFFFF);
    vm.step();
    assert!(vm.halted);
    assert_eq!(vm.registers.read(Register::PC), 0xFFFF);
}

#[test]
fn test_step_does_nothing_when_halted() {
    let mut vm = VirtualMachine::new();
    vm.halted = true;
    vm.registers.write(Register::PC, 0x123);
    vm.step();
    assert_eq!(vm.registers.read(Register::PC), 0x123);
    assert!(vm.halted);
}

#[test]
fn test_call_target_offset_by_stack_region() {
    // A program assembled with a label at instruction offset 0 calls
    // address 0 + stack-region size, where the loader put that
    // instruction.
    let program = vec![
        Opcode::Call { addr: 4 },
        Opcode::Halt { code: 1 },
        Opcode::Halt { code: 9 },
    ];
    let binary = encode_program(&program);
    let mut vm = VirtualMachine::new();
    vm.load_memory(&binary);
    vm.step();
    assert_eq!(vm.registers.read(Register::PC), 4 + STACK_SIZE as u16);
    vm.step();
    assert!(vm.halted);
    assert_eq!(vm.halt_code, 9);
}

#[test]
fn test_ld_from_rng_port_draws_a_byte() {
    let mut vm = VirtualMachine::new();
    vm.mem.write_u8(RNG_PORT, 7);
    vm.execute(&Opcode::Ld { addr: RNG_PORT });
    assert_eq!(vm.registers.read(Register::R0), 7);
    vm.execute(&Opcode::Ld { addr: RNG_PORT });
    assert_eq!(vm.registers.read(Register::R0), 14);
}

#[test]
fn test_region_values_carry_bounds_and_bytes() {
    let mut vm = VirtualMachine::new();
    vm.mem.write_u8(FRAME_BUFFER_BASE + 3, 0xAA);
    let mut gfx = vm.mem.graphic_buffer();
    assert_eq!(gfx.begin(), FRAME_BUFFER_BASE);
    assert_eq!(gfx.end(), FRAME_BUFFER_BASE + 0x100);
    assert_eq!(gfx.read(3), 0xAA);
    gfx.write(3, 0x55);
    assert_eq!(gfx.read(3), 0x55);

    vm.mem.mailbox_write(4, 9, 0x33);
    let mailbox = vm.mem.bot_mailbox(4);
    assert_eq!(mailbox.end() - mailbox.begin(), 0x100);
    assert_eq!(mailbox.read(9), 0x33);
}
