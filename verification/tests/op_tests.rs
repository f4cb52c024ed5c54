use mb8::opcodes::Opcode;
use mb8::registers::{Register, Registers, C_FLAG, N_FLAG, Z_FLAG};
use mb8::vm::{Role, VirtualMachine};
use mb8::STACK_SIZE;

#[test]
fn test_opcode_add() {
    // VM adds two registers and stores the result in a third register
    let mut vm = VirtualMachine::new();
    vm.registers.write(Register::R0, 5);
    vm.registers.write(Register::R1, 3);
    vm.execute(&Opcode::Add {
        dst: Register::R0,
        src: Register::R1,
    });
    assert_eq!(vm.registers.read(Register::R0), 8);
}

#[test]
fn test_opcode_add_clear_flags() {
    // VM clear the flags register before executing ADD instruction
    let mut vm = VirtualMachine::new();
    vm.registers.write(Register::F, 0xFF);
    vm.registers.write(Register::R0, 5);
    vm.registers.write(Register::R1, 3);
    vm.execute(&Opcode::Add {
        dst: Register::R0,
        src: Register::R1,
    });
    vm.registers.write(Register::R0, 8);
    assert_eq!(vm.registers.read(Register::F), 0);
}

#[test]
fn test_opcode_add_zero() {
    // VM clear the flags register before executing ADD instruction
    let mut vm = VirtualMachine::new();
    vm.execute(&Opcode::Add {
        dst: Register::R0,
        src: Register::R1,
    });
    vm.registers.write(Register::R0, 0);
    assert_eq!(vm.registers.read(Register::F), Z_FLAG as u16);
}

#[test]
fn test_opcode_add_overflow() {
    // VM handles addition overflow by wrapping around and setting the carry flag
    let mut vm = VirtualMachine::new();
    vm.registers.write(Register::R0, 255);
    vm.registers.write(Register::R1, 255);
    vm.execute(&Opcode::Add {
        dst: Register::R0,
        src: Register::R1,
    });
    assert_eq!(vm.registers.read(Register::R0), 254);
    assert_eq!(vm.registers.read(Register::F), (C_FLAG | N_FLAG) as u16);
}

#[test]
fn test_opcode_call() {
    // VM calls a subroutine at a given address
    let mut vm = VirtualMachine::new();
    vm.registers.write(Register::PC, 0x100);
    vm.execute(&Opcode::Call { addr: 0x100 });
    assert_eq!(vm.registers.read(Register::SP), 2);
    assert_eq!(vm.registers.read(Register::PC), 0x200);
    assert_eq!(vm.mem.read_u16(STACK_SIZE - 2), 0x100);
}

#[test]
fn test_opcode_call_stack_overflow() {
    // VM halts when the stack overflows
    let mut vm = VirtualMachine::new();
    vm.registers.write(Register::SP, STACK_SIZE - 2);
    vm.execute(&Opcode::Call { addr: 0x456 });
    assert!(vm.halted);
}

#[test]
fn test_opcode_jmp() {
    // VM jumps to a specific address
    let mut vm = VirtualMachine::default();
    vm.registers.write(Register::PC, 0x100);
    vm.execute(&Opcode::Jmp { addr: 0x200 });
    assert_eq!(vm.registers.read(Register::PC), 0x200);
}

#[test]
fn test_opcode_ld() {
    // VM loads a value from memory into a register
    let mut vm = VirtualMachine::new();
    vm.mem.write_u8(0x200, 0x12);
    vm.execute(&Opcode::Ld { addr: 0x200 });
    assert_eq!(vm.registers.read(Register::R0), 0x12);
}

#[test]
fn test_opcode_ldg() {
    // VM loads data from shared global memory
    let mut vm = VirtualMachine::default();
    vm.mem.mailbox_write(1, 0x10, 0x77);
    vm.registers.write(Register::I, 0x10);
    vm.registers.write(Register::R1, 1);
    vm.role = Role::Judge;
    vm.execute(&Opcode::Ldg {
        dst: Register::R0,
        bot: Register::R1,
    });
    assert_eq!(vm.registers.read(Register::R0), 0x77);
}

#[test]
fn test_opcode_pop() {
    // VM pops a value from the stack
    let mut vm = VirtualMachine::new();
    vm.registers.write(Register::SP, 1);
    vm.mem.write_u8(STACK_SIZE - 1, 0x45);
    vm.execute(&Opcode::Pop { dst: Register::R0 });
    assert_eq!(vm.registers.read(Register::SP), 0);
    assert_eq!(vm.registers.read(Register::R0), 0x45);
}

#[test]
fn test_opcode_pop_stack_underflow() {
    // VM halts when the stack underflows
    let mut vm = VirtualMachine::new();
    vm.registers.write(Register::SP, 0);
    vm.execute(&Opcode::Pop { dst: Register::R0 });
    assert!(vm.halted);
}

#[test]
fn test_opcode_push() {
    // VM pushes a value onto the stack
    let mut vm = VirtualMachine::new();
    vm.registers.write(Register::R0, 0x45);
    vm.execute(&Opcode::Push { src: Register::R0 });
    assert_eq!(vm.registers.read(Register::SP), 1);
    assert_eq!(vm.mem.read_u8(STACK_SIZE - 1), 0x45);
}

#[test]
fn test_opcode_push_stack_overflow() {
    // VM halts when the stack overflows
    let mut vm = VirtualMachine::new();
    vm.registers.write(Register::SP, STACK_SIZE - 1);
    vm.registers.write(Register::R0, 0x45);
    vm.execute(&Opcode::Push { src: Register::R0 });
    assert!(vm.halted);
}

#[test]
fn test_opcode_ret() {
    // VM returns from a subroutine
    let mut vm = VirtualMachine::new();
    vm.registers.write(Register::PC, 0x100);
    vm.execute(&Opcode::Call { addr: 0x100 });
    assert_eq!(vm.registers.read(Register::SP), 2);
    assert_eq!(vm.registers.read(Register::PC), 0x200);
    assert_eq!(vm.mem.read_u16(STACK_SIZE - 2), 0x100);
    vm.execute(&Opcode::Ret);
    assert_eq!(vm.registers.read(Register::SP), 0);
    assert_eq!(vm.registers.read(Register::PC), 0x100);
}

#[test]
fn test_opcode_ret_stack_underflow() {
    // VM returns from a subroutine
    let mut vm = VirtualMachine::new();
    vm.execute(&Opcode::Ret);
    assert_eq!(vm.registers.read(Register::SP), 0);
    assert_eq!(vm.registers.read(Register::PC), STACK_SIZE);
    assert!(vm.halted);
}

#[test]
fn test_opcode_st() {
    // VM save register value to memory
    let mut vm = VirtualMachine::new();
    vm.registers.write(Register::R7, 0x12);
    vm.execute(&Opcode::St { addr: 0x200 });
    assert_eq!(vm.mem.read_u8(0x200), 0x12);
}

#[test]
fn test_opcode_stg() {
    // VM loads data from memory
    let mut vm = VirtualMachine::default();
    vm.registers.write(Register::I, 0x10);
    vm.registers.write(Register::R0, 0x77);
    vm.registers.write(Register::R1, 1);
    vm.execute(&Opcode::Stg {
        src: Register::R0,
        bot: Register::R1,
    });
    assert_eq!(vm.mem.bot_mailbox(1).read(0x10), 0x77);
}

#[test]
fn test_opcode_sub() {
    // VM subtracts two registers and stores the result in a third register
    let mut vm = VirtualMachine::new();
    vm.registers.write(Register::R0, 5);
    vm.registers.write(Register::R1, 3);
    vm.execute(&Opcode::Sub {
        dst: Register::R0,
        src: Register::R1,
    });
    assert_eq!(vm.registers.read(Register::R0), 2);
}

#[test]
fn test_opcode_sub_overflow() {
    // VM handles subtraction overflow by wrapping around and setting the
    // borrow and negative flags; all flags are recomputed on every ALU
    // operation, with the same convention as addition.
    let mut vm = VirtualMachine::new();
    vm.registers.write(Register::R0, 1);
    vm.registers.write(Register::R1, 2);
    vm.execute(&Opcode::Sub {
        dst: Register::R0,
        src: Register::R1,
    });
    assert_eq!(vm.registers.read(Register::R0), 255);
    assert_eq!(vm.registers.read(Register::F), (C_FLAG | N_FLAG) as u16);
}

#[test]
fn test_opcode_sys_putc() {
    // VM prints the value of the source register
}

#[test]
fn test_read_general_purpose_register() {
    let mut registers = Registers::default();
    for gpr in [
        Register::R0,
        Register::R1,
        Register::R2,
        Register::R3,
        Register::R4,
        Register::R5,
        Register::R6,
        Register::R7,
    ] {
        registers.write(gpr, 42);
        assert_eq!(registers.read(gpr), 42);
    }
}
