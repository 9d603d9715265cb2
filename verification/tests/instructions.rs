use toy_vm::{Instruction, Reg, Status, VM};

fn decode(word: u16) -> Instruction {
    Instruction::decode(word).unwrap()
}

#[test]
fn test_exec_add_reg() {
    let mut vm = VM::default();

    vm.set_register(Reg::R1, 0b0000000000000100); // 4
    vm.set_register(Reg::R2, 0b0000000000000011); // 3

    let op = decode(0b0001_000_001_0_00_010);
    vm.execute(op).unwrap();
    assert_eq!(vm.register(Reg::R0), 0b0000000000000111); // 7
    assert_eq!(vm.register(Reg::RPC), 0x3000);
}

#[test]
fn test_exec_add_const() {
    let mut vm = VM::default();
    vm.set_register(Reg::R3, 0b1111_1111_1111_0111); // -9

    let op = decode(0b0001_000_011_1_00111); // Add R3 + 7
    vm.execute(op).unwrap();

    assert_eq!(vm.register(Reg::R0), 0b1111_1111_1111_1110); // -2
    assert_eq!(vm.register(Reg::RPC), 0x3000);
}

#[test]
fn test_exec_and_reg() {
    let mut vm = VM::default();
    vm.set_register(Reg::R4, 0b1010101010101010);
    vm.set_register(Reg::R5, 0b0101010101010101);

    let op = decode(0b0101000001000010);
    vm.execute(op).unwrap();

    assert_eq!(vm.register(Reg::R0), 0);
    assert_eq!(vm.register(Reg::RPC), 0x3000);
}

#[test]
fn test_exec_and_const() {
    let mut vm = VM::default();
    vm.set_register(Reg::R6, 0b1010101010101010);

    let op = decode(0b0101_000_110_110101); // AndConst Dr=R0 Sr=R6 const=110101
    vm.execute(op).unwrap();

    assert_eq!(vm.register(Reg::R0), 0b1010101010100000);
    assert_eq!(vm.register(Reg::RPC), 0x3000);
}

#[test]
fn test_exec_ld() {
    let mut vm = VM::default();
    vm.write_memory(0x2FFF, 718);

    let op = decode(0b0010_110_111111111); // Ld Dr=R6 offset=-1
    vm.execute(op).unwrap();

    assert_eq!(vm.register(Reg::R6), 718);
    assert_eq!(vm.register(Reg::RPC), 0x3000);
}

#[test]
fn test_exec_ldi() {
    let mut vm = VM::default();
    vm.write_memory(0x2FFF, 7);
    vm.write_memory(7, 18);

    let op = decode(0b1010_101_111111111); // Ldi Dr=R5 offset=-1
    vm.execute(op).unwrap();

    assert_eq!(vm.register(Reg::R5), 18);
    assert_eq!(vm.register(Reg::RPC), 0x3000);
}

#[test]
fn test_exec_ldr() {
    let mut vm = VM::default();
    vm.write_memory(0xFFFF, 718);
    vm.set_register(Reg::R7, 0xFFFE);

    let op = decode(0b0110_010_111_000001); // Ldr Dr=R2 baseR=R7 offset=1
    vm.execute(op).unwrap();

    assert_eq!(vm.register(Reg::R2), 718);
    assert_eq!(vm.register(Reg::RPC), 0x3000);
}

#[test]
fn test_exec_lea() {
    let mut vm = VM::default();

    let op = decode(0b1110_011_111111111); // Lea Dr=R3 offset=-1
    vm.execute(op).unwrap();

    assert_eq!(vm.register(Reg::R3), 0x2FFF);
    assert_eq!(vm.register(Reg::RPC), 0x3000);
}

#[test]
fn test_exec_not() {
    let mut vm = VM::default();
    vm.set_register(Reg::R1, 0xF0F0);

    let op = decode(0b1001_000_001_111111); // Not Dr=R0 Sr=R1
    vm.execute(op).unwrap();

    assert_eq!(vm.register(Reg::R0), 0x0F0F);
    assert_eq!(vm.register(Reg::RPC), 0x3000);
}

#[test]
fn test_exec_st() {
    let mut vm = VM::default();
    vm.set_register(Reg::R2, 718);

    let op = decode(0b0011_010_111111111); // St Sr=R2 offset=-1
    vm.execute(op).unwrap();

    assert_eq!(vm.read_memory(0x2FFF), 718);
    assert_eq!(vm.register(Reg::RPC), 0x3000);
}

#[test]
fn test_exec_sti() {
    let mut vm = VM::default();
    vm.set_register(Reg::R3, 718);
    vm.write_memory(0x2FFF, 0xFFFF);

    let op = decode(0b1011_011_111111111); // Sti Sr=R3 offset=-1
    vm.execute(op).unwrap();

    assert_eq!(vm.read_memory(0xFFFF), 718);
    assert_eq!(vm.register(Reg::RPC), 0x3000);
}

#[test]
fn test_exec_str() {
    let mut vm = VM::default();
    vm.set_register(Reg::R4, 718);
    vm.set_register(Reg::R5, 0xFF00);

    let op = decode(0b0111_100_101_111111); // Str Sr=R4 BaseR=R5 offset=-1
    vm.execute(op).unwrap();

    assert_eq!(vm.read_memory(0xFEFF), 718);
    assert_eq!(vm.register(Reg::RPC), 0x3000);
}

#[test]
fn test_exec_jmp() {
    let mut vm = VM::default();
    vm.set_register(Reg::R6, 0xFF00);

    let op = decode(0b1100_000_110_000000); // Jmp BaseR=R6
    vm.execute(op).unwrap();

    assert_eq!(vm.register(Reg::RPC), 0xFF00);
}

#[test]
fn test_exec_jsrr() {
    let mut vm = VM::default();
    vm.set_register(Reg::R0, 0xFF00);

    let op = decode(0b0100_0_00_000_000000); // JsrR BaseR=R0
    vm.execute(op).unwrap();

    assert_eq!(vm.register(Reg::RPC), 0xFF00);
    assert_eq!(vm.register(Reg::R7), 0x3000);
}

#[test]
fn test_exec_jsr() {
    let mut vm = VM::default();

    let op = decode(0b0100_1_11111111111); // Jsr offset=-1
    vm.execute(op).unwrap();

    assert_eq!(vm.register(Reg::RPC), 0x3000 - 1);
    assert_eq!(vm.register(Reg::R7), 0x3000);
}

#[test]
fn test_exec_br() {
    let mut vm = VM::default();
    vm.set_register(Reg::RCond, 0b0000000000000100);
    let op = decode(0b0000_100_111111111); // BrN offset=-1
    vm.execute(op).unwrap();
    assert_eq!(vm.register(Reg::RPC), 0x3000 - 1);

    let mut vm = VM::default();
    vm.set_register(Reg::RCond, 0b0000000000000100);
    let op = decode(0b0000_011_111111111); // BrN offset=-1
    vm.execute(op).unwrap();
    assert_eq!(vm.register(Reg::RPC), 0x3000);

    let mut vm = VM::default();
    vm.set_register(Reg::RCond, 0b0000000000000010);
    let op = decode(0b0000_010_111111111); // BrZ offset=-1
    vm.execute(op).unwrap();
    assert_eq!(vm.register(Reg::RPC), 0x3000 - 1);

    let mut vm = VM::default();
    vm.set_register(Reg::RCond, 0b0000000000000010);
    let op = decode(0b0000_101_111111111); // BrZ offset=-1
    vm.execute(op).unwrap();
    assert_eq!(vm.register(Reg::RPC), 0x3000);

    let mut vm = VM::default();
    vm.set_register(Reg::RCond, 0b0000000000000001);
    let op = decode(0b0000_001_111111111); // BrP offset=-1
    vm.execute(op).unwrap();
    assert_eq!(vm.register(Reg::RPC), 0x3000 - 1);

    let mut vm = VM::default();
    vm.set_register(Reg::RCond, 0b0000000000000001);
    let op = decode(0b0000_110_111111111); // BrP offset=-1
    vm.execute(op).unwrap();
    assert_eq!(vm.register(Reg::RPC), 0x3000);
}

#[test]
fn test_exec_trap_getc() {
    let mut vm = VM::default();
    vm.feed(&[0x41, 0x0A][..]);

    let op = decode(0b1111000000100000);
    vm.execute(op).unwrap();

    assert_eq!(vm.register(Reg::R0), 0x41); // 0x41 == A
    assert_eq!(vm.register(Reg::R7), 0x3000);
}

#[test]
fn test_exec_trap_outc() {
    let mut vm = VM::default();
    vm.set_register(Reg::R0, 0x41);

    let op = decode(0b1111000000100001);
    vm.execute(op).unwrap();

    assert_eq!(*vm.output(), vec![0x41]);
    assert_eq!(vm.register(Reg::R7), 0x3000);
}

#[test]
fn test_exec_trap_puts() {
    let mut vm = VM::default();
    vm.set_register(Reg::R0, 718);
    vm.write_memory(718, 0x41); // A
    vm.write_memory(719, 0x42); // B
    vm.write_memory(720, 0x43); // C
    vm.write_memory(721, 0x0);

    let op = decode(0b1111000000100010);
    vm.execute(op).unwrap();

    assert_eq!(*vm.output(), vec![0x41, 0x42, 0x43]);
    assert_eq!(vm.register(Reg::R7), 0x3000);
}

#[test]
fn test_exec_trap_in() {
    let mut vm = VM::default();
    vm.feed(&[0x41, 0x0A][..]);

    let op = decode(0b1111000000100011);
    vm.execute(op).unwrap();

    assert_eq!(vm.register(Reg::R0), 0x41); // 0x41 == A
    assert_eq!(*vm.output(), vec![0x41]);
    assert_eq!(vm.register(Reg::R7), 0x3000);
}

#[test]
fn test_exec_trap_in_u16() {
    let mut vm = VM::default();
    vm.feed(&[0x32, 0x35, 0x35, 0x0A][..]); // 255 Enter

    let op = decode(0b1111000000100110);
    vm.execute(op).unwrap();

    assert_eq!(vm.register(Reg::R0), 255); // R0 contains 255
    assert_eq!(vm.register(Reg::R7), 0x3000);
}

#[test]
fn test_exec_trap_out_u16() {
    let mut vm = VM::default();
    vm.set_register(Reg::R0, 255);

    let op = decode(0b1111000000100111);
    vm.execute(op).unwrap();

    assert_eq!(*vm.output(), vec![b'2', b'5', b'5']);
    assert_eq!(vm.register(Reg::R7), 0x3000);
}

#[test]
fn test_exec_trap_putsp() {
    let mut vm = VM::default();

    vm.set_register(Reg::R0, 718);
    vm.write_memory(718, 0x4142); // AB
    vm.write_memory(719, 0x4344); // CD
    vm.write_memory(721, 0x0);

    let op = decode(0b1111000000100100);
    vm.execute(op).unwrap();

    assert_eq!(*vm.output(), vec![0x41, 0x42, 0x43, 0x44]);
    assert_eq!(vm.register(Reg::R7), 0x3000);
}

#[test]
fn test_exec_trap_halt() {
    let mut vm = VM::default();

    let op = decode(0b1111000000100101);
    let status = vm.execute(op).unwrap();

    assert_eq!(vm.halted(), true);
    assert_eq!(status, Status::Halted);
}
