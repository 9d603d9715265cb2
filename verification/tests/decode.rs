use toy_vm::bits::{get_cond, get_nth_bit, imm5, off11, off6, off9, sext};
use toy_vm::{Fault, Instruction, Reg};

#[test]
fn fields_are_cut_out_of_the_word() {
    assert_eq!(imm5(0xFFFF), 0x1F);
    assert_eq!(imm5(0b0001_000_011_1_00111), 7);
    assert_eq!(off6(0xFFFF), 0x3F);
    assert_eq!(off6(0b0110_010_111_000001), 1);
    assert_eq!(off9(0xFFFF), 0x1FF);
    assert_eq!(off9(0b0010_101_000000011), 3);
    assert_eq!(off11(0xFFFF), 0x7FF);
    assert_eq!(off11(0b0100_1_00000000101), 5);
    assert_eq!(get_cond(0b0000_101_111111111), 0b101);
    assert_eq!(get_cond(0xFFFF), 7);
    assert!(get_nth_bit(0b0010_0000, 5));
    assert!(!get_nth_bit(0b1101_1111, 5));
    assert!(get_nth_bit(0x8000, 15));
    assert!(get_nth_bit(1, 0));
}

#[test]
fn register_fields_name_general_registers() {
    let word = 0b0001_110_011_0_00_101;
    assert_eq!(Reg::dr(word), Reg::R6);
    assert_eq!(Reg::sr1(word), Reg::R3);
    assert_eq!(Reg::sr2(word), Reg::R5);
    assert_eq!(Reg::from(0), Reg::R0);
    assert_eq!(Reg::from(7), Reg::R7);
    assert_eq!(Reg::R4.index(), 4);
    assert_eq!(Reg::RPC.index(), 8);
    assert_eq!(Reg::RCond.index(), 9);
}

#[test]
fn sext_extends_the_sign_bit() {
    assert_eq!(sext(0b01111, 5), 15);
    assert_eq!(sext(0b10000, 5), 0xFFF0);
    assert_eq!(sext(0b11111, 5), 0xFFFF);
    assert_eq!(sext(0b110000, 6), 0b1111_1111_1111_0000);
    assert_eq!(sext(0x0FF, 9), 0x00FF);
    assert_eq!(sext(0x100, 9), 0xFF00);
    assert_eq!(sext(0x3FF, 11), 0x03FF);
    assert_eq!(sext(0x400, 11), 0xFC00);
    assert_eq!(sext(1, 1), 0xFFFF);
    assert_eq!(sext(0x4000, 15), 0xC000);
}

#[test]
fn sext_of_every_five_bit_immediate() {
    for i in 0u16..32 {
        let expected = if i & 0x10 == 0 { i } else { i | 0xFFE0 };
        assert_eq!(sext(i, 5), expected);
    }
}

#[test]
fn every_opcode_decodes_to_its_instruction() {
    let d = |w: u16| Instruction::decode(w).unwrap();
    assert_eq!(d(0b0000_101_000000010), Instruction::Br { nzp: 0b101, offset: 2 });
    assert_eq!(
        d(0b0001_001_010_0_00_011),
        Instruction::AddReg { dr: Reg::R1, sr1: Reg::R2, sr2: Reg::R3 }
    );
    assert_eq!(
        d(0b0001_001_010_1_11111),
        Instruction::AddConst { dr: Reg::R1, sr: Reg::R2, imm: 0xFFFF }
    );
    assert_eq!(d(0b0010_110_111111111), Instruction::Ld { dr: Reg::R6, offset: 0xFFFF });
    assert_eq!(d(0b0011_010_000000001), Instruction::St { sr: Reg::R2, offset: 1 });
    assert_eq!(d(0b0100_1_10000000000), Instruction::Jsr { offset: 0xFC00 });
    assert_eq!(d(0b0100_0_00_101_000000), Instruction::Jsrr { base: Reg::R5 });
    assert_eq!(
        d(0b0101_111_000_0_00_010),
        Instruction::AndReg { dr: Reg::R7, sr1: Reg::R0, sr2: Reg::R2 }
    );
    assert_eq!(
        d(0b0101_000_110_1_10101),
        Instruction::AndConst { dr: Reg::R0, sr: Reg::R6, imm: 0xFFF5 }
    );
    assert_eq!(
        d(0b0110_010_111_000001),
        Instruction::Ldr { dr: Reg::R2, base: Reg::R7, offset: 1 }
    );
    assert_eq!(
        d(0b0111_100_101_111111),
        Instruction::Str { sr: Reg::R4, base: Reg::R5, offset: 0xFFFF }
    );
    assert_eq!(d(0b1001_000_001_111111), Instruction::Not { dr: Reg::R0, sr: Reg::R1 });
    assert_eq!(d(0b1010_101_000000111), Instruction::Ldi { dr: Reg::R5, offset: 7 });
    assert_eq!(d(0b1011_011_100000000), Instruction::Sti { sr: Reg::R3, offset: 0xFF00 });
    assert_eq!(d(0b1100_000_110_000000), Instruction::Jmp { base: Reg::R6 });
    assert_eq!(d(0b1110_011_111111110), Instruction::Lea { dr: Reg::R3, offset: 0xFFFE });
}

#[test]
fn every_trap_vector_decodes_to_its_trap() {
    let d = |w: u16| Instruction::decode(w).unwrap();
    assert_eq!(d(0xF020), Instruction::TrapGetC);
    assert_eq!(d(0xF021), Instruction::TrapOutC);
    assert_eq!(d(0xF022), Instruction::TrapPuts);
    assert_eq!(d(0xF023), Instruction::TrapIn);
    assert_eq!(d(0xF024), Instruction::TrapPutsp);
    assert_eq!(d(0xF025), Instruction::TrapHalt);
    assert_eq!(d(0xF026), Instruction::TrapInu16);
    assert_eq!(d(0xF027), Instruction::TrapOutu16);
    // Bits 11 to 8 of a trap word do not count.
    assert_eq!(d(0xFF25), Instruction::TrapHalt);
}

#[test]
fn reserved_opcodes_are_faults() {
    assert_eq!(Instruction::decode(0x8000), Err(Fault::ReservedOpcode(0x8000)));
    assert_eq!(Instruction::decode(0x8FFF), Err(Fault::ReservedOpcode(0x8FFF)));
    assert_eq!(Instruction::decode(0xD000), Err(Fault::ReservedOpcode(0xD000)));
    assert_eq!(Instruction::decode(0xD123), Err(Fault::ReservedOpcode(0xD123)));
}

#[test]
fn unknown_trap_vectors_are_faults() {
    assert_eq!(Instruction::decode(0xF000), Err(Fault::UnknownTrap(0x00)));
    assert_eq!(Instruction::decode(0xF01F), Err(Fault::UnknownTrap(0x1F)));
    assert_eq!(Instruction::decode(0xF028), Err(Fault::UnknownTrap(0x28)));
    assert_eq!(Instruction::decode(0xFFFF), Err(Fault::UnknownTrap(0xFF)));
}

#[test]
fn every_word_decodes_or_faults_by_its_opcode() {
    for word in 0u16..=0xFFFF {
        let opcode = word >> 12;
        let decoded = Instruction::decode(word);
        if opcode == 8 || opcode == 13 {
            assert_eq!(decoded, Err(Fault::ReservedOpcode(word)));
        } else if opcode == 15 && !(0x20..=0x27).contains(&(word & 0xFF)) {
            assert_eq!(decoded, Err(Fault::UnknownTrap(word & 0xFF)));
        } else {
            assert!(decoded.is_ok());
        }
    }
}
