//! The instruction set and its decoder.

use crate::bits::{
    bit_is_set, field3, get_cond, get_nth_bit, imm5, low_bits, off11, off6, off9, sext, sext_spec,
};
use crate::reg::Reg;
use vstd::arithmetic::power2::lemma2_to64;
use vstd::prelude::*;

verus! {

/// One decoded instruction. Offsets and immediates are held sign-extended to
/// 16 bits, ready to be added with wrap-around.
#[derive(Clone, Copy, Debug, PartialEq, Eq, Structural)]
pub enum Instruction {
    Br { nzp: u16, offset: u16 },
    AddReg { dr: Reg, sr1: Reg, sr2: Reg },
    AddConst { dr: Reg, sr: Reg, imm: u16 },
    AndReg { dr: Reg, sr1: Reg, sr2: Reg },
    AndConst { dr: Reg, sr: Reg, imm: u16 },
    Ld { dr: Reg, offset: u16 },
    Ldi { dr: Reg, offset: u16 },
    Ldr { dr: Reg, base: Reg, offset: u16 },
    Lea { dr: Reg, offset: u16 },
    St { sr: Reg, offset: u16 },
    Sti { sr: Reg, offset: u16 },
    Str { sr: Reg, base: Reg, offset: u16 },
    Not { dr: Reg, sr: Reg },
    Jmp { base: Reg },
    Jsrr { base: Reg },
    Jsr { offset: u16 },
    TrapGetC,
    TrapOutC,
    TrapPuts,
    TrapIn,
    TrapPutsp,
    TrapHalt,
    TrapInu16,
    TrapOutu16,
}

/// Why a run cannot go on.
#[derive(Clone, Copy, Debug, PartialEq, Eq, Structural)]
pub enum Fault {
    /// The word's opcode is one of the two reserved ones. Holds the word.
    ReservedOpcode(u16),
    /// The word is a trap whose vector names no system call. Holds the vector.
    UnknownTrap(u16),
    /// The decimal-input trap read a line whose digits are no 16-bit number.
    NumberParse,
}

/// The opcode of a word: its top four bits.
pub open spec fn opcode(word: u16) -> nat {
    word as nat / 0x1000
}

/// The trap vector of a word: its low eight bits.
pub open spec fn trap_vector(word: u16) -> u16 {
    low_bits(word, 8) as u16
}

pub open spec fn dr_of(word: u16) -> Reg {
    Reg::general(field3(word, 9) as int)
}

pub open spec fn sr1_of(word: u16) -> Reg {
    Reg::general(field3(word, 6) as int)
}

pub open spec fn sr2_of(word: u16) -> Reg {
    Reg::general(field3(word, 0) as int)
}

/// The sign-extended offset or immediate in the low `width` bits of `word`.
pub open spec fn offset_of(word: u16, width: nat) -> u16 {
    sext_spec(low_bits(word, width) as u16, width)
}

/// The system call that a trap vector selects, if any.
pub open spec fn trap_of(vector: u16) -> Option<Instruction> {
    if vector == 0x20 {
        Some(Instruction::TrapGetC)
    } else if vector == 0x21 {
        Some(Instruction::TrapOutC)
    } else if vector == 0x22 {
        Some(Instruction::TrapPuts)
    } else if vector == 0x23 {
        Some(Instruction::TrapIn)
    } else if vector == 0x24 {
        Some(Instruction::TrapPutsp)
    } else if vector == 0x25 {
        Some(Instruction::TrapHalt)
    } else if vector == 0x26 {
        Some(Instruction::TrapInu16)
    } else if vector == 0x27 {
        Some(Instruction::TrapOutu16)
    } else {
        None
    }
}

/// What a word decodes to: the instruction that its opcode and fields name,
/// or the fault for a reserved opcode (8 and 13) or an unknown trap vector.
pub open spec fn decode_spec(word: u16) -> Result<Instruction, Fault> {
    let op = opcode(word);
    if op == 0 {
        Ok(Instruction::Br { nzp: field3(word, 9) as u16, offset: offset_of(word, 9) })
    } else if op == 1 {
        if bit_is_set(word, 5) {
            Ok(Instruction::AddConst { dr: dr_of(word), sr: sr1_of(word), imm: offset_of(word, 5) })
        } else {
            Ok(Instruction::AddReg { dr: dr_of(word), sr1: sr1_of(word), sr2: sr2_of(word) })
        }
    } else if op == 2 {
        Ok(Instruction::Ld { dr: dr_of(word), offset: offset_of(word, 9) })
    } else if op == 3 {
        Ok(Instruction::St { sr: dr_of(word), offset: offset_of(word, 9) })
    } else if op == 4 {
        if bit_is_set(word, 11) {
            Ok(Instruction::Jsr { offset: offset_of(word, 11) })
        } else {
            Ok(Instruction::Jsrr { base: sr1_of(word) })
        }
    } else if op == 5 {
        if bit_is_set(word, 5) {
            Ok(Instruction::AndConst { dr: dr_of(word), sr: sr1_of(word), imm: offset_of(word, 5) })
        } else {
            Ok(Instruction::AndReg { dr: dr_of(word), sr1: sr1_of(word), sr2: sr2_of(word) })
        }
    } else if op == 6 {
        Ok(Instruction::Ldr { dr: dr_of(word), base: sr1_of(word), offset: offset_of(word, 6) })
    } else if op == 7 {
        Ok(Instruction::Str { sr: dr_of(word), base: sr1_of(word), offset: offset_of(word, 6) })
    } else if op == 9 {
        Ok(Instruction::Not { dr: dr_of(word), sr: sr1_of(word) })
    } else if op == 10 {
        Ok(Instruction::Ldi { dr: dr_of(word), offset: offset_of(word, 9) })
    } else if op == 11 {
        Ok(Instruction::Sti { sr: dr_of(word), offset: offset_of(word, 9) })
    } else if op == 12 {
        Ok(Instruction::Jmp { base: sr1_of(word) })
    } else if op == 14 {
        Ok(Instruction::Lea { dr: dr_of(word), offset: offset_of(word, 9) })
    } else if op == 15 {
        match trap_of(trap_vector(word)) {
            Some(trap) => Ok(trap),
            None => Err(Fault::UnknownTrap(trap_vector(word))),
        }
    } else {
        Err(Fault::ReservedOpcode(word))
    }
}

/// A word decodes unless its opcode is 8 or 13, or it is a trap with a vector
/// outside 0x20 to 0x27; the fault tells which, and holds the word or the
/// vector.
pub proof fn lemma_decode_faults(word: u16)
    ensures
        opcode(word) == 8 || opcode(word) == 13 <==> decode_spec(word) == Err::<
            Instruction,
            Fault,
        >(Fault::ReservedOpcode(word)),
        opcode(word) == 15 && !(0x20 <= trap_vector(word) <= 0x27) <==> decode_spec(word) == Err::<
            Instruction,
            Fault,
        >(Fault::UnknownTrap(trap_vector(word))),
        decode_spec(word).is_ok() <==> !(opcode(word) == 8 || opcode(word) == 13) && !(opcode(word)
            == 15 && !(0x20 <= trap_vector(word) <= 0x27)),
        decode_spec(word) matches Ok(instr) ==> instr.wf() && (instr.is_trap() <==> opcode(word)
            == 15),
{
    lemma2_to64();
}

impl Instruction {
    /// Whether every register operand is a general-purpose register and a
    /// branch mask has no bit beyond its three flags. Every decoded
    /// instruction is of this form.
    pub open spec fn wf(self) -> bool {
        match self {
            Instruction::Br { nzp, offset } => nzp < 8,
            Instruction::AddReg { dr, sr1, sr2 } => dr.is_general() && sr1.is_general()
                && sr2.is_general(),
            Instruction::AddConst { dr, sr, imm } => dr.is_general() && sr.is_general(),
            Instruction::AndReg { dr, sr1, sr2 } => dr.is_general() && sr1.is_general()
                && sr2.is_general(),
            Instruction::AndConst { dr, sr, imm } => dr.is_general() && sr.is_general(),
            Instruction::Ld { dr, offset } => dr.is_general(),
            Instruction::Ldi { dr, offset } => dr.is_general(),
            Instruction::Ldr { dr, base, offset } => dr.is_general() && base.is_general(),
            Instruction::Lea { dr, offset } => dr.is_general(),
            Instruction::St { sr, offset } => sr.is_general(),
            Instruction::Sti { sr, offset } => sr.is_general(),
            Instruction::Str { sr, base, offset } => sr.is_general() && base.is_general(),
            Instruction::Not { dr, sr } => dr.is_general() && sr.is_general(),
            Instruction::Jmp { base } => base.is_general(),
            Instruction::Jsrr { base } => base.is_general(),
            _ => true,
        }
    }

    /// Whether the instruction is one of the eight system calls.
    pub open spec fn is_trap(self) -> bool {
        self == Instruction::TrapGetC || self == Instruction::TrapOutC || self
            == Instruction::TrapPuts || self == Instruction::TrapIn || self
            == Instruction::TrapPutsp || self == Instruction::TrapHalt || self
            == Instruction::TrapInu16 || self == Instruction::TrapOutu16
    }

    /// Whether the instruction is one of the three traps that read console
    /// input.
    pub open spec fn reads_input(self) -> bool {
        self == Instruction::TrapGetC || self == Instruction::TrapIn || self
            == Instruction::TrapInu16
    }

    /// Decodes one instruction word.
    pub fn decode(instruction: u16) -> (decoded: Result<Instruction, Fault>)
        ensures
            decoded == decode_spec(instruction),
            decoded matches Ok(i) ==> i.wf(),
    {
        proof {
            lemma2_to64();
        }
        assert(instruction >> 12 == instruction / 0x1000) by (bit_vector);
        assert(instruction & 0xFF == instruction % 256) by (bit_vector);
        let opcode = instruction >> 12;
        match opcode {
            0b0000 => Ok(
                Instruction::Br { nzp: get_cond(instruction), offset: sext(off9(instruction), 9) },
            ),
            0b0001 => {
                if get_nth_bit(instruction, 5) {
                    Ok(
                        Instruction::AddConst {
                            dr: Reg::dr(instruction),
                            sr: Reg::sr1(instruction),
                            imm: sext(imm5(instruction), 5),
                        },
                    )
                } else {
                    Ok(
                        Instruction::AddReg {
                            dr: Reg::dr(instruction),
                            sr1: Reg::sr1(instruction),
                            sr2: Reg::sr2(instruction),
                        },
                    )
                }
            },
            0b0010 => Ok(
                Instruction::Ld { dr: Reg::dr(instruction), offset: sext(off9(instruction), 9) },
            ),
            0b0011 => Ok(
                Instruction::St { sr: Reg::dr(instruction), offset: sext(off9(instruction), 9) },
            ),
            0b0100 => {
                if get_nth_bit(instruction, 11) {
                    Ok(Instruction::Jsr { offset: sext(off11(instruction), 11) })
                } else {
                    Ok(Instruction::Jsrr { base: Reg::sr1(instruction) })
                }
            },
            0b0101 => {
                if get_nth_bit(instruction, 5) {
                    Ok(
                        Instruction::AndConst {
                            dr: Reg::dr(instruction),
                            sr: Reg::sr1(instruction),
                            imm: sext(imm5(instruction), 5),
                        },
                    )
                } else {
                    Ok(
                        Instruction::AndReg {
                            dr: Reg::dr(instruction),
                            sr1: Reg::sr1(instruction),
                            sr2: Reg::sr2(instruction),
                        },
                    )
                }
            },
            0b0110 => Ok(
                Instruction::Ldr {
                    dr: Reg::dr(instruction),
                    base: Reg::sr1(instruction),
                    offset: sext(off6(instruction), 6),
                },
            ),
            0b0111 => Ok(
                Instruction::Str {
                    sr: Reg::dr(instruction),
                    base: Reg::sr1(instruction),
                    offset: sext(off6(instruction), 6),
                },
            ),
            0b1001 => Ok(Instruction::Not { dr: Reg::dr(instruction), sr: Reg::sr1(instruction) }),
            0b1010 => Ok(
                Instruction::Ldi { dr: Reg::dr(instruction), offset: sext(off9(instruction), 9) },
            ),
            0b1011 => Ok(
                Instruction::Sti { sr: Reg::dr(instruction), offset: sext(off9(instruction), 9) },
            ),
            0b1100 => Ok(Instruction::Jmp { base: Reg::sr1(instruction) }),
            0b1110 => Ok(
                Instruction::Lea { dr: Reg::dr(instruction), offset: sext(off9(instruction), 9) },
            ),
            0b1111 => {
                let trap_vect = instruction & 0b0000000011111111;
                match trap_vect {
                    0x20 => Ok(Instruction::TrapGetC),
                    0x21 => Ok(Instruction::TrapOutC),
                    0x22 => Ok(Instruction::TrapPuts),
                    0x23 => Ok(Instruction::TrapIn),
                    0x24 => Ok(Instruction::TrapPutsp),
                    0x25 => Ok(Instruction::TrapHalt),
                    0x26 => Ok(Instruction::TrapInu16),
                    0x27 => Ok(Instruction::TrapOutu16),
                    _ => Err(Fault::UnknownTrap(trap_vect)),
                }
            },
            _ => Err(Fault::ReservedOpcode(instruction)),
        }
    }
}

} // verus!
