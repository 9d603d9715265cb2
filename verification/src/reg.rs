//! Register identifiers and the register fields of an instruction word.

use crate::bits::field3;
use vstd::arithmetic::power2::lemma2_to64;
use vstd::prelude::*;

verus! {

/// The ten registers: eight general-purpose ones, the program counter and
/// the condition-code register.
#[derive(Clone, Copy, Debug, PartialEq, Eq, Hash, Structural)]
pub enum Reg {
    R0,
    R1,
    R2,
    R3,
    R4,
    R5,
    R6,
    R7,
    RPC,
    RCond,
}

impl Reg {
    /// Position of the register in the register file.
    pub open spec fn index_spec(self) -> int {
        match self {
            Reg::R0 => 0,
            Reg::R1 => 1,
            Reg::R2 => 2,
            Reg::R3 => 3,
            Reg::R4 => 4,
            Reg::R5 => 5,
            Reg::R6 => 6,
            Reg::R7 => 7,
            Reg::RPC => 8,
            Reg::RCond => 9,
        }
    }

    /// Whether the register is one of R0 to R7.
    pub open spec fn is_general(self) -> bool {
        self.index_spec() < 8
    }

    /// The general-purpose register with number `n`.
    pub open spec fn general(n: int) -> Reg
        recommends
            0 <= n < 8,
    {
        if n == 0 {
            Reg::R0
        } else if n == 1 {
            Reg::R1
        } else if n == 2 {
            Reg::R2
        } else if n == 3 {
            Reg::R3
        } else if n == 4 {
            Reg::R4
        } else if n == 5 {
            Reg::R5
        } else if n == 6 {
            Reg::R6
        } else {
            Reg::R7
        }
    }

    /// Position of the register in the register file.
    pub fn index(self) -> (i: usize)
        ensures
            i == self.index_spec(),
            i < 10,
    {
        match self {
            Reg::R0 => 0,
            Reg::R1 => 1,
            Reg::R2 => 2,
            Reg::R3 => 3,
            Reg::R4 => 4,
            Reg::R5 => 5,
            Reg::R6 => 6,
            Reg::R7 => 7,
            Reg::RPC => 8,
            Reg::RCond => 9,
        }
    }

    /// The general-purpose register that a three-bit number names.
    pub fn from(value: u16) -> (reg: Reg)
        requires
            value <= 7,
        ensures
            reg == Reg::general(value as int),
            reg.is_general(),
            reg.index_spec() == value,
    {
        match value {
            0 => Reg::R0,
            1 => Reg::R1,
            2 => Reg::R2,
            3 => Reg::R3,
            4 => Reg::R4,
            5 => Reg::R5,
            6 => Reg::R6,
            _ => Reg::R7,
        }
    }

    /// The register named by bits 11 to 9.
    pub fn dr(instruction: u16) -> (reg: Reg)
        ensures
            reg == Reg::general(field3(instruction, 9) as int),
            reg.is_general(),
    {
        proof {
            lemma2_to64();
        }
        assert((instruction >> 9) & 0x7 == (instruction / 512) % 8) by (bit_vector);
        assert((instruction >> 9) & 0x7 <= 7) by (bit_vector);
        let reg_nb = (instruction >> 9) & 0b0000000000000111;
        Reg::from(reg_nb)
    }

    /// The register named by bits 8 to 6.
    pub fn sr1(instruction: u16) -> (reg: Reg)
        ensures
            reg == Reg::general(field3(instruction, 6) as int),
            reg.is_general(),
    {
        proof {
            lemma2_to64();
        }
        assert((instruction >> 6) & 0x7 == (instruction / 64) % 8) by (bit_vector);
        assert((instruction >> 6) & 0x7 <= 7) by (bit_vector);
        let reg_nb = (instruction >> 6) & 0b0000000000000111;
        Reg::from(reg_nb)
    }

    /// The register named by bits 2 to 0.
    pub fn sr2(instruction: u16) -> (reg: Reg)
        ensures
            reg == Reg::general(field3(instruction, 0) as int),
            reg.is_general(),
    {
        proof {
            lemma2_to64();
        }
        assert(instruction & 0x7 == (instruction / 1) % 8) by (bit_vector);
        assert(instruction & 0x7 <= 7) by (bit_vector);
        let reg_nb = instruction & 0b0000000000000111;
        Reg::from(reg_nb)
    }
}

} // verus!
