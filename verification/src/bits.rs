//! Bit fields of a 16-bit instruction word.
//!
//! The specifications say what each field is by division and remainder; the
//! executable functions compute the same values with shifts and masks.

use vstd::arithmetic::power2::{lemma2_to64, lemma_pow2_pos, lemma_pow2_unfold, pow2};
use vstd::bits::{lemma_u16_pow2_no_overflow, lemma_u16_shl_is_mul, lemma_u16_shr_is_div};
use vstd::prelude::*;

verus! {

/// The low `width` bits of `word`, as a number.
pub open spec fn low_bits(word: u16, width: nat) -> nat {
    word as nat % pow2(width)
}

/// Whether bit `n` of `word` is set, bit 0 being the least significant.
pub open spec fn bit_is_set(word: u16, n: nat) -> bool {
    (word as nat / pow2(n)) % 2 == 1
}

/// The three-bit field of `word` whose least significant bit is bit `low`.
pub open spec fn field3(word: u16, low: nat) -> nat {
    (word as nat / pow2(low)) % 8
}

/// The number that a 16-bit word stands for in two's complement.
pub open spec fn signed16(word: u16) -> int {
    if word < 0x8000 {
        word as int
    } else {
        word as int - 0x1_0000
    }
}

/// The number that the low `width` bits of `word` stand for in two's
/// complement.
pub open spec fn signed_field(word: u16, width: nat) -> int
    recommends
        0 < width < 16,
{
    if bit_is_set(word, (width - 1) as nat) {
        low_bits(word, width) - pow2(width)
    } else {
        low_bits(word, width) as int
    }
}

/// Sign extension of the `width`-bit field that `n` holds: when the field's
/// top bit is set, every bit above the field is set too; otherwise `n` is
/// left as it is.
pub open spec fn sext_spec(n: u16, width: nat) -> u16
    recommends
        0 < width < 16,
{
    if bit_is_set(n, (width - 1) as nat) {
        (low_bits(n, width) + 0x1_0000 - pow2(width)) as u16
    } else {
        n
    }
}

/// Sum of two words, wrapping around at 16 bits.
pub open spec fn wrap_add(a: u16, b: u16) -> u16 {
    ((a + b) % 0x1_0000) as u16
}

/// Sign extension of a five-bit immediate leaves it as it is when its bit 4
/// is clear, and sets the eleven bits above it when its bit 4 is set.
pub proof fn lemma_sext_imm5(i: u16)
    requires
        i < 32,
    ensures
        sext_spec(i, 5) == if i & 0x10 == 0 {
            i
        } else {
            i | 0xFFE0
        },
{
    lemma2_to64();
    assert((i & 0x10 == 0) <==> (i / 16) % 2 == 0) by (bit_vector);
    assert(i | 0xFFE0 == i % 32 + 0x1_0000 - 32) by (bit_vector)
        requires
            i < 32,
    ;
}

/// Sign extension keeps the number: the extended word stands for what the
/// field stood for.
pub proof fn lemma_sext_value(n: u16, width: nat)
    requires
        0 < width < 16,
        n < pow2(width),
    ensures
        signed16(sext_spec(n, width)) == signed_field(n, width),
{
    let half = pow2((width - 1) as nat);
    lemma_pow2_unfold(width);
    lemma_pow2_pos((width - 1) as nat);
    lemma_u16_pow2_no_overflow(width);
    let field = n as nat;
    assert(field / half == if field >= half { 1nat } else { 0nat }) by (nonlinear_arith)
        requires
            0 < half,
            field < 2 * half,
    ;
    assert(field % (2 * half) == field) by (nonlinear_arith)
        requires
            0 < half,
            field < 2 * half,
    ;
    assert(half <= 0x4000) by {
        lemma2_to64();
        if width - 1 < 14 {
            vstd::arithmetic::power2::lemma_pow2_strictly_increases((width - 1) as nat, 14);
        }
    }
}

/// The five-bit immediate of `ADD` and `AND`.
pub fn imm5(instruction: u16) -> (field: u16)
    ensures
        field == low_bits(instruction, 5),
{
    proof {
        lemma2_to64();
    }
    assert(instruction & 0x1F == instruction % 32) by (bit_vector);
    instruction & 0b0000_0000_0001_1111
}

/// Sign-extends the `b`-bit field in `n` to 16 bits.
pub fn sext(n: u16, b: usize) -> (extended: u16)
    requires
        0 < b < 16,
    ensures
        extended == sext_spec(n, b as nat),
{
    let top: u16 = (b - 1) as u16;
    let width: u16 = b as u16;
    proof {
        lemma_u16_pow2_no_overflow(b as nat);
        lemma_u16_shr_is_div(n, top);
        lemma_u16_shl_is_mul(1, width);
        let p: u16 = 1u16 << width;
        let shifted: u16 = n >> top;
        assert(shifted & 1 == shifted % 2) by (bit_vector);
        assert(n | (0xFFFFu16 << width) == (n % p) + 0x1_0000 - p) by (bit_vector)
            requires
                p == 1u16 << width,
                0 < width < 16,
        ;
    }
    if (n >> top) & 1 == 1 {
        n | (0xFFFF << width)
    } else {
        n
    }
}

/// The nine-bit offset of the PC-relative instructions.
pub fn off9(n: u16) -> (field: u16)
    ensures
        field == low_bits(n, 9),
{
    proof {
        lemma2_to64();
    }
    assert(n & 0x1FF == n % 512) by (bit_vector);
    n & 0x1FF
}

/// The six-bit offset of the base-plus-offset instructions.
pub fn off6(n: u16) -> (field: u16)
    ensures
        field == low_bits(n, 6),
{
    proof {
        lemma2_to64();
    }
    assert(n & 0x3F == n % 64) by (bit_vector);
    n & 0x3F
}

/// The eleven-bit offset of the subroutine jump.
pub fn off11(n: u16) -> (field: u16)
    ensures
        field == low_bits(n, 11),
{
    proof {
        lemma2_to64();
    }
    assert(n & 0x7FF == n % 2048) by (bit_vector);
    n & 0x7FF
}

/// Bits 11 to 9 of a branch: the condition mask.
pub fn get_cond(instruction: u16) -> (mask: u16)
    ensures
        mask == field3(instruction, 9),
{
    proof {
        lemma2_to64();
    }
    assert((instruction >> 9) & 0x07 == (instruction / 512) % 8) by (bit_vector);
    (instruction >> 9) & 0x07
}

/// Whether bit `n` of the word is set.
pub fn get_nth_bit(instruction: u16, n: usize) -> (set: bool)
    requires
        n < 16,
    ensures
        set == bit_is_set(instruction, n as nat),
{
    let shift: u16 = n as u16;
    proof {
        lemma_u16_shr_is_div(instruction, shift);
        let shifted: u16 = instruction >> shift;
        assert(shifted & 1 == shifted % 2) by (bit_vector);
    }
    ((instruction >> shift) & 1) == 1
}

} // verus!
