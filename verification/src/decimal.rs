//! Decimal text of 16-bit numbers, as the two numeric console traps read and
//! write it.

use vstd::prelude::*;

verus! {

/// Whether a byte is one of the ASCII digits `0` to `9`.
pub open spec fn is_digit(byte: u8) -> bool {
    0x30 <= byte <= 0x39
}

/// The number that a digit stands for; 0 for any other byte.
pub open spec fn digit_value(byte: u8) -> nat {
    if is_digit(byte) {
        (byte - 0x30) as nat
    } else {
        0
    }
}

/// The number that a sequence of digits denotes in base ten, the first digit
/// being the most significant. The empty sequence denotes 0.
pub open spec fn decimal_value(digits: Seq<u8>) -> nat
    decreases digits.len(),
{
    if digits.len() == 0 {
        0
    } else {
        10 * decimal_value(digits.drop_last()) + digit_value(digits.last())
    }
}

/// Whether every byte of a sequence is a digit.
pub open spec fn all_digits(bytes: Seq<u8>) -> bool {
    forall|i: int| 0 <= i < bytes.len() ==> is_digit(#[trigger] bytes[i])
}

/// The digits among `bytes`, in their order.
pub open spec fn digits_of(bytes: Seq<u8>) -> Seq<u8> {
    bytes.filter(|byte: u8| is_digit(byte))
}

/// The 16-bit number that `text` denotes: `text` has to be one digit or more,
/// digits only, and its value has to fit in 16 bits.
pub open spec fn parse_spec(text: Seq<u8>) -> Option<u16> {
    if text.len() > 0 && all_digits(text) && decimal_value(text) <= 0xFFFF {
        Some(decimal_value(text) as u16)
    } else {
        None
    }
}

/// The decimal digits of `n`, most significant first, without leading zeros;
/// the single digit `0` for 0.
pub open spec fn decimal_digits(n: nat) -> Seq<u8>
    decreases n,
{
    if n < 10 {
        seq![(0x30 + n) as u8]
    } else {
        decimal_digits(n / 10).push((0x30 + n % 10) as u8)
    }
}

/// The digits among the first `i + 1` bytes are those among the first `i`,
/// and byte `i` after them if it is a digit.
pub proof fn lemma_digits_of_next(bytes: Seq<u8>, i: int)
    requires
        0 <= i < bytes.len(),
    ensures
        digits_of(bytes.take(i + 1)) == if is_digit(bytes[i]) {
            digits_of(bytes.take(i)).push(bytes[i])
        } else {
            digits_of(bytes.take(i))
        },
{
    reveal(Seq::filter);
    assert(bytes.take(i + 1).drop_last() == bytes.take(i));
}

/// Digits are their own digits.
pub proof fn lemma_digits_of_digits(bytes: Seq<u8>)
    requires
        all_digits(bytes),
    ensures
        digits_of(bytes) == bytes,
    decreases bytes.len(),
{
    reveal(Seq::filter);
    if bytes.len() > 0 {
        lemma_digits_of_digits(bytes.drop_last());
    }
}

/// A number is at least what any prefix of its digits denotes.
pub proof fn lemma_prefix_value(digits: Seq<u8>, k: int)
    requires
        0 <= k <= digits.len(),
    ensures
        decimal_value(digits.take(k)) <= decimal_value(digits),
    decreases digits.len(),
{
    if k == digits.len() {
        assert(digits.take(k) == digits);
    } else {
        assert(digits.drop_last().take(k) == digits.take(k));
        lemma_prefix_value(digits.drop_last(), k);
    }
}

/// The decimal digits of a number are digits, at least one, and denote the
/// number: reading back what was written gives the number again.
pub proof fn lemma_digits_denote(n: nat)
    ensures
        decimal_digits(n).len() > 0,
        all_digits(decimal_digits(n)),
        decimal_value(decimal_digits(n)) == n,
    decreases n,
{
    let digits = decimal_digits(n);
    if n < 10 {
        assert(decimal_value(digits.drop_last()) == 0);
    } else {
        lemma_digits_denote(n / 10);
        assert(digits.drop_last() == decimal_digits(n / 10));
    }
}

/// Parsing the decimal digits of a 16-bit number gives the number.
pub proof fn lemma_parse_of_digits(n: u16)
    ensures
        parse_spec(decimal_digits(n as nat)) == Some(n),
{
    lemma_digits_denote(n as nat);
}

/// Reads a decimal number of 16 bits: `None` unless `text` is made of one
/// digit or more and denotes a number below 65536.
pub fn parse_decimal(text: &[u8]) -> (number: Option<u16>)
    ensures
        number == parse_spec(text@),
{
    let len = text.len();
    if len == 0 {
        return None;
    }
    let mut value: u32 = 0;
    let mut i: usize = 0;
    while i < len
        invariant
            len == text@.len(),
            i <= len,
            all_digits(text@.take(i as int)),
            value == decimal_value(text@.take(i as int)),
            value <= 0xFFFF,
        decreases len - i,
    {
        let byte = text[i];
        proof {
            assert(text@.take(i + 1).drop_last() == text@.take(i as int));
        }
        if byte < 0x30 || byte > 0x39 {
            assert(!is_digit(text@[i as int]));
            return None;
        }
        let digit: u32 = (byte - 0x30) as u32;
        value = value * 10 + digit;
        if value > 0xFFFF {
            proof {
                lemma_prefix_value(text@, i + 1);
            }
            return None;
        }
        assert(all_digits(text@.take(i + 1))) by {
            assert forall|j: int| 0 <= j < i implies is_digit(#[trigger] text@.take(i + 1)[j]) by {
                assert(text@.take(i + 1)[j] == text@.take(i as int)[j]);
            }
        }
        i += 1;
    }
    assert(text@.take(len as int) == text@);
    Some(value as u16)
}

/// Writes a 16-bit number in decimal.
pub fn format_decimal(n: u16) -> (digits: Vec<u8>)
    ensures
        digits@ == decimal_digits(n as nat),
{
    let mut digits: Vec<u8> = Vec::new();
    if n >= 10000 {
        digits.push(0x30 + (n / 10000) as u8);
    }
    if n >= 1000 {
        digits.push(0x30 + ((n / 1000) % 10) as u8);
    }
    if n >= 100 {
        digits.push(0x30 + ((n / 100) % 10) as u8);
    }
    if n >= 10 {
        digits.push(0x30 + ((n / 10) % 10) as u8);
    }
    digits.push(0x30 + (n % 10) as u8);
    proof {
        reveal_with_fuel(decimal_digits, 5);
    }
    digits
}

} // verus!
