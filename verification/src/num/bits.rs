//! The logical operations AND, OR and XOR on integers of any size, in two's
//! complement without end.

use crate::num::digits::{
    byte_at, le_value, lemma_byte_at_add_multiple, lemma_byte_at_div, lemma_byte_at_high_ones,
    lemma_byte_at_high_zero, lemma_byte_at_le_value, lemma_le_value_bound, lemma_pow256_positive,
    lemma_pow256_values, pow256,
};
use crate::num::codec::lemma_pattern_digit;
use crate::num::integer::Integer;
use crate::num::magnitude::{negate, trim};
use crate::num::pack::{word_bits, word_value, Word};
use vstd::prelude::*;

verus! {

/// One of the three operations.
#[derive(Clone, Copy, Debug, PartialEq, Eq, Structural)]
pub enum BitOp {
    And,
    Or,
    Xor,
}

/// The operation on two digits.
pub open spec fn byte_op(op: BitOp, x: u8, y: u8) -> u8 {
    match op {
        BitOp::And => x & y,
        BitOp::Or => x | y,
        BitOp::Xor => x ^ y,
    }
}

/// The operation on two host words.
pub open spec fn word_op(op: BitOp, x: u64, y: u64) -> u64 {
    match op {
        BitOp::And => x & y,
        BitOp::Or => x | y,
        BitOp::Xor => x ^ y,
    }
}

/// The operation on two integers of the range of a host word, computed on
/// their 64-bit patterns and read as a signed host word again.
pub open spec fn small_combine(op: BitOp, x: int, y: int) -> int {
    word_value(word_op(op, word_bits(x, 8) as u64, word_bits(y, 8) as u64) as int, true, 8)
}

/// Whether `r` is the result of the operation on `a` and `b`: digit by digit
/// in two's complement, at every place.
pub open spec fn combines(op: BitOp, a: int, b: int, r: int) -> bool {
    forall|k: nat| #[trigger]
        byte_at(r, k) == byte_op(op, byte_at(a, k) as u8, byte_at(b, k) as u8) as int
}

fn apply(op: BitOp, x: u8, y: u8) -> (r: u8)
    ensures
        r == byte_op(op, x, y),
{
    match op {
        BitOp::And => x & y,
        BitOp::Or => x | y,
        BitOp::Xor => x ^ y,
    }
}

fn apply_word(op: BitOp, x: u64, y: u64) -> (r: u64)
    ensures
        r == word_op(op, x, y),
{
    match op {
        BitOp::And => x & y,
        BitOp::Or => x | y,
        BitOp::Xor => x ^ y,
    }
}

/// The operation on two host words works digit by digit.
proof fn lemma_word_op_digit(op: BitOp, a: u64, b: u64, k: nat)
    ensures
        byte_at(word_op(op, a, b) as int, k) == byte_op(
            op,
            byte_at(a as int, k) as u8,
            byte_at(b as int, k) as u8,
        ) as int,
    decreases k,
{
    let c = word_op(op, a, b);
    assert(pow256(0) == 1);
    assert(pow256(1) == 256) by {
        reveal_with_fuel(pow256, 2);
    }
    if k == 0 {
        assert(((a & b) % 256) as u8 == ((a % 256) as u8) & ((b % 256) as u8)) by (bit_vector);
        assert(((a | b) % 256) as u8 == ((a % 256) as u8) | ((b % 256) as u8)) by (bit_vector);
        assert(((a ^ b) % 256) as u8 == ((a % 256) as u8) ^ ((b % 256) as u8)) by (bit_vector);
    } else {
        assert((a & b) / 256 == (a / 256) & (b / 256)) by (bit_vector);
        assert((a | b) / 256 == (a / 256) | (b / 256)) by (bit_vector);
        assert((a ^ b) / 256 == (a / 256) ^ (b / 256)) by (bit_vector);
        let j = (k - 1) as nat;
        lemma_byte_at_div(a as int, 1, j);
        lemma_byte_at_div(b as int, 1, j);
        lemma_byte_at_div(c as int, 1, j);
        lemma_word_op_digit(op, a / 256, b / 256, j);
        assert(c / 256 == word_op(op, a / 256, b / 256));
    }
}

/// The digits of a number of a signed host word's range: those of its
/// 64-bit pattern, then its sign without end.
proof fn lemma_small_digit(x: int, k: nat)
    requires
        i64::MIN <= x <= i64::MAX,
    ensures
        0 <= word_bits(x, 8) <= u64::MAX,
        word_value(word_bits(x, 8), true, 8) == x,
        byte_at(x, k) == if k < 8 {
            byte_at(word_bits(x, 8), k)
        } else if x < 0 {
            255
        } else {
            0
        },
{
    lemma_pow256_values();
    let bits = word_bits(x, 8);
    if x < 0 {
        assert(bits == x + pow256(8));
        assert(x == bits + (-1) * pow256(8));
        if k < 8 {
            lemma_byte_at_add_multiple(bits, -1, 8, k);
        } else {
            lemma_byte_at_high_ones(x, 8, k);
        }
    } else {
        assert(bits == x);
        if k >= 8 {
            lemma_byte_at_high_zero(x, 8, k);
        }
    }
}

/// The operation on two small integers, computed on host words, is the
/// operation digit by digit.
pub proof fn lemma_small_combine(op: BitOp, x: int, y: int)
    requires
        i64::MIN <= x <= i64::MAX,
        i64::MIN <= y <= i64::MAX,
    ensures
        i64::MIN <= small_combine(op, x, y) <= i64::MAX,
        combines(op, x, y, small_combine(op, x, y)),
{
    lemma_pow256_values();
    lemma_small_digit(x, 0);
    lemma_small_digit(y, 0);
    let a = word_bits(x, 8) as u64;
    let b = word_bits(y, 8) as u64;
    let c = word_op(op, a, b);
    let r = small_combine(op, x, y);
    let top: u64 = 0x8000_0000_0000_0000;
    assert((a & b) >= top <==> (a >= top && b >= top)) by (bit_vector)
        requires
            top == 0x8000_0000_0000_0000u64,
    ;
    assert((a | b) >= top <==> (a >= top || b >= top)) by (bit_vector)
        requires
            top == 0x8000_0000_0000_0000u64,
    ;
    assert((a ^ b) >= top <==> ((a >= top) != (b >= top))) by (bit_vector)
        requires
            top == 0x8000_0000_0000_0000u64,
    ;
    assert(0u8 & 0u8 == 0u8 && 0u8 & 255u8 == 0u8 && 255u8 & 0u8 == 0u8 && 255u8 & 255u8 == 255u8
        && 0u8 | 0u8 == 0u8 && 0u8 | 255u8 == 255u8 && 255u8 | 0u8 == 255u8 && 255u8 | 255u8
        == 255u8 && 0u8 ^ 0u8 == 0u8 && 0u8 ^ 255u8 == 255u8 && 255u8 ^ 0u8 == 255u8 && 255u8
        ^ 255u8 == 0u8) by (bit_vector);
    assert(word_bits(r, 8) == c as int);
    assert forall|k: nat| #[trigger]
        byte_at(r, k) == byte_op(op, byte_at(x, k) as u8, byte_at(y, k) as u8) as int by {
        lemma_small_digit(x, k);
        lemma_small_digit(y, k);
        lemma_small_digit(r, k);
        lemma_word_op_digit(op, a, b, k);
    }
}

/// The integer with the given digits of two's complement, the last of which
/// holds nothing but the sign.
fn from_twos_digits(ext: Vec<u8>) -> (r: Integer)
    requires
        ext.len() > 0,
        ext@.last() == 0 || ext@.last() == 255,
    ensures
        forall|k: nat| #[trigger]
            byte_at(r@, k) == if k < ext.len() {
                ext[k as int] as int
            } else {
                ext@.last() as int
            },
{
    let len: usize = ext.len();
    let negative: bool = ext[len - 1] == 255;
    proof {
        lemma_le_value_bound(ext@);
        lemma_le_value_bound(ext@.drop_last());
        lemma_pow256_positive((len - 1) as nat);
        assert(255 * pow256((len - 1) as nat) > 0) by (nonlinear_arith)
            requires
                pow256((len - 1) as nat) >= 1,
        ;
    }
    if negative {
        let (mag, zero) = negate(&ext);
        let r = Integer::from_parts(true, trim(mag));
        proof {
            assert(r@ == le_value(ext@) + (-1) * pow256(len as nat));
            assert forall|k: nat| #[trigger]
                byte_at(r@, k) == if k < ext.len() {
                    ext[k as int] as int
                } else {
                    ext@.last() as int
                } by {
                lemma_byte_at_le_value(ext@, k);
                if k < len {
                    lemma_byte_at_add_multiple(le_value(ext@), -1, len as nat, k);
                } else {
                    lemma_byte_at_high_ones(r@, len as nat, k);
                }
            }
        }
        r
    } else {
        let ghost digits = ext@;
        let r = Integer::from_parts(false, trim(ext));
        proof {
            assert forall|k: nat| #[trigger]
                byte_at(r@, k) == if k < digits.len() {
                    digits[k as int] as int
                } else {
                    digits.last() as int
                } by {
                lemma_byte_at_le_value(digits, k);
            }
        }
        r
    }
}

impl Integer {
    /// The operation on two integers of any size. Two small integers are
    /// combined as host words.
    pub fn combine(&self, op: BitOp, rhs: &Integer) -> (r: Integer)
        ensures
            combines(op, self@, rhs@, r@),
            self.spec_is_fixnum() && rhs.spec_is_fixnum() ==> r@ == small_combine(
                op,
                self@,
                rhs@,
            ),
    {
        match (self.to_fixnum(), rhs.to_fixnum()) {
            (Some(a), Some(b)) => {
                proof {
                    lemma_small_combine(op, a as int, b as int);
                    lemma_pow256_values();
                }
                let bits: u64 = apply_word(op, a.to_bits() as u64, b.to_bits() as u64);
                let c: i64 = i64::from_bits(bits as u128);
                let r = Integer::from_word(c);
                r
            },
            _ => {
                let (a_neg, a_mag) = self.parts();
                let (b_neg, b_mag) = rhs.parts();
                let ghost a_m: Seq<u8> = a_mag@;
                let ghost b_m: Seq<u8> = b_mag@;
                let longer: usize = if a_mag.len() > b_mag.len() {
                    a_mag.len()
                } else {
                    b_mag.len()
                };
                let a_fill: u8 = if a_neg {
                    255
                } else {
                    0
                };
                let b_fill: u8 = if b_neg {
                    255
                } else {
                    0
                };
                let a_ext: Vec<u8> = if a_neg {
                    negate(&a_mag).0
                } else {
                    a_mag
                };
                let b_ext: Vec<u8> = if b_neg {
                    negate(&b_mag).0
                } else {
                    b_mag
                };
                let mut out: Vec<u8> = Vec::new();
                let mut i: usize = 0;
                while i < longer
                    invariant
                        i <= longer,
                        a_ext.len() <= longer,
                        b_ext.len() <= longer,
                        out.len() == i,
                        forall|k: int|
                            0 <= k < i ==> #[trigger] out[k] == byte_op(
                                op,
                                if k < a_ext.len() {
                                    a_ext[k]
                                } else {
                                    a_fill
                                },
                                if k < b_ext.len() {
                                    b_ext[k]
                                } else {
                                    b_fill
                                },
                            ),
                    decreases longer - i,
                {
                    let da: u8 = if i < a_ext.len() {
                        a_ext[i]
                    } else {
                        a_fill
                    };
                    let db: u8 = if i < b_ext.len() {
                        b_ext[i]
                    } else {
                        b_fill
                    };
                    out.push(apply(op, da, db));
                    i += 1;
                }
                out.push(apply(op, a_fill, b_fill));
                proof {
                    assert(0u8 & 0u8 == 0u8 && 0u8 & 255u8 == 0u8 && 255u8 & 0u8 == 0u8 && 255u8
                        & 255u8 == 255u8 && 0u8 | 0u8 == 0u8 && 0u8 | 255u8 == 255u8 && 255u8 | 0u8
                        == 255u8 && 255u8 | 255u8 == 255u8 && 0u8 ^ 0u8 == 0u8 && 0u8 ^ 255u8
                        == 255u8 && 255u8 ^ 0u8 == 255u8 && 255u8 ^ 255u8 == 0u8) by (bit_vector);
                    assert(out@.last() == byte_op(op, a_fill, b_fill));
                }
                let ghost digits = out@;
                let r = from_twos_digits(out);
                proof {
                    assert forall|k: nat| #[trigger]
                        byte_at(r@, k) == byte_op(
                            op,
                            byte_at(self@, k) as u8,
                            byte_at(rhs@, k) as u8,
                        ) as int by {
                        lemma_pattern_digit(self@, true, a_m, a_ext@, k);
                        lemma_pattern_digit(rhs@, true, b_m, b_ext@, k);
                        if k < longer {
                            assert(digits[k as int] == byte_op(
                                op,
                                if k < a_ext.len() {
                                    a_ext[k as int]
                                } else {
                                    a_fill
                                },
                                if k < b_ext.len() {
                                    b_ext[k as int]
                                } else {
                                    b_fill
                                },
                            ));
                        }
                    }
                }
                r
            },
        }
    }

    /// Bitwise AND.
    pub fn bitand(&self, rhs: &Integer) -> (r: Integer)
        ensures
            combines(BitOp::And, self@, rhs@, r@),
            self.spec_is_fixnum() && rhs.spec_is_fixnum() ==> r@ == small_combine(
                BitOp::And,
                self@,
                rhs@,
            ),
    {
        self.combine(BitOp::And, rhs)
    }

    /// Bitwise OR.
    pub fn bitor(&self, rhs: &Integer) -> (r: Integer)
        ensures
            combines(BitOp::Or, self@, rhs@, r@),
            self.spec_is_fixnum() && rhs.spec_is_fixnum() ==> r@ == small_combine(
                BitOp::Or,
                self@,
                rhs@,
            ),
    {
        self.combine(BitOp::Or, rhs)
    }

    /// Bitwise XOR.
    pub fn bitxor(&self, rhs: &Integer) -> (r: Integer)
        ensures
            combines(BitOp::Xor, self@, rhs@, r@),
            self.spec_is_fixnum() && rhs.spec_is_fixnum() ==> r@ == small_combine(
                BitOp::Xor,
                self@,
                rhs@,
            ),
    {
        self.combine(BitOp::Xor, rhs)
    }
}

} // verus!
