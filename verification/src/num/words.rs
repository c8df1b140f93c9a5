//! The host's integer types as words of a buffer.

use crate::num::digits::lemma_pow256_values;
use crate::num::pack::Word;
use vstd::prelude::*;

verus! {

impl Word for u8 {
    open spec fn signed() -> bool {
        false
    }

    open spec fn width() -> nat {
        1
    }

    open spec fn value(self) -> int {
        self as int
    }

    proof fn lemma_word(self) {
        lemma_pow256_values();
    }

    fn is_signed() -> (b: bool) {
        false
    }

    fn size() -> (n: usize) {
        1
    }

    fn zero() -> (w: Self) {
        0
    }

    fn to_bits(self) -> (bits: u128) {
        proof {
            lemma_pow256_values();
        }
        self as u128
    }

    fn from_bits(bits: u128) -> (w: Self) {
        proof {
            lemma_pow256_values();
        }
        bits as u8
    }

    fn less_than(self, other: Self) -> (b: bool) {
        self < other
    }

    fn same_as(self, other: Self) -> (b: bool) {
        self == other
    }
}

impl Word for u16 {
    open spec fn signed() -> bool {
        false
    }

    open spec fn width() -> nat {
        2
    }

    open spec fn value(self) -> int {
        self as int
    }

    proof fn lemma_word(self) {
        lemma_pow256_values();
    }

    fn is_signed() -> (b: bool) {
        false
    }

    fn size() -> (n: usize) {
        2
    }

    fn zero() -> (w: Self) {
        0
    }

    fn to_bits(self) -> (bits: u128) {
        proof {
            lemma_pow256_values();
        }
        self as u128
    }

    fn from_bits(bits: u128) -> (w: Self) {
        proof {
            lemma_pow256_values();
        }
        bits as u16
    }

    fn less_than(self, other: Self) -> (b: bool) {
        self < other
    }

    fn same_as(self, other: Self) -> (b: bool) {
        self == other
    }
}

impl Word for u32 {
    open spec fn signed() -> bool {
        false
    }

    open spec fn width() -> nat {
        4
    }

    open spec fn value(self) -> int {
        self as int
    }

    proof fn lemma_word(self) {
        lemma_pow256_values();
    }

    fn is_signed() -> (b: bool) {
        false
    }

    fn size() -> (n: usize) {
        4
    }

    fn zero() -> (w: Self) {
        0
    }

    fn to_bits(self) -> (bits: u128) {
        proof {
            lemma_pow256_values();
        }
        self as u128
    }

    fn from_bits(bits: u128) -> (w: Self) {
        proof {
            lemma_pow256_values();
        }
        bits as u32
    }

    fn less_than(self, other: Self) -> (b: bool) {
        self < other
    }

    fn same_as(self, other: Self) -> (b: bool) {
        self == other
    }
}

impl Word for u64 {
    open spec fn signed() -> bool {
        false
    }

    open spec fn width() -> nat {
        8
    }

    open spec fn value(self) -> int {
        self as int
    }

    proof fn lemma_word(self) {
        lemma_pow256_values();
    }

    fn is_signed() -> (b: bool) {
        false
    }

    fn size() -> (n: usize) {
        8
    }

    fn zero() -> (w: Self) {
        0
    }

    fn to_bits(self) -> (bits: u128) {
        proof {
            lemma_pow256_values();
        }
        self as u128
    }

    fn from_bits(bits: u128) -> (w: Self) {
        proof {
            lemma_pow256_values();
        }
        bits as u64
    }

    fn less_than(self, other: Self) -> (b: bool) {
        self < other
    }

    fn same_as(self, other: Self) -> (b: bool) {
        self == other
    }
}

impl Word for u128 {
    open spec fn signed() -> bool {
        false
    }

    open spec fn width() -> nat {
        16
    }

    open spec fn value(self) -> int {
        self as int
    }

    proof fn lemma_word(self) {
        lemma_pow256_values();
    }

    fn is_signed() -> (b: bool) {
        false
    }

    fn size() -> (n: usize) {
        16
    }

    fn zero() -> (w: Self) {
        0
    }

    fn to_bits(self) -> (bits: u128) {
        proof {
            lemma_pow256_values();
        }
        self as u128
    }

    fn from_bits(bits: u128) -> (w: Self) {
        proof {
            lemma_pow256_values();
        }
        bits as u128
    }

    fn less_than(self, other: Self) -> (b: bool) {
        self < other
    }

    fn same_as(self, other: Self) -> (b: bool) {
        self == other
    }
}

impl Word for i8 {
    open spec fn signed() -> bool {
        true
    }

    open spec fn width() -> nat {
        1
    }

    open spec fn value(self) -> int {
        self as int
    }

    proof fn lemma_word(self) {
        lemma_pow256_values();
    }

    fn is_signed() -> (b: bool) {
        true
    }

    fn size() -> (n: usize) {
        1
    }

    fn zero() -> (w: Self) {
        0
    }

    fn to_bits(self) -> (bits: u128) {
        proof {
            lemma_pow256_values();
        }
        if self < 0 {
            let up: i128 = self as i128 + 0x100;
            up as u128
        } else {
            self as u128
        }
    }

    fn from_bits(bits: u128) -> (w: Self) {
        proof {
            lemma_pow256_values();
        }
        if bits >= 0x80 {
            let down: i128 = bits as i128 - 0x100;
            down as i8
        } else {
            bits as i8
        }
    }

    fn less_than(self, other: Self) -> (b: bool) {
        self < other
    }

    fn same_as(self, other: Self) -> (b: bool) {
        self == other
    }
}

impl Word for i16 {
    open spec fn signed() -> bool {
        true
    }

    open spec fn width() -> nat {
        2
    }

    open spec fn value(self) -> int {
        self as int
    }

    proof fn lemma_word(self) {
        lemma_pow256_values();
    }

    fn is_signed() -> (b: bool) {
        true
    }

    fn size() -> (n: usize) {
        2
    }

    fn zero() -> (w: Self) {
        0
    }

    fn to_bits(self) -> (bits: u128) {
        proof {
            lemma_pow256_values();
        }
        if self < 0 {
            let up: i128 = self as i128 + 0x1_0000;
            up as u128
        } else {
            self as u128
        }
    }

    fn from_bits(bits: u128) -> (w: Self) {
        proof {
            lemma_pow256_values();
        }
        if bits >= 0x8000 {
            let down: i128 = bits as i128 - 0x1_0000;
            down as i16
        } else {
            bits as i16
        }
    }

    fn less_than(self, other: Self) -> (b: bool) {
        self < other
    }

    fn same_as(self, other: Self) -> (b: bool) {
        self == other
    }
}

impl Word for i32 {
    open spec fn signed() -> bool {
        true
    }

    open spec fn width() -> nat {
        4
    }

    open spec fn value(self) -> int {
        self as int
    }

    proof fn lemma_word(self) {
        lemma_pow256_values();
    }

    fn is_signed() -> (b: bool) {
        true
    }

    fn size() -> (n: usize) {
        4
    }

    fn zero() -> (w: Self) {
        0
    }

    fn to_bits(self) -> (bits: u128) {
        proof {
            lemma_pow256_values();
        }
        if self < 0 {
            let up: i128 = self as i128 + 0x1_0000_0000;
            up as u128
        } else {
            self as u128
        }
    }

    fn from_bits(bits: u128) -> (w: Self) {
        proof {
            lemma_pow256_values();
        }
        if bits >= 0x8000_0000 {
            let down: i128 = bits as i128 - 0x1_0000_0000;
            down as i32
        } else {
            bits as i32
        }
    }

    fn less_than(self, other: Self) -> (b: bool) {
        self < other
    }

    fn same_as(self, other: Self) -> (b: bool) {
        self == other
    }
}

impl Word for i64 {
    open spec fn signed() -> bool {
        true
    }

    open spec fn width() -> nat {
        8
    }

    open spec fn value(self) -> int {
        self as int
    }

    proof fn lemma_word(self) {
        lemma_pow256_values();
    }

    fn is_signed() -> (b: bool) {
        true
    }

    fn size() -> (n: usize) {
        8
    }

    fn zero() -> (w: Self) {
        0
    }

    fn to_bits(self) -> (bits: u128) {
        proof {
            lemma_pow256_values();
        }
        if self < 0 {
            let up: i128 = self as i128 + 0x1_0000_0000_0000_0000;
            up as u128
        } else {
            self as u128
        }
    }

    fn from_bits(bits: u128) -> (w: Self) {
        proof {
            lemma_pow256_values();
        }
        if bits >= 0x8000_0000_0000_0000 {
            let down: i128 = bits as i128 - 0x1_0000_0000_0000_0000;
            down as i64
        } else {
            bits as i64
        }
    }

    fn less_than(self, other: Self) -> (b: bool) {
        self < other
    }

    fn same_as(self, other: Self) -> (b: bool) {
        self == other
    }
}

impl Word for i128 {
    open spec fn signed() -> bool {
        true
    }

    open spec fn width() -> nat {
        16
    }

    open spec fn value(self) -> int {
        self as int
    }

    proof fn lemma_word(self) {
        lemma_pow256_values();
    }

    fn is_signed() -> (b: bool) {
        true
    }

    fn size() -> (n: usize) {
        16
    }

    fn zero() -> (w: Self) {
        0
    }

    fn to_bits(self) -> (bits: u128) {
        proof {
            lemma_pow256_values();
        }
        if self < 0 {
            let up: i128 = self - i128::MIN;
            up as u128 + 0x8000_0000_0000_0000_0000_0000_0000_0000
        } else {
            self as u128
        }
    }

    fn from_bits(bits: u128) -> (w: Self) {
        proof {
            lemma_pow256_values();
        }
        if bits >= 0x8000_0000_0000_0000_0000_0000_0000_0000 {
            let low: u128 = bits - 0x8000_0000_0000_0000_0000_0000_0000_0000;
            low as i128 + i128::MIN
        } else {
            bits as i128
        }
    }

    fn less_than(self, other: Self) -> (b: bool) {
        self < other
    }

    fn same_as(self, other: Self) -> (b: bool) {
        self == other
    }
}

impl Word for usize {
    open spec fn signed() -> bool {
        false
    }

    open spec fn width() -> nat {
        (usize::BITS / 8) as nat
    }

    open spec fn value(self) -> int {
        self as int
    }

    proof fn lemma_word(self) {
        lemma_pow256_values();
    }

    fn is_signed() -> (b: bool) {
        false
    }

    fn size() -> (n: usize) {
        (usize::BITS / 8) as usize
    }

    fn zero() -> (w: Self) {
        0
    }

    fn to_bits(self) -> (bits: u128) {
        proof {
            lemma_pow256_values();
        }
        self as u128
    }

    fn from_bits(bits: u128) -> (w: Self) {
        proof {
            lemma_pow256_values();
        }
        bits as usize
    }

    fn less_than(self, other: Self) -> (b: bool) {
        self < other
    }

    fn same_as(self, other: Self) -> (b: bool) {
        self == other
    }
}

impl Word for isize {
    open spec fn signed() -> bool {
        true
    }

    open spec fn width() -> nat {
        (isize::BITS / 8) as nat
    }

    open spec fn value(self) -> int {
        self as int
    }

    proof fn lemma_word(self) {
        lemma_pow256_values();
    }

    fn is_signed() -> (b: bool) {
        true
    }

    fn size() -> (n: usize) {
        (isize::BITS / 8) as usize
    }

    fn zero() -> (w: Self) {
        0
    }

    fn to_bits(self) -> (bits: u128) {
        proof {
            lemma_pow256_values();
        }
        if self < 0 {
            let up: i128 = self as i128 - isize::MIN as i128 - isize::MIN as i128;
            up as u128
        } else {
            self as u128
        }
    }

    fn from_bits(bits: u128) -> (w: Self) {
        proof {
            lemma_pow256_values();
        }
        if bits > isize::MAX as u128 {
            let down: i128 = bits as i128 + isize::MIN as i128 + isize::MIN as i128;
            down as isize
        } else {
            bits as isize
        }
    }

    fn less_than(self, other: Self) -> (b: bool) {
        self < other
    }

    fn same_as(self, other: Self) -> (b: bool) {
        self == other
    }
}

} // verus!
