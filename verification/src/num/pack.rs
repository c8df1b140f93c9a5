//! Words, byte orders and the report of a pack.

use crate::num::digits::{digits_of, le_value, pow256};
use vstd::prelude::*;

verus! {

/// The bit pattern of a word that holds `value`: its remainder by the power
/// of the word's width in bytes.
pub open spec fn word_bits(value: int, width: nat) -> int {
    value % pow256(width)
}

/// The number that a word of `width` bytes with the pattern `bits` holds:
/// a signed word counts its top bit as negative.
pub open spec fn word_value(bits: int, signed: bool, width: nat) -> int {
    if signed && 2 * bits >= pow256(width) {
        bits - pow256(width)
    } else {
        bits
    }
}

/// Whether a word of `width` bytes can hold `v`.
pub open spec fn word_in_range(v: int, signed: bool, width: nat) -> bool {
    if signed {
        -pow256(width) <= 2 * v < pow256(width)
    } else {
        0 <= v < pow256(width)
    }
}

/// Which end comes first.
#[derive(Clone, Copy, Debug, PartialEq, Eq, Structural)]
pub enum Order {
    /// The least significant first.
    Least,
    /// The most significant first.
    Most,
}

/// The order of the bytes inside each word of a buffer.
#[derive(Clone, Copy, Debug, PartialEq, Eq, Structural)]
pub enum ByteOrder {
    /// The order of the host: a word holds its digits as its own number.
    Native,
    /// Little-endian, whatever the host.
    Least,
    /// Big-endian, whatever the host.
    Most,
}

/// How a buffer of words stands for an integer.
#[derive(Clone, Copy, Debug, PartialEq, Eq, Structural)]
pub struct Options {
    /// The order of the words in the buffer.
    pub word_order: Order,
    /// The order of the bytes in each word.
    pub byte_order: ByteOrder,
    /// Whether a buffer that is unpacked stands for a negative number.
    pub is_negative: bool,
}

impl Options {
    /// Whether a word's bytes are reversed against the host's own order,
    /// on a host that is little-endian or not.
    pub open spec fn swaps(self, little_host: bool) -> bool {
        match self.byte_order {
            ByteOrder::Native => false,
            ByteOrder::Least => !little_host,
            ByteOrder::Most => little_host,
        }
    }

    /// The least significant word first, bytes in the host's order, not
    /// negative.
    pub fn new() -> (o: Options)
        ensures
            o == (Options {
                word_order: Order::Least,
                byte_order: ByteOrder::Native,
                is_negative: false,
            }),
    {
        Options { word_order: Order::Least, byte_order: ByteOrder::Native, is_negative: false }
    }

    /// Words and bytes both most significant first.
    pub fn big_endian() -> (o: Options)
        ensures
            o == (Options {
                word_order: Order::Most,
                byte_order: ByteOrder::Most,
                is_negative: false,
            }),
    {
        Options { word_order: Order::Most, byte_order: ByteOrder::Most, is_negative: false }
    }

    /// Words and bytes both least significant first.
    pub fn little_endian() -> (o: Options)
        ensures
            o == (Options {
                word_order: Order::Least,
                byte_order: ByteOrder::Least,
                is_negative: false,
            }),
    {
        Options { word_order: Order::Least, byte_order: ByteOrder::Least, is_negative: false }
    }

    /// The same options with another order of words.
    pub fn word_order(self, order: Order) -> (o: Options)
        ensures
            o == (Options { word_order: order, ..self }),
    {
        Options { word_order: order, byte_order: self.byte_order, is_negative: self.is_negative }
    }

    /// The same options with another order of bytes.
    pub fn byte_order(self, order: ByteOrder) -> (o: Options)
        ensures
            o == (Options { byte_order: order, ..self }),
    {
        Options { word_order: self.word_order, byte_order: order, is_negative: self.is_negative }
    }

    /// The same options with another sign for what is unpacked.
    pub fn is_negative(self, negative: bool) -> (o: Options)
        ensures
            o == (Options { is_negative: negative, ..self }),
    {
        Options { word_order: self.word_order, byte_order: self.byte_order, is_negative: negative }
    }

    /// Whether a word's bytes are reversed on this host.
    pub fn swaps_on(self, little_host: bool) -> (b: bool)
        ensures
            b == self.swaps(little_host),
    {
        match self.byte_order {
            ByteOrder::Native => false,
            ByteOrder::Least => !little_host,
            ByteOrder::Most => little_host,
        }
    }
}

/// The flag bits that the machine's own pack and unpack take.
pub const PACK_MSWORD_FIRST: i32 = 0x01;

pub const PACK_LSWORD_FIRST: i32 = 0x02;

pub const PACK_MSBYTE_FIRST: i32 = 0x10;

pub const PACK_LSBYTE_FIRST: i32 = 0x20;

pub const PACK_NATIVE_BYTE_ORDER: i32 = 0x40;

pub const PACK_2COMP: i32 = 0x80;

pub const PACK_NEGATIVE: i32 = 0x200;

impl Options {
    /// The flag bits for the two orders.
    pub open spec fn spec_flags(self) -> i32 {
        let word: i32 = match self.word_order {
            Order::Least => PACK_LSWORD_FIRST,
            Order::Most => PACK_MSWORD_FIRST,
        };
        let byte: i32 = match self.byte_order {
            ByteOrder::Native => PACK_NATIVE_BYTE_ORDER,
            ByteOrder::Least => PACK_LSBYTE_FIRST,
            ByteOrder::Most => PACK_MSBYTE_FIRST,
        };
        (word + byte) as i32
    }

    /// The flag bits for a pack into words that are signed or not: the two
    /// orders, and two's complement for signed words.
    pub open spec fn spec_pack_flags(self, signed: bool) -> i32 {
        (self.spec_flags() + if signed {
            PACK_2COMP
        } else {
            0i32
        }) as i32
    }

    /// The flag bits for an unpack: those of a pack, and the sign that is
    /// asked for.
    pub open spec fn spec_unpack_flags(self, signed: bool) -> i32 {
        (self.spec_pack_flags(signed) + if self.is_negative {
            PACK_NEGATIVE
        } else {
            0i32
        }) as i32
    }

    /// The flag bits for the two orders.
    pub fn flags(self) -> (f: i32)
        ensures
            f == self.spec_flags(),
    {
        let word: i32 = match self.word_order {
            Order::Least => PACK_LSWORD_FIRST,
            Order::Most => PACK_MSWORD_FIRST,
        };
        let byte: i32 = match self.byte_order {
            ByteOrder::Native => PACK_NATIVE_BYTE_ORDER,
            ByteOrder::Least => PACK_LSBYTE_FIRST,
            ByteOrder::Most => PACK_MSBYTE_FIRST,
        };
        word + byte
    }

    /// The flag bits for a pack.
    pub fn pack_flags(self, signed: bool) -> (f: i32)
        ensures
            f == self.spec_pack_flags(signed),
    {
        let two: i32 = if signed {
            PACK_2COMP
        } else {
            0
        };
        self.flags() + two
    }

    /// The flag bits for an unpack.
    pub fn unpack_flags(self, signed: bool) -> (f: i32)
        ensures
            f == self.spec_unpack_flags(signed),
    {
        let negative: i32 = if self.is_negative {
            PACK_NEGATIVE
        } else {
            0
        };
        self.pack_flags(signed) + negative
    }
}

impl Default for Options {
    fn default() -> (o: Options)
        ensures
            o == (Options {
                word_order: Order::Least,
                byte_order: ByteOrder::Native,
                is_negative: false,
            }),
    {
        Options::new()
    }
}

/// What a pack reports: the sign of the integer, and whether it was too large
/// for the buffer.
#[derive(Clone, Copy, Debug, PartialEq, Eq, Structural)]
pub enum Sign {
    Zero,
    Positive { did_overflow: bool },
    Negative { did_overflow: bool },
}

impl Sign {
    /// The report for the machine's code: 2 and 1 for a positive integer
    /// with and without overflow, 0 for zero, -1 for a negative integer,
    /// any other code for a negative integer with overflow.
    pub open spec fn spec_from_code(code: i32) -> Sign {
        if code == 2 {
            Sign::Positive { did_overflow: true }
        } else if code == 1 {
            Sign::Positive { did_overflow: false }
        } else if code == 0 {
            Sign::Zero
        } else if code == -1 {
            Sign::Negative { did_overflow: false }
        } else {
            Sign::Negative { did_overflow: true }
        }
    }

    /// The machine's code for a report, -2 for a negative overflow.
    pub open spec fn spec_code(self) -> i32 {
        match self {
            Sign::Positive { did_overflow: true } => 2i32,
            Sign::Positive { did_overflow: false } => 1i32,
            Sign::Zero => 0i32,
            Sign::Negative { did_overflow: false } => (-1i32) as i32,
            Sign::Negative { did_overflow: true } => (-2i32) as i32,
        }
    }

    pub open spec fn spec_did_overflow(self) -> bool {
        match self {
            Sign::Zero => false,
            Sign::Positive { did_overflow } => did_overflow,
            Sign::Negative { did_overflow } => did_overflow,
        }
    }

    pub fn from_code(code: i32) -> (s: Sign)
        ensures
            s == Self::spec_from_code(code),
    {
        if code == 2 {
            Sign::Positive { did_overflow: true }
        } else if code == 1 {
            Sign::Positive { did_overflow: false }
        } else if code == 0 {
            Sign::Zero
        } else if code == -1 {
            Sign::Negative { did_overflow: false }
        } else {
            Sign::Negative { did_overflow: true }
        }
    }

    pub fn code(self) -> (c: i32)
        ensures
            c == self.spec_code(),
            Self::spec_from_code(c) == self,
    {
        match self {
            Sign::Positive { did_overflow: true } => 2,
            Sign::Positive { did_overflow: false } => 1,
            Sign::Zero => 0,
            Sign::Negative { did_overflow: false } => -1,
            Sign::Negative { did_overflow: true } => -2,
        }
    }

    /// Whether the integer was too large for the buffer.
    pub fn did_overflow(self) -> (b: bool)
        ensures
            b == self.spec_did_overflow(),
    {
        match self {
            Sign::Zero => false,
            Sign::Positive { did_overflow } => did_overflow,
            Sign::Negative { did_overflow } => did_overflow,
        }
    }

    pub fn is_zero(self) -> (b: bool)
        ensures
            b == (self == Sign::Zero),
    {
        match self {
            Sign::Zero => true,
            _ => false,
        }
    }

    pub fn is_positive(self) -> (b: bool)
        ensures
            b == (self is Positive),
    {
        match self {
            Sign::Positive { .. } => true,
            _ => false,
        }
    }

    pub fn is_negative(self) -> (b: bool)
        ensures
            b == (self is Negative),
    {
        match self {
            Sign::Negative { .. } => true,
            _ => false,
        }
    }
}

/// The number that a pack writes the digits of: the integer itself where the
/// words are signed, which gives a negative one in two's complement, and its
/// magnitude where they are not.
pub open spec fn pack_pattern(v: int, twos: bool) -> int {
    if twos || v >= 0 {
        v
    } else {
        -v
    }
}

/// The bit pattern of the word of significance `i`, among words of `width`
/// bytes that hold the digits of `p`: its own digits, in reverse where the
/// byte order is not the host's.
pub open spec fn stored_bits(p: int, i: nat, width: nat, swap: bool) -> int {
    let d = digits_of(p, i * width, width);
    le_value(
        if swap {
            d.reverse()
        } else {
            d
        },
    )
}

/// The significance of the word at index `k` in a buffer of `n` words, and
/// the index of the word of significance `k`.
pub open spec fn slot(k: int, n: int, order: Order) -> int {
    match order {
        Order::Least => k,
        Order::Most => n - 1 - k,
    }
}

/// What a pack of `v` into `nbytes` bytes reports. In two's complement a
/// negative integer fits down to minus the power of the buffer's length; as
/// a magnitude it must stay below that power.
pub open spec fn pack_sign(v: int, twos: bool, nbytes: nat) -> Sign {
    if v == 0 {
        Sign::Zero
    } else if v > 0 {
        Sign::Positive { did_overflow: v >= pow256(nbytes) }
    } else if twos {
        Sign::Negative { did_overflow: v < -pow256(nbytes) }
    } else {
        Sign::Negative { did_overflow: v <= -pow256(nbytes) }
    }
}

/// Whether `buf` holds what a pack of `v` leaves in a buffer of its length:
/// each word the digits of its significance, the higher digits cut off.
pub open spec fn packed<W: Word>(v: int, order: Order, swap: bool, buf: Seq<W>) -> bool {
    forall|k: int|
        0 <= k < buf.len() ==> (#[trigger] buf[k]).value() == word_value(
            stored_bits(
                pack_pattern(v, W::signed()),
                slot(k, buf.len() as int, order) as nat,
                W::width(),
                swap,
            ),
            W::signed(),
            W::width(),
        )
}

/// The number that the `count` least significant words of a buffer stand
/// for when their bit patterns are put side by side.
pub open spec fn buffer_value<W: Word>(buf: Seq<W>, order: Order, swap: bool, count: nat) -> int
    decreases count,
{
    if count == 0 {
        0
    } else {
        let i = (count - 1) as nat;
        let w = buf[slot(i as int, buf.len() as int, order)];
        buffer_value(buf, order, swap, i) + stored_bits(
            word_bits(w.value(), W::width()),
            0,
            W::width(),
            swap,
        ) * pow256(i * W::width())
    }
}

/// The integer that `nbytes` bytes with the pattern `u` stand for. In two's
/// complement the top bit, or the sign asked for, makes it negative: the
/// pattern less the power of the length. As a magnitude the sign asked for
/// is the sign.
pub open spec fn unpack_value(u: int, nbytes: nat, twos: bool, negative: bool) -> int {
    if twos {
        if negative || 2 * u >= pow256(nbytes) {
            u - pow256(nbytes)
        } else {
            u
        }
    } else if negative {
        -u
    } else {
        u
    }
}

/// The integer that a buffer stands for.
pub open spec fn unpacked<W: Word>(buf: Seq<W>, order: Order, swap: bool, negative: bool) -> int {
    unpack_value(
        buffer_value(buf, order, swap, buf.len()),
        buf.len() * W::width(),
        W::signed(),
        negative,
    )
}

/// A fixed-width host integer that a buffer can be made of.
pub trait Word: Copy {
    /// Whether the type is signed (two's complement).
    spec fn signed() -> bool;

    /// The width of the type in bytes.
    spec fn width() -> nat;

    /// The number that the word holds.
    spec fn value(self) -> int;

    /// Every word is between 1 and 16 bytes wide and holds a number of its
    /// type's range.
    proof fn lemma_word(self)
        ensures
            1 <= Self::width() <= 16,
            word_in_range(self.value(), Self::signed(), Self::width()),
    ;

    fn is_signed() -> (b: bool)
        ensures
            b == Self::signed(),
    ;

    fn size() -> (n: usize)
        ensures
            n == Self::width(),
            1 <= n <= 16,
    ;

    fn zero() -> (w: Self)
        ensures
            w.value() == 0,
    ;

    /// The word's bit pattern, widened with zeros.
    fn to_bits(self) -> (bits: u128)
        ensures
            bits == word_bits(self.value(), Self::width()),
    ;

    /// The word with the given bit pattern.
    fn from_bits(bits: u128) -> (w: Self)
        requires
            bits < pow256(Self::width()),
        ensures
            w.value() == word_value(bits as int, Self::signed(), Self::width()),
    ;

    /// Whether the word holds less than `other`.
    fn less_than(self, other: Self) -> (b: bool)
        ensures
            b == (self.value() < other.value()),
    ;

    /// Whether the word holds what `other` holds.
    fn same_as(self, other: Self) -> (b: bool)
        ensures
            b == (self.value() == other.value()),
    ;
}

} // verus!
