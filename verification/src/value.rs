//! The tagged machine word and its classification.

use vstd::prelude::*;

verus! {

/// The word that stands for `false`.
pub const FALSE_VALUE: u64 = 0x00;

/// The word that stands for `nil`.
pub const NIL_VALUE: u64 = 0x08;

/// The word that stands for `true`.
pub const TRUE_VALUE: u64 = 0x14;

/// The word of the internal "undefined" marker.
pub const UNDEF_VALUE: u64 = 0x34;

/// What a tagged word denotes, decided from its bits alone.
#[derive(Clone, Copy, Debug, PartialEq, Eq, Structural)]
pub enum Tag {
    SmallInteger,
    Nil,
    True,
    False,
    Undefined,
    HeapPointer,
}

/// The class of a word: an odd word is a small integer, four even words are
/// the singletons, every other word points into the heap.
pub open spec fn spec_classify(raw: u64) -> Tag {
    if raw % 2 == 1 {
        Tag::SmallInteger
    } else if raw == NIL_VALUE {
        Tag::Nil
    } else if raw == TRUE_VALUE {
        Tag::True
    } else if raw == FALSE_VALUE {
        Tag::False
    } else if raw == UNDEF_VALUE {
        Tag::Undefined
    } else {
        Tag::HeapPointer
    }
}

/// The integer that a word carries above its tag bit: the word read as a
/// signed number, halved towards minus infinity.
pub open spec fn spec_fixnum_of(raw: u64) -> int {
    let signed: int = if raw >= 0x8000_0000_0000_0000 {
        raw - 0x1_0000_0000_0000_0000
    } else {
        raw as int
    };
    signed / 2
}

/// The odd word for `n`; integers outside the small range wrap.
pub open spec fn spec_fixnum_word(n: int) -> int {
    (2 * n + 1) % 0x1_0000_0000_0000_0000
}

/// Classifies a word without consulting the machine.
pub fn classify(raw: u64) -> (tag: Tag)
    ensures
        tag == spec_classify(raw),
{
    assert(raw & 1 == raw % 2) by (bit_vector);
    if raw & 1 == 1 {
        Tag::SmallInteger
    } else if raw == NIL_VALUE {
        Tag::Nil
    } else if raw == TRUE_VALUE {
        Tag::True
    } else if raw == FALSE_VALUE {
        Tag::False
    } else if raw == UNDEF_VALUE {
        Tag::Undefined
    } else {
        Tag::HeapPointer
    }
}

/// Whether the word carries a small integer.
pub fn value_is_fixnum(raw: u64) -> (b: bool)
    ensures
        b == (raw % 2 == 1),
{
    assert(raw & 1 == raw % 2) by (bit_vector);
    raw & 1 == 1
}

/// Decodes the small integer of a word by an arithmetic shift.
pub fn value_to_fixnum(raw: u64) -> (n: i64)
    ensures
        n == spec_fixnum_of(raw),
{
    if raw >= 0x8000_0000_0000_0000 {
        let low: u64 = raw - 0x8000_0000_0000_0000;
        let half: u64 = low >> 1;
        assert(half == low / 2) by (bit_vector)
            requires half == low >> 1;
        let back: i64 = half as i64;
        back - 0x4000_0000_0000_0000
    } else {
        let half: u64 = raw >> 1;
        assert(half == raw / 2) by (bit_vector)
            requires half == raw >> 1;
        half as i64
    }
}

/// The greatest integer that a word can carry.
pub const MAX_FIXNUM: i64 = 0x3fff_ffff_ffff_ffff;

/// The least integer that a word can carry.
pub const MIN_FIXNUM: i64 = -0x4000_0000_0000_0000;

/// Encodes `n` as an odd word: shifted left by one bit, which drops the top
/// bit of an integer outside the small range, and tagged.
pub fn fixnum_to_value(n: i64) -> (raw: u64)
    ensures
        raw == spec_fixnum_word(n as int),
        raw % 2 == 1,
{
    let bits: u64 = if n < 0 {
        let up: i128 = n as i128 + 0x1_0000_0000_0000_0000;
        up as u64
    } else {
        n as u64
    };
    let low: u64 = bits % 0x8000_0000_0000_0000;
    low * 2 + 1
}

/// An integer of the small range comes back from its word as it went in.
pub proof fn lemma_fixnum_round_trip(n: int)
    requires
        MIN_FIXNUM <= n <= MAX_FIXNUM,
    ensures
        0 <= spec_fixnum_word(n) <= u64::MAX,
        spec_fixnum_of(spec_fixnum_word(n) as u64) == n,
{
}

/// The runtime type of a value.
#[derive(Clone, Copy, Debug, PartialEq, Eq, Structural)]
pub enum Ty {
    Fixnum,
    Bignum,
    Float,
    String,
    Symbol,
    Array,
    Hash,
    Class,
    Module,
    /// An object whose class descends from the root of all exceptions.
    Exception,
    /// An object that wraps a value of the host.
    Data,
    Nil,
    True,
    False,
    Undef,
    /// Any other object.
    Other,
}

/// The bits of an object header's flags that hold its type.
pub const TYPE_MASK: u64 = 0x1f;

/// The type that the flags of an object header name. The family of
/// exceptions has no number of its own: it is told by the object's class.
pub open spec fn spec_header_type(flags: u64) -> Ty {
    let id = flags % 32;
    if id == 0x02 {
        Ty::Class
    } else if id == 0x03 {
        Ty::Module
    } else if id == 0x04 {
        Ty::Float
    } else if id == 0x05 {
        Ty::String
    } else if id == 0x07 {
        Ty::Array
    } else if id == 0x08 {
        Ty::Hash
    } else if id == 0x0a {
        Ty::Bignum
    } else if id == 0x0c {
        Ty::Data
    } else if id == 0x14 {
        Ty::Symbol
    } else {
        Ty::Other
    }
}

/// The type of a word that is no heap pointer.
pub open spec fn spec_immediate_type(raw: u64) -> Option<Ty> {
    match spec_classify(raw) {
        Tag::SmallInteger => Some(Ty::Fixnum),
        Tag::Nil => Some(Ty::Nil),
        Tag::True => Some(Ty::True),
        Tag::False => Some(Ty::False),
        Tag::Undefined => Some(Ty::Undef),
        Tag::HeapPointer => None,
    }
}

/// Whether a word counts as true: every word but `false` and `nil`.
pub open spec fn spec_test_value(raw: u64) -> bool {
    raw != FALSE_VALUE && raw != NIL_VALUE
}

/// Reads the type out of the flags of an object header.
pub fn header_type(flags: u64) -> (ty: Ty)
    ensures
        ty == spec_header_type(flags),
{
    assert(flags & 0x1f == flags % 32) by (bit_vector);
    let id: u64 = flags & TYPE_MASK;
    if id == 0x02 {
        Ty::Class
    } else if id == 0x03 {
        Ty::Module
    } else if id == 0x04 {
        Ty::Float
    } else if id == 0x05 {
        Ty::String
    } else if id == 0x07 {
        Ty::Array
    } else if id == 0x08 {
        Ty::Hash
    } else if id == 0x0a {
        Ty::Bignum
    } else if id == 0x0c {
        Ty::Data
    } else if id == 0x14 {
        Ty::Symbol
    } else {
        Ty::Other
    }
}

/// The type of a word that is no heap pointer, from its bits alone.
pub fn immediate_type(raw: u64) -> (ty: Option<Ty>)
    ensures
        ty == spec_immediate_type(raw),
{
    match classify(raw) {
        Tag::SmallInteger => Some(Ty::Fixnum),
        Tag::Nil => Some(Ty::Nil),
        Tag::True => Some(Ty::True),
        Tag::False => Some(Ty::False),
        Tag::Undefined => Some(Ty::Undef),
        Tag::HeapPointer => None,
    }
}

/// Whether a word counts as true.
pub fn test_value(raw: u64) -> (b: bool)
    ensures
        b == spec_test_value(raw),
{
    assert((raw & !0x08u64) != 0 <==> (raw != 0 && raw != 0x08)) by (bit_vector);
    (raw & !NIL_VALUE) != 0
}

} // verus!
