//! Integers of the machine: small ones inline, the rest as sign and
//! magnitude, and the codec between them and buffers of host words.

use crate::num::digits::{
    le_value, lemma_le_value_bound, lemma_normalized_lower_bound, lemma_pow256_monotonic,
    lemma_pow256_values, normalized,
};
use crate::num::magnitude::{assemble, bytes_of_u128};
use crate::object::AnyObject;
use crate::value::{
    fixnum_to_value, spec_classify, spec_fixnum_of, spec_fixnum_word, value_is_fixnum,
    value_to_fixnum, Tag, Ty, MAX_FIXNUM, MIN_FIXNUM,
};
use vstd::prelude::*;

verus! {

/// How an integer is held: inline where a tagged word can carry it, else as
/// a sign and the digits of its magnitude, least significant first.
#[derive(Debug)]
enum Repr {
    Small(i64),
    Big { negative: bool, magnitude: Vec<u8> },
}

/// An integer of any size.
#[derive(Debug)]
pub struct Integer {
    repr: Repr,
}

impl Clone for Integer {
    /// The same integer once more.
    fn clone(&self) -> (r: Integer)
        ensures
            r@ == self@,
    {
        let (negative, magnitude) = self.parts();
        Integer::from_parts(negative, magnitude)
    }
}

impl View for Integer {
    type V = int;

    /// The integer as a number.
    closed spec fn view(&self) -> int {
        match self.repr {
            Repr::Small(n) => n as int,
            Repr::Big { negative, magnitude } => if negative {
                -le_value(magnitude@)
            } else {
                le_value(magnitude@)
            },
        }
    }
}

impl Integer {
    /// An inline integer is of the small range; any other is outside it, and
    /// its magnitude has no zero digit at the top.
    #[verifier::type_invariant]
    closed spec fn wf(self) -> bool {
        match self.repr {
            Repr::Small(n) => MIN_FIXNUM <= n <= MAX_FIXNUM,
            Repr::Big { negative, magnitude } => normalized(magnitude@) && if negative {
                le_value(magnitude@) > -MIN_FIXNUM
            } else {
                le_value(magnitude@) > MAX_FIXNUM
            },
        }
    }

    /// Whether the integer is of the range that a tagged word carries.
    pub open spec fn spec_is_fixnum(&self) -> bool {
        MIN_FIXNUM <= self@ <= MAX_FIXNUM
    }

    /// The integer 0.
    pub fn zero() -> (r: Integer)
        ensures
            r@ == 0,
    {
        Integer { repr: Repr::Small(0) }
    }

    /// The greatest integer that is held inline.
    pub fn max_fixnum() -> (r: Integer)
        ensures
            r@ == MAX_FIXNUM,
    {
        Integer { repr: Repr::Small(MAX_FIXNUM) }
    }

    /// The least integer that is held inline.
    pub fn min_fixnum() -> (r: Integer)
        ensures
            r@ == MIN_FIXNUM,
    {
        Integer { repr: Repr::Small(MIN_FIXNUM) }
    }

    /// The inline integer that the tagged word of `n` carries: `n` itself in
    /// the small range, and outside it `n` without its top bit.
    pub fn from_fixnum_wrapping(n: i64) -> (r: Integer)
        ensures
            r@ == spec_fixnum_of(spec_fixnum_word(n as int) as u64),
            MIN_FIXNUM <= n <= MAX_FIXNUM ==> r@ == n,
            r.spec_is_fixnum(),
    {
        let raw: u64 = fixnum_to_value(n);
        let back: i64 = value_to_fixnum(raw);
        Integer { repr: Repr::Small(back) }
    }

    /// Whether the integer is 0.
    pub fn is_zero(&self) -> (b: bool)
        ensures
            b == (self@ == 0),
    {
        proof {
            use_type_invariant(self);
        }
        match &self.repr {
            Repr::Small(n) => *n == 0,
            Repr::Big { .. } => false,
        }
    }

    /// Whether the integer is 0 or more.
    pub fn is_positive(&self) -> (b: bool)
        ensures
            b == (self@ >= 0),
    {
        !self.is_negative()
    }

    /// Whether the integer is less than 0.
    pub fn is_negative(&self) -> (b: bool)
        ensures
            b == (self@ < 0),
    {
        proof {
            use_type_invariant(self);
        }
        match &self.repr {
            Repr::Small(n) => *n < 0,
            Repr::Big { negative, magnitude } => {
                proof {
                    lemma_le_value_bound(magnitude@);
                }
                *negative
            },
        }
    }

    /// Whether the integer is held out of line.
    pub fn is_bignum(&self) -> (b: bool)
        ensures
            b == !self.spec_is_fixnum(),
    {
        !self.is_fixnum()
    }

    /// Whether the integer is held inline.
    pub fn is_fixnum(&self) -> (b: bool)
        ensures
            b == self.spec_is_fixnum(),
    {
        proof {
            use_type_invariant(self);
        }
        match &self.repr {
            Repr::Small(_) => true,
            Repr::Big { .. } => false,
        }
    }

    /// The integer as a host number, if it is held inline.
    pub fn to_fixnum(&self) -> (r: Option<i64>)
        ensures
            r is Some <==> self.spec_is_fixnum(),
            r is Some ==> r->Some_0 == self@,
    {
        proof {
            use_type_invariant(self);
        }
        match &self.repr {
            Repr::Small(n) => Some(*n),
            Repr::Big { .. } => None,
        }
    }

    /// The integer as a host number, for an integer that is held inline.
    pub fn to_fixnum_unchecked(&self) -> (n: i64)
        requires
            self.spec_is_fixnum(),
        ensures
            n == self@,
    {
        proof {
            use_type_invariant(self);
        }
        match &self.repr {
            Repr::Small(n) => *n,
            Repr::Big { .. } => 0,
        }
    }

    /// The tagged word of an integer that is held inline.
    pub fn to_word(&self) -> (r: Option<u64>)
        ensures
            r is Some <==> self.spec_is_fixnum(),
            r is Some ==> r->Some_0 == spec_fixnum_word(self@) && spec_fixnum_of(r->Some_0)
                == self@,
    {
        proof {
            use_type_invariant(self);
        }
        match &self.repr {
            Repr::Small(n) => Some(fixnum_to_value(*n)),
            Repr::Big { .. } => None,
        }
    }

    /// The integer that an object carries in its own word; nothing for an
    /// object that is no small integer.
    pub fn from_object(object: AnyObject) -> (r: Option<Integer>)
        ensures
            r is Some <==> spec_classify(object@) == Tag::SmallInteger,
            r is Some ==> r->Some_0@ == spec_fixnum_of(object@),
    {
        let raw: u64 = object.raw();
        if value_is_fixnum(raw) {
            let n: i64 = value_to_fixnum(raw);
            Some(Integer { repr: Repr::Small(n) })
        } else {
            None
        }
    }

    /// The object of an integer that is held inline.
    pub fn to_object(&self) -> (r: Option<AnyObject>)
        ensures
            r is Some <==> self.spec_is_fixnum(),
            r is Some ==> r->Some_0@ == spec_fixnum_word(self@) && spec_fixnum_of(r->Some_0@)
                == self@,
    {
        match self.to_word() {
            Some(raw) => Some(AnyObject::from_raw(raw)),
            None => None,
        }
    }

    /// The runtime type of the integer: small or large.
    pub fn ty(&self) -> (ty: Ty)
        ensures
            ty == if self.spec_is_fixnum() {
                Ty::Fixnum
            } else {
                Ty::Bignum
            },
    {
        if self.is_fixnum() {
            Ty::Fixnum
        } else {
            Ty::Bignum
        }
    }

    /// Whether the integer is of the runtime type `ty`.
    pub fn is_ty(&self, ty: Ty) -> (b: bool)
        ensures
            b == (ty == if self.spec_is_fixnum() {
                Ty::Fixnum
            } else {
                Ty::Bignum
            }),
    {
        self.ty() == ty
    }

    /// The sign and the magnitude of the integer, the magnitude without zero
    /// digits at the top.
    pub fn parts(&self) -> (r: (bool, Vec<u8>))
        ensures
            normalized(r.1@),
            r.0 == (self@ < 0),
            self@ == if r.0 {
                -le_value(r.1@)
            } else {
                le_value(r.1@)
            },
    {
        proof {
            use_type_invariant(self);
        }
        match &self.repr {
            Repr::Small(n) => {
                let n: i64 = *n;
                if n < 0 {
                    let m: i128 = 0 - n as i128;
                    (true, bytes_of_u128(m as u128))
                } else {
                    (false, bytes_of_u128(n as u128))
                }
            },
            Repr::Big { negative, magnitude } => {
                proof {
                    lemma_le_value_bound(magnitude@);
                }
                (*negative, magnitude.clone())
            },
        }
    }

    /// The integer with the given sign and magnitude; the sign of 0 is not
    /// looked at.
    pub fn from_parts(negative: bool, magnitude: Vec<u8>) -> (r: Integer)
        requires
            normalized(magnitude@),
        ensures
            r@ == if negative {
                -le_value(magnitude@)
            } else {
                le_value(magnitude@)
            },
    {
        proof {
            lemma_pow256_values();
            lemma_le_value_bound(magnitude@);
        }
        if magnitude.len() <= 8 {
            proof {
                lemma_pow256_monotonic(magnitude.len() as nat, 8);
            }
            let m: u128 = assemble(&magnitude, false);
            if negative && m <= 0x4000_0000_0000_0000 {
                let n: i64 = (0 - m as i128) as i64;
                return Integer { repr: Repr::Small(n) };
            }
            if !negative && m <= 0x3fff_ffff_ffff_ffff {
                return Integer { repr: Repr::Small(m as i64) };
            }
        } else {
            proof {
                lemma_normalized_lower_bound(magnitude@);
                lemma_pow256_monotonic(8, (magnitude.len() - 1) as nat);
            }
        }
        Integer { repr: Repr::Big { negative, magnitude } }
    }
}

} // verus!
