//! Equality and order of integers, among themselves and against host words.

use crate::num::codec::lemma_word_value_of_bits;
use crate::num::digits::{lemma_le_value_bound, lemma_pow256_positive};
use crate::num::integer::Integer;
use crate::num::magnitude::compare_magnitudes;
use crate::num::pack::Word;
use crate::object::{AnyObject, Equality};
use crate::value::{spec_classify, spec_fixnum_of, Tag};
use std::cmp::Ordering;
use vstd::prelude::*;
use vstd::std_specs::cmp::{PartialEqSpecImpl, PartialOrdSpecImpl};

verus! {

/// How `a` stands to `b`.
pub open spec fn order_of(a: int, b: int) -> Ordering {
    if a < b {
        Ordering::Less
    } else if a == b {
        Ordering::Equal
    } else {
        Ordering::Greater
    }
}

impl Integer {
    /// How the integer stands to `other`, by their signs and then by their
    /// magnitudes from the top digit down.
    pub fn cmp(&self, other: &Integer) -> (r: Ordering)
        ensures
            r == order_of(self@, other@),
    {
        let (a_neg, a_mag) = self.parts();
        let (b_neg, b_mag) = other.parts();
        proof {
            lemma_le_value_bound(a_mag@);
            lemma_le_value_bound(b_mag@);
        }
        if a_neg != b_neg {
            if a_neg {
                Ordering::Less
            } else {
                Ordering::Greater
            }
        } else {
            let by_size: i8 = compare_magnitudes(&a_mag, &b_mag);
            if by_size == 0 {
                Ordering::Equal
            } else if (by_size == -1) != a_neg {
                Ordering::Less
            } else {
                Ordering::Greater
            }
        }
    }

    /// Whether a host word holds the integer: where a word of its type can
    /// hold the integer at all, the two are compared as such words.
    pub fn eq_word<W: Word>(&self, other: W) -> (b: bool)
        ensures
            b == (self@ == other.value()),
    {
        proof {
            other.lemma_word();
        }
        match self.to_value::<W>() {
            Some(this) => this.same_as(other),
            None => false,
        }
    }

    /// How the equality of the integer and an object is found: against a
    /// small integer the numbers are compared; any other object is left to
    /// the machine.
    pub fn eq_object(&self, other: AnyObject) -> (e: Equality)
        ensures
            e == if spec_classify(other@) == Tag::SmallInteger {
                Equality::Decided(self@ == spec_fixnum_of(other@))
            } else {
                Equality::AskMachine
            },
    {
        match Integer::from_object(other) {
            Some(that) => match self.cmp(&that) {
                Ordering::Equal => Equality::Decided(true),
                _ => Equality::Decided(false),
            },
            None => Equality::AskMachine,
        }
    }

    /// How the integer stands to a host word, without cutting it down:
    /// where a word of that type can hold the integer the two are compared
    /// as such words; any other integer lies below every such word if it is
    /// negative and above every such word if it is not.
    pub fn partial_cmp_word<W: Word>(&self, other: W) -> (r: Option<Ordering>)
        ensures
            r == Some(order_of(self@, other.value())),
    {
        let (can_represent, is_negative) = self._can_represent::<W>();
        proof {
            other.lemma_word();
            lemma_pow256_positive(W::width());
        }
        if can_represent {
            let this: W = self.to_truncated::<W>();
            proof {
                lemma_word_value_of_bits(self@, W::signed(), W::width());
            }
            if this.less_than(other) {
                Some(Ordering::Less)
            } else if this.same_as(other) {
                Some(Ordering::Equal)
            } else {
                Some(Ordering::Greater)
            }
        } else if is_negative {
            Some(Ordering::Less)
        } else {
            Some(Ordering::Greater)
        }
    }
}

impl PartialEq for Integer {
    /// Whether the two integers are the same number.
    fn eq(&self, other: &Integer) -> (r: bool) {
        match self.cmp(other) {
            Ordering::Equal => true,
            _ => false,
        }
    }
}

impl PartialEqSpecImpl for Integer {
    open spec fn obeys_eq_spec() -> bool {
        true
    }

    open spec fn eq_spec(&self, other: &Integer) -> bool {
        self@ == other@
    }
}

impl PartialOrd for Integer {
    /// How the integer stands to `other`; any two integers are comparable.
    fn partial_cmp(&self, other: &Integer) -> (r: Option<Ordering>) {
        Some(self.cmp(other))
    }
}

impl PartialOrdSpecImpl for Integer {
    open spec fn obeys_partial_cmp_spec() -> bool {
        true
    }

    open spec fn partial_cmp_spec(&self, other: &Integer) -> Option<Ordering> {
        Some(order_of(self@, other@))
    }
}

} // verus!
