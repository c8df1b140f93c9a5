//! Integers from host words of every width, by `From`.

use crate::num::integer::Integer;
use vstd::prelude::*;
use vstd::std_specs::convert::FromSpecImpl;

verus! {

impl From<usize> for Integer {
    /// The integer that `word` holds.
    fn from(word: usize) -> (r: Integer)
        ensures
            r@ == word,
    {
        Integer::from_word(word)
    }
}

impl FromSpecImpl<usize> for Integer {
    /// What `from` gives is stated over the integer's view, by `from` itself.
    open spec fn obeys_from_spec() -> bool {
        false
    }

    open spec fn from_spec(v: usize) -> Integer {
        arbitrary()
    }
}

impl From<u128> for Integer {
    /// The integer that `word` holds.
    fn from(word: u128) -> (r: Integer)
        ensures
            r@ == word,
    {
        Integer::from_word(word)
    }
}

impl FromSpecImpl<u128> for Integer {
    /// What `from` gives is stated over the integer's view, by `from` itself.
    open spec fn obeys_from_spec() -> bool {
        false
    }

    open spec fn from_spec(v: u128) -> Integer {
        arbitrary()
    }
}

impl From<u64> for Integer {
    /// The integer that `word` holds.
    fn from(word: u64) -> (r: Integer)
        ensures
            r@ == word,
    {
        Integer::from_word(word)
    }
}

impl FromSpecImpl<u64> for Integer {
    /// What `from` gives is stated over the integer's view, by `from` itself.
    open spec fn obeys_from_spec() -> bool {
        false
    }

    open spec fn from_spec(v: u64) -> Integer {
        arbitrary()
    }
}

impl From<u32> for Integer {
    /// The integer that `word` holds.
    fn from(word: u32) -> (r: Integer)
        ensures
            r@ == word,
    {
        Integer::from_word(word)
    }
}

impl FromSpecImpl<u32> for Integer {
    /// What `from` gives is stated over the integer's view, by `from` itself.
    open spec fn obeys_from_spec() -> bool {
        false
    }

    open spec fn from_spec(v: u32) -> Integer {
        arbitrary()
    }
}

impl From<u16> for Integer {
    /// The integer that `word` holds.
    fn from(word: u16) -> (r: Integer)
        ensures
            r@ == word,
    {
        Integer::from_word(word)
    }
}

impl FromSpecImpl<u16> for Integer {
    /// What `from` gives is stated over the integer's view, by `from` itself.
    open spec fn obeys_from_spec() -> bool {
        false
    }

    open spec fn from_spec(v: u16) -> Integer {
        arbitrary()
    }
}

impl From<u8> for Integer {
    /// The integer that `word` holds.
    fn from(word: u8) -> (r: Integer)
        ensures
            r@ == word,
    {
        Integer::from_word(word)
    }
}

impl FromSpecImpl<u8> for Integer {
    /// What `from` gives is stated over the integer's view, by `from` itself.
    open spec fn obeys_from_spec() -> bool {
        false
    }

    open spec fn from_spec(v: u8) -> Integer {
        arbitrary()
    }
}

impl From<isize> for Integer {
    /// The integer that `word` holds.
    fn from(word: isize) -> (r: Integer)
        ensures
            r@ == word,
    {
        Integer::from_word(word)
    }
}

impl FromSpecImpl<isize> for Integer {
    /// What `from` gives is stated over the integer's view, by `from` itself.
    open spec fn obeys_from_spec() -> bool {
        false
    }

    open spec fn from_spec(v: isize) -> Integer {
        arbitrary()
    }
}

impl From<i128> for Integer {
    /// The integer that `word` holds.
    fn from(word: i128) -> (r: Integer)
        ensures
            r@ == word,
    {
        Integer::from_word(word)
    }
}

impl FromSpecImpl<i128> for Integer {
    /// What `from` gives is stated over the integer's view, by `from` itself.
    open spec fn obeys_from_spec() -> bool {
        false
    }

    open spec fn from_spec(v: i128) -> Integer {
        arbitrary()
    }
}

impl From<i64> for Integer {
    /// The integer that `word` holds.
    fn from(word: i64) -> (r: Integer)
        ensures
            r@ == word,
    {
        Integer::from_word(word)
    }
}

impl FromSpecImpl<i64> for Integer {
    /// What `from` gives is stated over the integer's view, by `from` itself.
    open spec fn obeys_from_spec() -> bool {
        false
    }

    open spec fn from_spec(v: i64) -> Integer {
        arbitrary()
    }
}

impl From<i32> for Integer {
    /// The integer that `word` holds.
    fn from(word: i32) -> (r: Integer)
        ensures
            r@ == word,
    {
        Integer::from_word(word)
    }
}

impl FromSpecImpl<i32> for Integer {
    /// What `from` gives is stated over the integer's view, by `from` itself.
    open spec fn obeys_from_spec() -> bool {
        false
    }

    open spec fn from_spec(v: i32) -> Integer {
        arbitrary()
    }
}

impl From<i16> for Integer {
    /// The integer that `word` holds.
    fn from(word: i16) -> (r: Integer)
        ensures
            r@ == word,
    {
        Integer::from_word(word)
    }
}

impl FromSpecImpl<i16> for Integer {
    /// What `from` gives is stated over the integer's view, by `from` itself.
    open spec fn obeys_from_spec() -> bool {
        false
    }

    open spec fn from_spec(v: i16) -> Integer {
        arbitrary()
    }
}

impl From<i8> for Integer {
    /// The integer that `word` holds.
    fn from(word: i8) -> (r: Integer)
        ensures
            r@ == word,
    {
        Integer::from_word(word)
    }
}

impl FromSpecImpl<i8> for Integer {
    /// What `from` gives is stated over the integer's view, by `from` itself.
    open spec fn obeys_from_spec() -> bool {
        false
    }

    open spec fn from_spec(v: i8) -> Integer {
        arbitrary()
    }
}

} // verus!
