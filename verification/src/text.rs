//! What the library takes for granted of the standard library's strings.

use vstd::prelude::*;

verus! {

/// `String::push` appends the character to the end of the string.
pub assume_specification[ std::string::String::push ](s: &mut std::string::String, ch: char)
    ensures
        final(s)@ == old(s)@.push(ch),
;

/// `String::push_str` appends the given string to the end of the string.
pub assume_specification[ std::string::String::push_str ](
    s: &mut std::string::String,
    string: &str,
)
    ensures
        final(s)@ == old(s)@ + string@,
;

} // verus!
