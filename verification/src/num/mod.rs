//! Numbers of the machine.

pub mod bits;
pub mod codec;
pub mod compare;
pub mod convert;
pub mod digits;
pub mod float;
pub mod integer;
pub mod laws;
pub mod magnitude;
pub mod pack;
pub mod radix;
pub mod words;
