//! Typed, checked access to the values of an embedded dynamic-language
//! virtual machine: classification of tagged words, typed casts, the
//! protected-call boundary, the integer codec and host-owned objects.

pub mod mixin;
pub mod num;
pub mod object;
pub mod protected;
pub mod rosy;
pub mod rstring;
pub mod text;
pub mod value;
pub mod vm;

pub use crate::mixin::DefMixinError;
pub use crate::num::float::Float;
pub use crate::num::integer::Integer;
pub use crate::object::{AnyObject, Kind, Typed};
pub use crate::protected::{AnyException, Boundary, Outcome, Signal};
pub use crate::rosy::{Rosy, RosyObject};
