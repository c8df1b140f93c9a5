//! The wrapper of the machine's floating-point objects.

use crate::object::{AnyObject, Heap, Kind, Typed, spec_cast_succeeds};
use crate::value::Ty;
use vstd::prelude::*;

verus! {

/// An object that is a floating-point number of the machine.
#[derive(Clone, Copy, Debug)]
pub struct Float {
    object: AnyObject,
}

impl Float {
    pub closed spec fn spec_object(self) -> AnyObject {
        self.object
    }

    /// The wrapper of `source` as a floating-point number, if it is one. A
    /// wrapper of this kind is taken over as it is.
    pub fn cast(source: Typed, heap: &mut Heap) -> (r: Option<Float>)
        ensures
            r is Some <==> spec_cast_succeeds(
                source.spec_kind(),
                Kind::Float,
                old(heap).spec_runtime(source.spec_object()@),
            ),
            r is Some ==> r->Some_0.spec_object() == source.spec_object(),
            forall|addr: u64| final(heap).spec_header(addr) == old(heap).spec_header(addr),
    {
        match source.cast(Kind::Float, heap) {
            Some(typed) => Some(Float { object: typed.into_any_object() }),
            None => None,
        }
    }

    /// The object under the wrapper.
    pub fn into_any_object(self) -> (obj: AnyObject)
        ensures
            obj == self.spec_object(),
    {
        self.object
    }

    /// The runtime type of every object of this kind.
    pub fn ty(self) -> (ty: Ty)
        ensures
            ty == Ty::Float,
    {
        Ty::Float
    }

    /// Whether the object is of the runtime type `ty`.
    pub fn is_ty(self, ty: Ty) -> (b: bool)
        ensures
            b == (ty == Ty::Float),
    {
        ty == Ty::Float
    }
}

} // verus!
