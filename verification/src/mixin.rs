//! What stands in the way when a class or a module is to be defined.

use crate::object::{AnyObject, Heap, Kind, Runtime, Typed};
use crate::value::Ty;
use vstd::prelude::*;

verus! {

/// Why a class or a module could not be defined.
#[derive(Clone, Copy, Debug)]
pub enum DefMixinError {
    /// A class of that name is there already.
    ExistingClass(Typed),
    /// A module of that name is there already.
    ExistingModule(Typed),
    /// Some other constant of that name is there already.
    ExistingConst(AnyObject),
    /// The class under which to define is frozen.
    FrozenClass(Typed),
    /// The module under which to define is frozen.
    FrozenModule(Typed),
}

impl DefMixinError {
    /// The error for a frozen class or module.
    pub fn _frozen(m: Typed) -> (e: DefMixinError)
        ensures
            e == if m.spec_kind() == Kind::Class {
                DefMixinError::FrozenClass(m)
            } else {
                DefMixinError::FrozenModule(m)
            },
    {
        match m.kind() {
            Kind::Class => DefMixinError::FrozenClass(m),
            _ => DefMixinError::FrozenModule(m),
        }
    }

    /// The error for the constant that a lookup found, if it found one: a
    /// module and a class are told as such, anything else is just a
    /// constant.
    pub fn _get(existing: Option<AnyObject>, heap: &mut Heap) -> (r: Option<DefMixinError>)
        ensures
            forall|addr: u64| final(heap).spec_header(addr) == old(heap).spec_header(addr),
            existing is None <==> r is None,
            existing is Some ==> match old(heap).spec_runtime(existing->Some_0@) {
                Some(Runtime { ty: Ty::Module, .. }) => r->Some_0 is ExistingModule
                    && r->Some_0->ExistingModule_0.spec_object() == existing->Some_0
                    && r->Some_0->ExistingModule_0.spec_kind() == Kind::Module,
                Some(Runtime { ty: Ty::Class, .. }) => r->Some_0 is ExistingClass
                    && r->Some_0->ExistingClass_0.spec_object() == existing->Some_0
                    && r->Some_0->ExistingClass_0.spec_kind() == Kind::Class,
                _ => r == Some(DefMixinError::ExistingConst(existing->Some_0)),
            },
    {
        let object: AnyObject = match existing {
            Some(object) => object,
            None => {
                return None;
            },
        };
        let runtime: Option<Runtime> = object.runtime(heap);
        let error = match runtime {
            Some(Runtime { ty: Ty::Module, .. }) => DefMixinError::ExistingModule(
                Typed::cast_unchecked(object, Kind::Module, heap),
            ),
            Some(Runtime { ty: Ty::Class, .. }) => DefMixinError::ExistingClass(
                Typed::cast_unchecked(object, Kind::Class, heap),
            ),
            _ => DefMixinError::ExistingConst(object),
        };
        Some(error)
    }

    /// The class that was found.
    pub fn existing_class(&self) -> (r: Option<Typed>)
        ensures
            r == match *self {
                DefMixinError::ExistingClass(c) => Some(c),
                _ => None,
            },
    {
        match *self {
            DefMixinError::ExistingClass(c) => Some(c),
            _ => None,
        }
    }

    /// The module that was found.
    pub fn existing_module(&self) -> (r: Option<Typed>)
        ensures
            r == match *self {
                DefMixinError::ExistingModule(m) => Some(m),
                _ => None,
            },
    {
        match *self {
            DefMixinError::ExistingModule(m) => Some(m),
            _ => None,
        }
    }

    /// The constant that was found, where it is neither class nor module.
    pub fn existing_const(&self) -> (r: Option<AnyObject>)
        ensures
            r == match *self {
                DefMixinError::ExistingConst(c) => Some(c),
                _ => None,
            },
    {
        match *self {
            DefMixinError::ExistingConst(c) => Some(c),
            _ => None,
        }
    }

    /// The object that was found, whatever it is.
    pub fn existing_object(&self) -> (r: Option<AnyObject>)
        ensures
            r == match *self {
                DefMixinError::ExistingModule(m) => Some(m.spec_object()),
                DefMixinError::ExistingClass(c) => Some(c.spec_object()),
                DefMixinError::ExistingConst(c) => Some(c),
                _ => None,
            },
    {
        match *self {
            DefMixinError::ExistingModule(m) => Some(m.into_any_object()),
            DefMixinError::ExistingClass(c) => Some(c.into_any_object()),
            DefMixinError::ExistingConst(c) => Some(c),
            _ => None,
        }
    }
}

} // verus!
