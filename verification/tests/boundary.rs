use rosy::object::AnyObject;
use rosy::protected::{
    AnyException, Boundary, Category, Families, Outcome, Phase, Signal,
};
use rosy::rosy::{reaches, DataType, Rosy, RosyObject, Wrapped, TYPED_FREE_IMMEDIATELY};
use rosy::rstring::{RString, RStringHeap, EMBED_LEN_MAX, NO_EMBED, STR_TMPLOCK};
use rosy::vm::{DestroyError, InitError, Vm};
use std::cell::Cell;
use std::rc::Rc;

fn named_error(category: Category) -> AnyException {
    AnyException { object: AnyObject::from_raw(0x3000), category }
}

#[test]
fn protected_returns_the_value() {
    let idle = Boundary::new();
    assert_eq!(idle.depth(), 0);
    assert_eq!(idle.phase(), Phase::Idle);
    assert!(!idle.has_pending());
    let (after, outcome) = idle.protected(|b| {
        assert_eq!(b.depth(), 1);
        assert_eq!(b.phase(), Phase::Entered);
        (b, Signal::Return(42))
    });
    assert_eq!(after, idle);
    assert!(matches!(outcome, Outcome::Returned(42)));
}

#[test]
fn protected_catches_a_raised_error() {
    for category in [Category::Argument, Category::Type, Category::ZeroDivision, Category::Load] {
        let idle = Boundary::new();
        let (after, outcome) = idle.protected(|b| b.raise::<u8>(named_error(category)));
        match outcome {
            Outcome::Raised(handle) => {
                assert_eq!(handle.category, category);
                assert_eq!(handle, named_error(category));
            }
            Outcome::Returned(_) => panic!("nothing was caught"),
        }
        assert!(!after.has_pending());
        assert_eq!(after.depth(), 0);
    }
}

#[test]
fn nested_protected_catches_innermost() {
    let idle = Boundary::new();
    let (after, outer) = idle.protected(|b| {
        assert_eq!(b.depth(), 1);
        let (b, inner) = b.protected(|b| {
            assert_eq!(b.depth(), 2);
            b.raise::<u8>(named_error(Category::Runtime))
        });
        assert_eq!(b.depth(), 1);
        assert!(!b.has_pending());
        (b, Signal::Return(inner))
    });
    assert_eq!(after.depth(), 0);
    assert!(!after.has_pending());
    match outer {
        Outcome::Returned(Outcome::Raised(handle)) => {
            assert_eq!(handle.category, Category::Runtime)
        }
        _ => panic!("the outer frame saw an exception"),
    }
}

#[test]
fn protected_turns_a_host_fault_into_an_exception() {
    let (after, outcome) = Boundary::new().protected(|b| (b, Signal::<u8>::Fault));
    assert!(!after.has_pending());
    match outcome {
        Outcome::Raised(handle) => {
            assert_eq!(handle.category, Category::HostFault);
            assert!(handle.object.is_nil());
        }
        Outcome::Returned(_) => panic!("the fault went through"),
    }
}

#[test]
fn leave_without_pending_exception() {
    let inside = Boundary::new().enter();
    let (after, outcome) = inside.leave(Signal::<u8>::Raise);
    assert_eq!(after.depth(), 0);
    match outcome {
        Outcome::Raised(handle) => assert_eq!(handle.category, Category::Missing),
        Outcome::Returned(_) => panic!("nothing was raised"),
    }
    let inside = Boundary::new().enter().enter();
    assert_eq!(inside.depth(), 2);
    let (raised, signal) = inside.raise::<u8>(named_error(Category::Name));
    assert!(raised.has_pending());
    assert!(matches!(signal, Signal::Raise));
    let (after, outcome) = raised.leave(signal);
    assert_eq!(after.depth(), 1);
    assert!(!after.has_pending());
    assert!(matches!(outcome, Outcome::Raised(h) if h.category == Category::Name));
    // a value returned while something is pending: the frame still clears the slot
    let (after, outcome) = raised.leave(Signal::Return(7));
    assert!(!after.has_pending());
    assert!(matches!(outcome, Outcome::Returned(7)));
}

#[test]
fn categories_of_families() {
    let none = Families {
        standard: false,
        argument: false,
        wrong_type: false,
        range: false,
        runtime: false,
        name: false,
        no_method: false,
        zero_division: false,
        load: false,
    };
    assert_eq!(Category::of(none), Category::Other);
    let standard = Families { standard: true, ..none };
    assert_eq!(Category::of(standard), Category::Standard);
    assert_eq!(Category::of(Families { argument: true, ..standard }), Category::Argument);
    assert_eq!(Category::of(Families { wrong_type: true, ..standard }), Category::Type);
    assert_eq!(Category::of(Families { range: true, ..standard }), Category::Range);
    assert_eq!(Category::of(Families { runtime: true, ..standard }), Category::Runtime);
    assert_eq!(Category::of(Families { name: true, ..standard }), Category::Name);
    assert_eq!(
        Category::of(Families { name: true, no_method: true, ..standard }),
        Category::NoMethod
    );
    assert_eq!(Category::of(Families { zero_division: true, ..standard }), Category::ZeroDivision);
    assert_eq!(Category::of(Families { load: true, ..none }), Category::Load);
}

#[test]
fn unprotected_runs_the_work() {
    let idle = Boundary::new();
    let (after, value) = idle.unprotected(|b| (b, Signal::Return(5)));
    assert_eq!(after, idle);
    assert_eq!(value, 5);
}

struct Counted {
    freed: Rc<Cell<usize>>,
    refs: Vec<AnyObject>,
    bytes: usize,
}

impl Rosy for Counted {
    fn id() -> &'static str {
        "counted"
    }

    fn class() -> u64 {
        0x900
    }

    fn mark(&self) -> Vec<AnyObject> {
        self.refs.clone()
    }

    fn free(self) {
        self.freed.set(self.freed.get() + 1);
    }

    fn size(&self) -> usize {
        self.bytes
    }
}

fn counted(freed: &Rc<Cell<usize>>, bytes: usize) -> Counted {
    Counted { freed: freed.clone(), refs: vec![AnyObject::from_raw(0x1000), AnyObject::nil()], bytes }
}

#[test]
fn finalize_runs_exactly_once() {
    let freed = Rc::new(Cell::new(0));
    let mut wrapped: Wrapped<Counted> = Wrapped::new();
    let handle = wrapped.wrap(counted(&freed, 64));
    assert_eq!(handle.index(), 0);
    assert!(wrapped.is_live(handle));
    assert_eq!(wrapped.finalized(handle), 0);

    // while the machine can reach it, nothing is finalized
    wrapped.collect(&vec![handle]);
    wrapped.collect(&vec![handle, handle]);
    assert_eq!(freed.get(), 0);
    assert!(wrapped.is_live(handle));
    assert_eq!(wrapped.finalized(handle), 0);
    assert_eq!(wrapped.as_data(handle).bytes, 64);

    // once it cannot, the finalizer runs
    wrapped.collect(&vec![]);
    assert_eq!(freed.get(), 1);
    assert!(!wrapped.is_live(handle));
    assert_eq!(wrapped.finalized(handle), 1);

    // and never again
    wrapped.collect(&vec![]);
    wrapped.collect(&vec![handle]);
    wrapped.dfree(handle);
    assert_eq!(freed.get(), 1);
    assert_eq!(wrapped.finalized(handle), 1);
    assert_eq!(wrapped.len(), 1);
}

#[test]
fn collect_frees_only_what_is_unreachable() {
    let freed_a = Rc::new(Cell::new(0));
    let freed_b = Rc::new(Cell::new(0));
    let freed_c = Rc::new(Cell::new(0));
    let mut wrapped: Wrapped<Counted> = Wrapped::new();
    let a = wrapped.wrap(counted(&freed_a, 1));
    let b = wrapped.wrap(counted(&freed_b, 2));
    let c = wrapped.wrap(counted(&freed_c, 3));
    assert_eq!((a.index(), b.index(), c.index()), (0, 1, 2));
    assert_eq!(wrapped.len(), 3);
    assert!(reaches(&vec![a, c], 2));
    assert!(!reaches(&vec![a, c], 1));
    wrapped.collect(&vec![c, a]);
    assert_eq!((freed_a.get(), freed_b.get(), freed_c.get()), (0, 1, 0));
    assert!(wrapped.is_live(a) && !wrapped.is_live(b) && wrapped.is_live(c));
    assert_eq!(wrapped.dsize(a), 1);
    assert_eq!(wrapped.dsize(c), 3);
    assert_eq!(wrapped.dmark(c), vec![AnyObject::from_raw(0x1000), AnyObject::nil()]);
    wrapped.dfree(c);
    assert_eq!((freed_a.get(), freed_b.get(), freed_c.get()), (0, 1, 1));
    wrapped.collect(&vec![]);
    assert_eq!((freed_a.get(), freed_b.get(), freed_c.get()), (1, 1, 1));
    let d = wrapped.wrap(counted(&freed_a, 4));
    assert_eq!(d.index(), 3);
    assert!(wrapped.is_live(d));
    assert_eq!(wrapped.finalized(d), 0);
}

#[test]
fn registered_data_type() {
    let ty: DataType = RosyObject::<Counted>::data_type();
    assert_eq!(ty.wrap_struct_name, "counted");
    assert_eq!(ty.class, 0x900);
    assert!(ty.has_mark && ty.has_free && ty.has_size);
    assert_eq!(ty.parent, 0);
    assert_eq!(ty.flags, TYPED_FREE_IMMEDIATELY);
    let header = RosyObject::<Counted>::header(0x900);
    assert_eq!(header.flags, 0x0c);
    assert_eq!(header.class, 0x900);
    assert!(!header.exception);
}

fn string_with(flags: u64, len: isize) -> RString {
    RString { flags, klass: 0x500, heap: RStringHeap { len, ptr: 0x4000, aux: 0 } }
}

#[test]
fn string_flags() {
    assert_eq!(NO_EMBED, 1 << 13);
    assert_eq!(STR_TMPLOCK, 1 << 19);
    assert_eq!(EMBED_LEN_MAX, 23);
    let embedded = string_with(0x05 | (5 << 14), 99);
    assert!(embedded.is_embedded());
    assert_eq!(embedded.embed_len(), 5);
    assert_eq!(embedded.len(), 5);
    assert!(!embedded.is_locked());
    let longest = string_with(0x05 | (23 << 14), 0);
    assert_eq!(longest.len(), 23);
    let on_heap = string_with(0x05 | NO_EMBED | (3 << 14), 1000);
    assert!(!on_heap.is_embedded());
    assert_eq!(on_heap.embed_len(), 3);
    assert_eq!(on_heap.len(), 1000);
    let mut locked = on_heap;
    assert_eq!(locked.raw_lock(), Ok(()));
    assert!(locked.is_locked());
    assert_eq!(locked.flags, on_heap.flags | STR_TMPLOCK);
    assert_eq!(locked.len(), 1000);
    let refused = locked.raw_lock().unwrap_err();
    assert_eq!(refused.category, Category::Runtime);
    assert!(locked.is_locked());
    assert_eq!(locked.with_lock(|s| s.len()), None);
    assert_eq!(locked.raw_unlock(), Ok(()));
    assert_eq!(locked, on_heap);
    assert_eq!(locked.raw_unlock().unwrap_err().category, Category::Runtime);
    assert_eq!(locked, on_heap);
    assert_eq!(locked.with_lock(|s| (s.is_locked(), s.len())), Some((true, 1000)));
    assert!(!locked.is_locked());
    assert_eq!(locked, on_heap);
    assert_eq!(string_with(u64::MAX, 7).embed_len(), 31);
    assert!(string_with(u64::MAX, 7).is_locked());
    assert_eq!(string_with(NO_EMBED, -1).len(), usize::MAX);
}

#[test]
fn init_and_destroy_errors() {
    assert_eq!(InitError::from_status(0), Ok(()));
    assert_eq!(DestroyError::from_status(0), Ok(()));
    let init = InitError::from_status(3).unwrap_err();
    assert_eq!(init.code(), 3);
    assert_eq!(init.description(), "Failed to initialize Ruby");
    assert_eq!(init.to_string(), "Failed to initialize Ruby (error code 3)");
    let destroy = DestroyError::from_status(-17).unwrap_err();
    assert_eq!(destroy.code(), -17);
    assert_eq!(destroy.description(), "Failed to destroy Ruby");
    assert_eq!(destroy.to_string(), "Failed to destroy Ruby (error code -17)");
    let least = DestroyError::from_status(i32::MIN).unwrap_err();
    assert_eq!(least.to_string(), format!("Failed to destroy Ruby (error code {})", i32::MIN));
    assert_eq!(InitError::from_status(3), Err(init));
    assert_ne!(InitError::from_status(4), Err(init));
    let vm = Vm::started(0).unwrap();
    assert_eq!(vm.destroyed(9).unwrap_err().code(), 9);
    assert_eq!(Vm::started(0).unwrap().destroyed(0), Ok(()));
    assert_eq!(Vm::started(3).unwrap_err(), init);
}
