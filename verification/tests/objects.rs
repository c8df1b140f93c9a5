use rosy::mixin::DefMixinError;
use rosy::num::float::Float;
use rosy::object::{AnyObject, Header, Heap, Kind, Runtime, Typed};
use rosy::value::{
    classify, fixnum_to_value, header_type, immediate_type, test_value, value_is_fixnum,
    value_to_fixnum, Tag, Ty, FALSE_VALUE, MAX_FIXNUM, MIN_FIXNUM, NIL_VALUE, TRUE_VALUE,
    UNDEF_VALUE,
};

const STRING_AT: u64 = 0x1000;
const FLOAT_AT: u64 = 0x1040;
const BIGNUM_AT: u64 = 0x1080;
const ERROR_AT: u64 = 0x10c0;
const CLASS_AT: u64 = 0x1100;
const MODULE_AT: u64 = 0x1140;
const DATA_AT: u64 = 0x1180;
const NOWHERE: u64 = 0x2000;

fn header(flags: u64, class: u64) -> Header {
    Header { flags, class, exception: false }
}

fn sample_heap() -> Heap {
    let mut heap = Heap::new();
    heap.insert(STRING_AT, header(0x05, 0x500));
    heap.insert(FLOAT_AT, header(0x04, 0x400));
    heap.insert(BIGNUM_AT, header(0x0a, 0x300));
    heap.insert(ERROR_AT, Header { flags: 0x01, class: 0x700, exception: true });
    heap.insert(CLASS_AT, header(0x02, 0x200));
    heap.insert(MODULE_AT, header(0x03, 0x210));
    heap.insert(DATA_AT, header(0x0c, 0x900));
    heap
}

#[test]
fn singleton_words() {
    assert_eq!(FALSE_VALUE, 0);
    assert_eq!(NIL_VALUE, 8);
    assert_eq!(TRUE_VALUE, 20);
    assert_eq!(UNDEF_VALUE, 52);
    assert_eq!(classify(0), Tag::False);
    assert_eq!(classify(8), Tag::Nil);
    assert_eq!(classify(20), Tag::True);
    assert_eq!(classify(52), Tag::Undefined);
    assert_eq!(classify(1), Tag::SmallInteger);
    assert_eq!(classify(u64::MAX), Tag::SmallInteger);
    assert_eq!(classify(0x1000), Tag::HeapPointer);
    assert_eq!(classify(16), Tag::HeapPointer);
    assert_eq!(classify(2), Tag::HeapPointer);
}

#[test]
fn small_integer_words() {
    assert_eq!(fixnum_to_value(0), 1);
    assert_eq!(fixnum_to_value(1), 3);
    assert_eq!(fixnum_to_value(-1), u64::MAX);
    assert_eq!(fixnum_to_value(5), 11);
    assert_eq!(fixnum_to_value(MAX_FIXNUM), 0x7fff_ffff_ffff_ffff);
    assert_eq!(fixnum_to_value(MIN_FIXNUM), 0x8000_0000_0000_0001);
    assert_eq!(fixnum_to_value(MAX_FIXNUM + 1), 0x8000_0000_0000_0001);
    assert_eq!(fixnum_to_value(i64::MIN), 1);
    assert_eq!(value_to_fixnum(1), 0);
    assert_eq!(value_to_fixnum(3), 1);
    assert_eq!(value_to_fixnum(11), 5);
    assert_eq!(value_to_fixnum(u64::MAX), -1);
    assert_eq!(value_to_fixnum(0x7fff_ffff_ffff_ffff), MAX_FIXNUM);
    assert_eq!(value_to_fixnum(0x8000_0000_0000_0001), MIN_FIXNUM);
    assert_eq!(MAX_FIXNUM, i64::MAX >> 1);
    assert_eq!(MIN_FIXNUM, i64::MIN >> 1);
    for n in [0i64, 1, -1, 12345, -12345, MAX_FIXNUM, MIN_FIXNUM] {
        assert_eq!(value_to_fixnum(fixnum_to_value(n)), n);
        assert!(value_is_fixnum(fixnum_to_value(n)));
        assert_eq!(fixnum_to_value(n), ((n << 1) | 1) as u64);
    }
    for raw in [0u64, 8, 20, 52, 0x1000, 7, u64::MAX, 0x8000_0000_0000_0000] {
        assert_eq!(value_to_fixnum(raw), (raw as i64) >> 1);
        assert_eq!(value_is_fixnum(raw), raw & 1 == 1);
    }
}

#[test]
fn truth_of_words() {
    assert!(!test_value(FALSE_VALUE));
    assert!(!test_value(NIL_VALUE));
    assert!(test_value(TRUE_VALUE));
    assert!(test_value(UNDEF_VALUE));
    assert!(test_value(1));
    assert!(test_value(0x1000));
    assert!(AnyObject::nil().is_false_or_nil());
    assert!(AnyObject::from_bool(false).is_false_or_nil());
    assert!(!AnyObject::from_bool(true).is_false_or_nil());
    assert!(!AnyObject::from_raw(1).is_false_or_nil());
}

#[test]
fn types_of_headers_and_words() {
    assert_eq!(header_type(0x02), Ty::Class);
    assert_eq!(header_type(0x03), Ty::Module);
    assert_eq!(header_type(0x04), Ty::Float);
    assert_eq!(header_type(0x05), Ty::String);
    assert_eq!(header_type(0x07), Ty::Array);
    assert_eq!(header_type(0x08), Ty::Hash);
    assert_eq!(header_type(0x0a), Ty::Bignum);
    assert_eq!(header_type(0x0c), Ty::Data);
    assert_eq!(header_type(0x14), Ty::Symbol);
    assert_eq!(header_type(0x01), Ty::Other);
    assert_eq!(header_type(0x00), Ty::Other);
    assert_eq!(header_type(0xffe5), Ty::String);
    assert_eq!(header_type(0x2000 | 0x0a), Ty::Bignum);
    assert_eq!(immediate_type(1), Some(Ty::Fixnum));
    assert_eq!(immediate_type(NIL_VALUE), Some(Ty::Nil));
    assert_eq!(immediate_type(TRUE_VALUE), Some(Ty::True));
    assert_eq!(immediate_type(FALSE_VALUE), Some(Ty::False));
    assert_eq!(immediate_type(UNDEF_VALUE), Some(Ty::Undef));
    assert_eq!(immediate_type(0x1000), None);
    assert_eq!(header(0x05, 9).runtime(), Runtime { ty: Ty::String, class: 9 });
    let raised = Header { flags: 0x01, class: 9, exception: true };
    assert_eq!(raised.runtime(), Runtime { ty: Ty::Exception, class: 9 });
}

#[test]
fn any_object_singletons() {
    assert!(AnyObject::nil().is_nil());
    assert_eq!(AnyObject::nil().raw(), NIL_VALUE);
    assert_eq!(AnyObject::from_bool(true).raw(), TRUE_VALUE);
    assert_eq!(AnyObject::from_bool(false).raw(), 0);
    assert!(AnyObject::from_bool(true).is_true());
    assert!(AnyObject::from_bool(false).is_false());
    assert!(AnyObject::from_bool(true).is_bool());
    assert!(AnyObject::from_bool(false).is_bool());
    assert!(!AnyObject::nil().is_bool());
    assert_eq!(AnyObject::from_bool(true).to_bool(), Some(true));
    assert_eq!(AnyObject::from_bool(false).to_bool(), Some(false));
    assert_eq!(AnyObject::nil().to_bool(), None);
    assert_eq!(AnyObject::from_raw(1).to_bool(), None);
    assert!(AnyObject::from_raw(UNDEF_VALUE).is_undefined());
    assert!(!AnyObject::nil().is_undefined());
    assert!(AnyObject::from_raw(7).is_fixnum());
    assert!(!AnyObject::from_raw(8).is_fixnum());
    assert_eq!(AnyObject::from_raw(8).tag(), Tag::Nil);
    assert_eq!(AnyObject::from_raw(0x1000).tag(), Tag::HeapPointer);
}

#[test]
fn fingerprints_of_kinds() {
    assert_eq!(Kind::Any.fingerprint(), Some(0xffff_ffff));
    assert_eq!(Kind::Integer.fingerprint(), Some(3));
    assert_eq!(Kind::Float.fingerprint(), Some(4));
    assert_eq!(Kind::Foreign { class: 1 }.fingerprint(), None);
    let kinds = [
        Kind::Integer,
        Kind::Float,
        Kind::String,
        Kind::Symbol,
        Kind::Array,
        Kind::Hash,
        Kind::Class,
        Kind::Module,
        Kind::Exception,
    ];
    for (i, a) in kinds.iter().enumerate() {
        assert!(Kind::Any.may_cast_to(*a));
        assert!(a.may_cast_to(Kind::Any));
        assert!(a.may_cast_to(Kind::Foreign { class: 3 }));
        for (j, b) in kinds.iter().enumerate() {
            assert_eq!(a.may_cast_to(*b), i == j);
        }
    }
    assert!(Kind::Integer.admits(Runtime { ty: Ty::Fixnum, class: 0 }));
    assert!(Kind::Integer.admits(Runtime { ty: Ty::Bignum, class: 0 }));
    assert!(!Kind::Integer.admits(Runtime { ty: Ty::Float, class: 0 }));
    assert!(Kind::Any.admits(Runtime { ty: Ty::Undef, class: 0 }));
    assert!(Kind::Foreign { class: 5 }.admits(Runtime { ty: Ty::Data, class: 5 }));
    assert!(!Kind::Foreign { class: 5 }.admits(Runtime { ty: Ty::Data, class: 6 }));
    assert!(!Kind::Foreign { class: 5 }.admits(Runtime { ty: Ty::String, class: 5 }));
}

#[test]
fn heap_counts_its_reads() {
    let mut heap = sample_heap();
    assert_eq!(heap.reads(), 0);
    assert_eq!(heap.read(STRING_AT), Some(header(0x05, 0x500)));
    assert_eq!(heap.reads(), 1);
    assert_eq!(heap.read(NOWHERE), None);
    assert_eq!(heap.reads(), 2);
    heap.insert(STRING_AT, header(0x04, 1));
    assert_eq!(heap.read(STRING_AT), Some(header(0x05, 0x500)));
    heap.insert(NOWHERE, header(0x07, 1));
    assert_eq!(heap.read(NOWHERE), Some(header(0x07, 1)));
    assert_eq!(heap.reads(), 4);
}

#[test]
fn cast_to_own_kind_succeeds_without_the_machine() {
    let mut heap = sample_heap();
    let kinds = [
        (STRING_AT, Kind::String),
        (FLOAT_AT, Kind::Float),
        (BIGNUM_AT, Kind::Integer),
        (ERROR_AT, Kind::Exception),
        (CLASS_AT, Kind::Class),
        (MODULE_AT, Kind::Module),
        (DATA_AT, Kind::Foreign { class: 0x900 }),
    ];
    for (addr, kind) in kinds {
        let typed = AnyObject::from_raw(addr).cast(kind, &mut heap).unwrap();
        assert_eq!(typed.kind(), kind);
        let before = heap.reads();
        let again = typed.cast(kind, &mut heap).unwrap();
        assert_eq!(again, typed);
        assert_eq!(heap.reads(), before);
    }
    let any = Typed::erased(AnyObject::from_raw(NOWHERE));
    assert_eq!(any.cast(Kind::Any, &mut heap), Some(any));
}

#[test]
fn cast_to_disjoint_kind_fails_without_the_machine() {
    let mut heap = sample_heap();
    let string = AnyObject::from_raw(STRING_AT).cast(Kind::String, &mut heap).unwrap();
    let before = heap.reads();
    for target in [
        Kind::Integer,
        Kind::Float,
        Kind::Symbol,
        Kind::Array,
        Kind::Hash,
        Kind::Class,
        Kind::Module,
        Kind::Exception,
    ] {
        assert_eq!(string.cast(target, &mut heap), None);
    }
    assert_eq!(heap.reads(), before);
    let float = AnyObject::from_raw(FLOAT_AT).cast(Kind::Float, &mut heap).unwrap();
    let before = heap.reads();
    assert_eq!(float.cast(Kind::Integer, &mut heap), None);
    assert_eq!(Float::cast(string, &mut heap).map(|f| f.into_any_object()), None);
    assert_eq!(heap.reads(), before);
}

#[test]
fn cast_from_generic_reads_the_header_once() {
    let mut heap = sample_heap();
    let object = AnyObject::from_raw(STRING_AT);
    assert!(object.cast(Kind::String, &mut heap).is_some());
    assert_eq!(heap.reads(), 1);
    assert!(object.cast(Kind::Float, &mut heap).is_none());
    assert_eq!(heap.reads(), 2);
    assert!(object.cast(Kind::Any, &mut heap).is_some());
    assert_eq!(heap.reads(), 2);
    // a small integer is told by its bits
    let five = AnyObject::from_raw(11);
    assert!(five.cast(Kind::Integer, &mut heap).is_some());
    assert!(five.cast(Kind::Float, &mut heap).is_none());
    assert!(AnyObject::nil().cast(Kind::Integer, &mut heap).is_none());
    assert_eq!(heap.reads(), 2);
    assert!(AnyObject::from_raw(BIGNUM_AT).cast(Kind::Integer, &mut heap).is_some());
    assert_eq!(heap.reads(), 3);
    // a pointer to nothing is of no kind but the generic one
    assert!(AnyObject::from_raw(NOWHERE).cast(Kind::String, &mut heap).is_none());
    assert!(AnyObject::from_raw(NOWHERE).cast(Kind::Any, &mut heap).is_some());
    // a wrapped host value is told by its class
    let data = AnyObject::from_raw(DATA_AT);
    assert!(data.cast(Kind::Foreign { class: 0x900 }, &mut heap).is_some());
    assert!(data.cast(Kind::Foreign { class: 0x901 }, &mut heap).is_none());
    let typed = data.cast(Kind::Foreign { class: 0x900 }, &mut heap).unwrap();
    let before = heap.reads();
    assert!(typed.cast(Kind::Foreign { class: 0x901 }, &mut heap).is_none());
    assert!(typed.cast(Kind::String, &mut heap).is_none());
    assert_eq!(heap.reads(), before + 2);
    assert!(typed.erase().cast(Kind::Foreign { class: 0x900 }, &mut heap).is_some());
}

#[test]
fn runtime_and_kinds_of_objects() {
    let mut heap = sample_heap();
    assert_eq!(
        AnyObject::from_raw(ERROR_AT).runtime(&mut heap),
        Some(Runtime { ty: Ty::Exception, class: 0x700 })
    );
    assert_eq!(AnyObject::from_raw(3).runtime(&mut heap), Some(Runtime { ty: Ty::Fixnum, class: 0 }));
    assert_eq!(AnyObject::from_raw(NOWHERE).runtime(&mut heap), None);
    assert!(AnyObject::from_raw(ERROR_AT).is_kind(Kind::Exception, &mut heap));
    assert!(!AnyObject::from_raw(ERROR_AT).is_kind(Kind::String, &mut heap));
    assert!(AnyObject::from_raw(FLOAT_AT).is_kind(Kind::Float, &mut heap));
    assert!(!AnyObject::from_raw(NOWHERE).is_kind(Kind::Any, &mut heap));
    let float = Float::cast(Typed::erased(AnyObject::from_raw(FLOAT_AT)), &mut heap).unwrap();
    assert_eq!(float.into_any_object().raw(), FLOAT_AT);
    assert_eq!(float.ty(), Ty::Float);
    assert!(float.is_ty(Ty::Float));
    assert!(!float.is_ty(Ty::Bignum));
    let unchecked = Typed::cast_unchecked(AnyObject::from_raw(FLOAT_AT), Kind::Float, &heap);
    assert_eq!(unchecked.kind(), Kind::Float);
    assert_eq!(unchecked.into_any_object().raw(), FLOAT_AT);
}

#[test]
fn errors_of_definition() {
    let mut heap = sample_heap();
    assert!(DefMixinError::_get(None, &mut heap).is_none());
    let class = DefMixinError::_get(Some(AnyObject::from_raw(CLASS_AT)), &mut heap).unwrap();
    assert!(matches!(class, DefMixinError::ExistingClass(_)));
    assert_eq!(class.existing_class().map(|c| c.kind()), Some(Kind::Class));
    assert_eq!(class.existing_class().map(|c| c.into_any_object().raw()), Some(CLASS_AT));
    assert_eq!(class.existing_module(), None);
    assert_eq!(class.existing_const(), None);
    assert_eq!(class.existing_object().map(|o| o.raw()), Some(CLASS_AT));
    let module = DefMixinError::_get(Some(AnyObject::from_raw(MODULE_AT)), &mut heap).unwrap();
    assert!(matches!(module, DefMixinError::ExistingModule(_)));
    assert_eq!(module.existing_module().map(|m| m.kind()), Some(Kind::Module));
    assert_eq!(module.existing_class(), None);
    assert_eq!(module.existing_object().map(|o| o.raw()), Some(MODULE_AT));
    let other = DefMixinError::_get(Some(AnyObject::from_raw(STRING_AT)), &mut heap).unwrap();
    assert!(matches!(other, DefMixinError::ExistingConst(_)));
    assert_eq!(other.existing_const().map(|o| o.raw()), Some(STRING_AT));
    assert_eq!(other.existing_object().map(|o| o.raw()), Some(STRING_AT));
    let five = DefMixinError::_get(Some(AnyObject::from_raw(11)), &mut heap).unwrap();
    assert_eq!(five.existing_const().map(|o| o.raw()), Some(11));
    let as_class = AnyObject::from_raw(CLASS_AT).cast(Kind::Class, &mut heap).unwrap();
    let as_module = AnyObject::from_raw(MODULE_AT).cast(Kind::Module, &mut heap).unwrap();
    let frozen = DefMixinError::_frozen(as_class);
    assert!(matches!(frozen, DefMixinError::FrozenClass(_)));
    assert_eq!(frozen.existing_object(), None);
    assert_eq!(frozen.existing_class(), None);
    assert!(matches!(DefMixinError::_frozen(as_module), DefMixinError::FrozenModule(_)));
}
