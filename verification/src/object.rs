//! Typed wrappers over tagged words, and the casts between them.

use crate::value::{
    classify, header_type, immediate_type, spec_classify, spec_fixnum_of, spec_header_type,
    spec_immediate_type, spec_test_value, test_value, value_is_fixnum, value_to_fixnum, Tag, Ty,
    FALSE_VALUE, NIL_VALUE, TRUE_VALUE, UNDEF_VALUE,
};
use std::marker::PhantomData;
use std::rc::Rc;
use vstd::prelude::*;

verus! {

/// What the machine keeps at the head of a heap object, as far as casts read
/// it.
#[derive(Clone, Copy, Debug, PartialEq, Eq, Structural)]
pub struct Header {
    /// The flags, whose low bits name the type.
    pub flags: u64,
    /// The word of the object's class.
    pub class: u64,
    /// Whether the class descends from the root of all exceptions.
    pub exception: bool,
}

/// What an object is at run time.
#[derive(Clone, Copy, Debug, PartialEq, Eq, Structural)]
pub struct Runtime {
    pub ty: Ty,
    /// The word of the object's class; 0 for a word that is no heap pointer.
    pub class: u64,
}

impl Header {
    pub open spec fn spec_runtime(self) -> Runtime {
        Runtime {
            ty: if self.exception {
                Ty::Exception
            } else {
                spec_header_type(self.flags)
            },
            class: self.class,
        }
    }

    /// What the object under this header is at run time.
    pub fn runtime(self) -> (rt: Runtime)
        ensures
            rt == self.spec_runtime(),
    {
        let ty: Ty = if self.exception {
            Ty::Exception
        } else {
            header_type(self.flags)
        };
        Runtime { ty, class: self.class }
    }
}

/// The kinds of typed wrapper.
#[derive(Clone, Copy, Debug, PartialEq, Eq, Structural)]
pub enum Kind {
    /// Any object at all.
    Any,
    /// An integer, small or large.
    Integer,
    Float,
    String,
    Symbol,
    Array,
    Hash,
    Class,
    Module,
    Exception,
    /// A value of the host, wrapped under the class with the given word.
    Foreign { class: u64 },
}

/// The bit of a runtime type in a fingerprint.
pub open spec fn spec_type_bit(ty: Ty) -> u32 {
    match ty {
        Ty::Fixnum => 0x0001,
        Ty::Bignum => 0x0002,
        Ty::Float => 0x0004,
        Ty::String => 0x0008,
        Ty::Symbol => 0x0010,
        Ty::Array => 0x0020,
        Ty::Hash => 0x0040,
        Ty::Class => 0x0080,
        Ty::Module => 0x0100,
        Ty::Exception => 0x0200,
        Ty::Data => 0x0400,
        Ty::Nil => 0x0800,
        Ty::True => 0x1000,
        Ty::False => 0x2000,
        Ty::Undef => 0x4000,
        Ty::Other => 0x8000,
    }
}

/// Whether two fingerprints leave room for an object of both kinds. A kind
/// without a fingerprint leaves room for everything.
pub open spec fn spec_overlap(a: Option<u32>, b: Option<u32>) -> bool {
    match (a, b) {
        (Some(x), Some(y)) => x & y != 0,
        _ => true,
    }
}

impl Kind {
    /// The fingerprint of a kind: the bits of the runtime types that its
    /// objects can have. A kind of several types has the union of their
    /// bits, the generic kind has every bit, and a kind of the host has no
    /// fingerprint.
    pub open spec fn spec_fingerprint(self) -> Option<u32> {
        match self {
            Kind::Any => Some(0xffff_ffff),
            Kind::Integer => Some(0x0003),
            Kind::Float => Some(0x0004),
            Kind::String => Some(0x0008),
            Kind::Symbol => Some(0x0010),
            Kind::Array => Some(0x0020),
            Kind::Hash => Some(0x0040),
            Kind::Class => Some(0x0080),
            Kind::Module => Some(0x0100),
            Kind::Exception => Some(0x0200),
            Kind::Foreign { .. } => None,
        }
    }

    /// Whether an object that is `rt` at run time is of this kind.
    pub open spec fn spec_admits(self, rt: Runtime) -> bool {
        match self {
            Kind::Any => true,
            Kind::Integer => rt.ty == Ty::Fixnum || rt.ty == Ty::Bignum,
            Kind::Float => rt.ty == Ty::Float,
            Kind::String => rt.ty == Ty::String,
            Kind::Symbol => rt.ty == Ty::Symbol,
            Kind::Array => rt.ty == Ty::Array,
            Kind::Hash => rt.ty == Ty::Hash,
            Kind::Class => rt.ty == Ty::Class,
            Kind::Module => rt.ty == Ty::Module,
            Kind::Exception => rt.ty == Ty::Exception,
            Kind::Foreign { class } => rt.ty == Ty::Data && rt.class == class,
        }
    }

    pub fn fingerprint(self) -> (fp: Option<u32>)
        ensures
            fp == self.spec_fingerprint(),
    {
        match self {
            Kind::Any => Some(0xffff_ffff),
            Kind::Integer => Some(0x0003),
            Kind::Float => Some(0x0004),
            Kind::String => Some(0x0008),
            Kind::Symbol => Some(0x0010),
            Kind::Array => Some(0x0020),
            Kind::Hash => Some(0x0040),
            Kind::Class => Some(0x0080),
            Kind::Module => Some(0x0100),
            Kind::Exception => Some(0x0200),
            Kind::Foreign { .. } => None,
        }
    }

    pub fn admits(self, rt: Runtime) -> (b: bool)
        ensures
            b == self.spec_admits(rt),
    {
        match self {
            Kind::Any => true,
            Kind::Integer => rt.ty == Ty::Fixnum || rt.ty == Ty::Bignum,
            Kind::Float => rt.ty == Ty::Float,
            Kind::String => rt.ty == Ty::String,
            Kind::Symbol => rt.ty == Ty::Symbol,
            Kind::Array => rt.ty == Ty::Array,
            Kind::Hash => rt.ty == Ty::Hash,
            Kind::Class => rt.ty == Ty::Class,
            Kind::Module => rt.ty == Ty::Module,
            Kind::Exception => rt.ty == Ty::Exception,
            Kind::Foreign { class } => rt.ty == Ty::Data && rt.class == class,
        }
    }

    /// Whether a cast from this kind to `target` can succeed at all, by the
    /// fingerprints alone.
    pub fn may_cast_to(self, target: Kind) -> (b: bool)
        ensures
            b == spec_overlap(self.spec_fingerprint(), target.spec_fingerprint()),
    {
        match (self.fingerprint(), target.fingerprint()) {
            (Some(x), Some(y)) => x & y != 0,
            _ => true,
        }
    }
}

/// The fingerprint of a kind holds the bit of every runtime type that the
/// kind admits.
pub proof fn lemma_fingerprint_covers(kind: Kind, rt: Runtime)
    requires
        kind.spec_admits(rt),
    ensures
        match kind.spec_fingerprint() {
            Some(fp) => fp & spec_type_bit(rt.ty) == spec_type_bit(rt.ty),
            None => true,
        },
{
    let bit = spec_type_bit(rt.ty);
    assert(0xffff_ffffu32 & bit == bit) by (bit_vector)
        requires
            bit <= 0x8000u32,
    ;
    assert(0x0003u32 & 0x0001u32 == 0x0001u32 && 0x0003u32 & 0x0002u32 == 0x0002u32 && 0x0004u32
        & 0x0004u32 == 0x0004u32 && 0x0008u32 & 0x0008u32 == 0x0008u32 && 0x0010u32 & 0x0010u32
        == 0x0010u32 && 0x0020u32 & 0x0020u32 == 0x0020u32 && 0x0040u32 & 0x0040u32 == 0x0040u32
        && 0x0080u32 & 0x0080u32 == 0x0080u32 && 0x0100u32 & 0x0100u32 == 0x0100u32 && 0x0200u32
        & 0x0200u32 == 0x0200u32) by (bit_vector);
}

/// No object is of two kinds whose fingerprints do not overlap: a cast
/// between such kinds cannot succeed, whatever the machine holds.
pub proof fn lemma_disjoint_kinds(a: Kind, b: Kind, rt: Runtime)
    requires
        !spec_overlap(a.spec_fingerprint(), b.spec_fingerprint()),
    ensures
        !(a.spec_admits(rt) && b.spec_admits(rt)),
{
    if a.spec_admits(rt) && b.spec_admits(rt) {
        lemma_fingerprint_covers(a, rt);
        lemma_fingerprint_covers(b, rt);
        let x = a.spec_fingerprint()->Some_0;
        let y = b.spec_fingerprint()->Some_0;
        let bit = spec_type_bit(rt.ty);
        assert(x & y != 0) by (bit_vector)
            requires
                x & bit == bit,
                y & bit == bit,
                bit != 0,
        ;
    }
}

/// Any object of the machine: one tagged word. It belongs to the thread of
/// the machine and cannot be sent to another.
#[derive(Clone, Copy, Debug, PartialEq, Eq)]
pub struct AnyObject {
    raw: u64,
    marker: PhantomData<Rc<()>>,
}

impl View for AnyObject {
    type V = u64;

    /// The word itself.
    closed spec fn view(&self) -> u64 {
        self.raw
    }
}

impl AnyObject {
    /// The object `nil`.
    pub closed spec fn spec_nil() -> AnyObject {
        AnyObject { raw: NIL_VALUE, marker: PhantomData }
    }

    /// The object that the word `raw` denotes.
    pub fn from_raw(raw: u64) -> (obj: AnyObject)
        ensures
            obj@ == raw,
    {
        AnyObject { raw, marker: PhantomData }
    }

    /// The object's word.
    pub fn raw(self) -> (raw: u64)
        ensures
            raw == self@,
    {
        self.raw
    }

    /// The object `nil`.
    pub fn nil() -> (obj: AnyObject)
        ensures
            obj@ == NIL_VALUE,
            obj == Self::spec_nil(),
    {
        AnyObject { raw: NIL_VALUE, marker: PhantomData }
    }

    /// The object `true` or `false`; `false` is the zero word.
    pub fn from_bool(b: bool) -> (obj: AnyObject)
        ensures
            obj@ == if b {
                TRUE_VALUE
            } else {
                FALSE_VALUE
            },
    {
        if b {
            AnyObject { raw: TRUE_VALUE, marker: PhantomData }
        } else {
            AnyObject { raw: FALSE_VALUE, marker: PhantomData }
        }
    }

    /// What the word denotes, from its bits alone.
    pub fn tag(self) -> (tag: Tag)
        ensures
            tag == spec_classify(self@),
    {
        classify(self.raw)
    }

    pub fn is_nil(self) -> (b: bool)
        ensures
            b == (self@ == NIL_VALUE),
    {
        self.raw == NIL_VALUE
    }

    pub fn is_undefined(self) -> (b: bool)
        ensures
            b == (self@ == UNDEF_VALUE),
    {
        self.raw == UNDEF_VALUE
    }

    pub fn is_true(self) -> (b: bool)
        ensures
            b == (self@ == TRUE_VALUE),
    {
        self.raw == TRUE_VALUE
    }

    pub fn is_false(self) -> (b: bool)
        ensures
            b == (self@ == FALSE_VALUE),
    {
        self.raw == FALSE_VALUE
    }

    /// Whether the object counts as false: `false` and `nil` do, nothing
    /// else does.
    pub fn is_false_or_nil(self) -> (b: bool)
        ensures
            b == !spec_test_value(self@),
            b == (self@ == FALSE_VALUE || self@ == NIL_VALUE),
    {
        !test_value(self.raw)
    }

    pub fn is_bool(self) -> (b: bool)
        ensures
            b == (self@ == TRUE_VALUE || self@ == FALSE_VALUE),
    {
        self.is_true() != self.is_false()
    }

    /// The host boolean of `true` or `false`; nothing for any other object.
    pub fn to_bool(self) -> (r: Option<bool>)
        ensures
            r == if self@ == TRUE_VALUE {
                Some(true)
            } else if self@ == FALSE_VALUE {
                Some(false)
            } else {
                None::<bool>
            },
    {
        if self.raw == TRUE_VALUE {
            Some(true)
        } else if self.raw == FALSE_VALUE {
            Some(false)
        } else {
            None
        }
    }

    /// Whether the word carries a small integer.
    pub fn is_fixnum(self) -> (b: bool)
        ensures
            b == (spec_classify(self@) == Tag::SmallInteger),
    {
        value_is_fixnum(self.raw)
    }
}

/// How the equality of two objects is found.
#[derive(Clone, Copy, Debug, PartialEq, Eq, Structural)]
pub enum Equality {
    /// The words alone decide.
    Decided(bool),
    /// The machine has to compare the objects.
    AskMachine,
}

/// How the equality of `a` and `b` is found: two small integers are
/// decoded and compared, which no machine is needed for; any other pair is
/// left to the machine's own comparison, which goes by what the objects
/// hold and not by their words.
pub open spec fn spec_equality(a: u64, b: u64) -> Equality {
    if spec_classify(a) == Tag::SmallInteger && spec_classify(b) == Tag::SmallInteger {
        Equality::Decided(spec_fixnum_of(a) == spec_fixnum_of(b))
    } else {
        Equality::AskMachine
    }
}

impl AnyObject {
    /// How the equality of the object and `other` is found.
    pub fn equality(self, other: AnyObject) -> (e: Equality)
        ensures
            e == spec_equality(self@, other@),
    {
        if value_is_fixnum(self.raw) && value_is_fixnum(other.raw) {
            Equality::Decided(value_to_fixnum(self.raw) == value_to_fixnum(other.raw))
        } else {
            Equality::AskMachine
        }
    }
}

/// One object of the heap: its word and its header.
#[derive(Clone, Copy, Debug, PartialEq, Eq, Structural)]
pub struct Entry {
    pub addr: u64,
    pub header: Header,
}

/// The header that a list of entries holds for `addr`: that of the first
/// entry with that word.
pub open spec fn spec_find(entries: Seq<Entry>, addr: u64) -> Option<Header>
    decreases entries.len(),
{
    if entries.len() == 0 {
        None
    } else if entries[0].addr == addr {
        Some(entries[0].header)
    } else {
        spec_find(entries.drop_first(), addr)
    }
}

/// The headers of the machine's heap objects, with a count of how often one
/// was read.
pub struct Heap {
    entries: Vec<Entry>,
    reads: u64,
}

impl Heap {
    /// The header of the object at `addr`, if the heap holds one.
    pub closed spec fn spec_header(&self, addr: u64) -> Option<Header> {
        spec_find(self.entries@, addr)
    }

    /// How often a header was read, up to the limit of the counter.
    pub closed spec fn spec_reads(&self) -> nat {
        self.reads as nat
    }

    /// What the word `raw` is at run time: told by its bits unless it is a
    /// heap pointer, by the header otherwise; nothing where the heap holds
    /// no such object.
    pub open spec fn spec_runtime(&self, raw: u64) -> Option<Runtime> {
        match spec_immediate_type(raw) {
            Some(ty) => Some(Runtime { ty, class: 0 }),
            None => match self.spec_header(raw) {
                Some(header) => Some(header.spec_runtime()),
                None => None,
            },
        }
    }

    /// An empty heap that was never read.
    pub fn new() -> (heap: Heap)
        ensures
            heap.spec_reads() == 0,
            forall|addr: u64| heap.spec_header(addr) is None,
    {
        Heap { entries: Vec::new(), reads: 0 }
    }

    /// Records the object at `addr`, unless one is recorded there already.
    pub fn insert(&mut self, addr: u64, header: Header)
        ensures
            final(self).spec_reads() == old(self).spec_reads(),
            forall|other: u64|
                final(self).spec_header(other) == if other == addr && old(self).spec_header(addr)
                    is None {
                    Some(header)
                } else {
                    old(self).spec_header(other)
                },
    {
        proof {
            assert forall|other: u64|
                spec_find(self.entries@.push(Entry { addr, header }), other) == if other == addr
                    && spec_find(self.entries@, addr) is None {
                    Some(header)
                } else {
                    #[trigger] spec_find(self.entries@, other)
                } by {
                lemma_find_push(self.entries@, Entry { addr, header }, other);
            }
        }
        self.entries.push(Entry { addr, header });
    }

    /// How often a header was read.
    pub fn reads(&self) -> (n: u64)
        ensures
            n == self.spec_reads(),
    {
        self.reads
    }

    /// Reads the header of the object at `addr`, and counts the read.
    pub fn read(&mut self, addr: u64) -> (r: Option<Header>)
        ensures
            r == old(self).spec_header(addr),
            final(self).spec_reads() == if old(self).spec_reads() < u64::MAX {
                old(self).spec_reads() + 1
            } else {
                old(self).spec_reads()
            },
            forall|other: u64| final(self).spec_header(other) == old(self).spec_header(other),
    {
        if self.reads < u64::MAX {
            self.reads = self.reads + 1;
        }
        let n: usize = self.entries.len();
        let mut i: usize = 0;
        proof {
            assert(self.entries@.subrange(0, n as int) =~= self.entries@);
        }
        while i < n
            invariant
                n == self.entries.len(),
                i <= n,
                self.entries == old(self).entries,
                self.reads == if old(self).reads < u64::MAX {
                    old(self).reads + 1
                } else {
                    old(self).reads as int
                },
                spec_find(self.entries@, addr) == spec_find(
                    self.entries@.subrange(i as int, n as int),
                    addr,
                ),
            decreases n - i,
        {
            let entry: Entry = self.entries[i];
            let ghost rest = self.entries@.subrange(i as int, n as int);
            proof {
                assert(rest[0] == entry);
                assert(rest.drop_first() =~= self.entries@.subrange(i + 1, n as int));
            }
            if entry.addr == addr {
                return Some(entry.header);
            }
            i += 1;
        }
        None
    }
}

/// Whether a cast from `source` to `target` succeeds for an object that is
/// `rt` at run time (nothing, where the heap does not hold it): always to
/// its own kind, never between kinds whose fingerprints do not overlap, and
/// otherwise where the object is of the target kind.
pub open spec fn spec_cast_succeeds(source: Kind, target: Kind, rt: Option<Runtime>) -> bool {
    source == target || (spec_overlap(source.spec_fingerprint(), target.spec_fingerprint())
        && match rt {
        Some(rt) => target.spec_admits(rt),
        None => false,
    })
}

/// Whether a cast from `source` to `target` has to read the header of the
/// object with the word `raw`: only where the kinds and the bits of the word
/// leave the outcome open.
pub open spec fn spec_cast_reads(source: Kind, target: Kind, raw: u64) -> bool {
    source != target && spec_overlap(source.spec_fingerprint(), target.spec_fingerprint())
        && spec_immediate_type(raw) is None
}

/// An object that is taken to be of a kind.
#[derive(Clone, Copy, Debug, PartialEq, Eq)]
pub struct Typed {
    object: AnyObject,
    kind: Kind,
}

impl AnyObject {
    /// What the object is at run time. The header is read, and the read
    /// counted, only for a heap pointer.
    pub fn runtime(self, heap: &mut Heap) -> (rt: Option<Runtime>)
        ensures
            rt == old(heap).spec_runtime(self@),
            forall|addr: u64| final(heap).spec_header(addr) == old(heap).spec_header(addr),
            final(heap).spec_reads() == if spec_immediate_type(self@) is None && old(
                heap,
            ).spec_reads() < u64::MAX {
                old(heap).spec_reads() + 1
            } else {
                old(heap).spec_reads()
            },
    {
        match immediate_type(self.raw) {
            Some(ty) => Some(Runtime { ty, class: 0 }),
            None => match heap.read(self.raw) {
                Some(header) => Some(header.runtime()),
                None => None,
            },
        }
    }

    /// Whether the object is of the given kind.
    pub fn is_kind(self, kind: Kind, heap: &mut Heap) -> (b: bool)
        ensures
            b == match old(heap).spec_runtime(self@) {
                Some(rt) => kind.spec_admits(rt),
                None => false,
            },
            forall|addr: u64| final(heap).spec_header(addr) == old(heap).spec_header(addr),
            final(heap).spec_reads() == if spec_immediate_type(self@) is None && old(
                heap,
            ).spec_reads() < u64::MAX {
                old(heap).spec_reads() + 1
            } else {
                old(heap).spec_reads()
            },
    {
        match self.runtime(heap) {
            Some(rt) => kind.admits(rt),
            None => false,
        }
    }

    /// The object as a wrapper of the given kind, if it is of that kind.
    pub fn cast(self, target: Kind, heap: &mut Heap) -> (r: Option<Typed>)
        ensures
            r is Some <==> spec_cast_succeeds(Kind::Any, target, old(heap).spec_runtime(self@)),
            r is Some ==> r->Some_0.spec_object() == self && r->Some_0.spec_kind() == target,
            r is Some ==> r->Some_0.spec_holds(final(heap)),
            forall|addr: u64| final(heap).spec_header(addr) == old(heap).spec_header(addr),
    {
        Typed::erased(self).cast(target, heap)
    }
}

impl Typed {
    pub closed spec fn spec_object(self) -> AnyObject {
        self.object
    }

    pub closed spec fn spec_kind(self) -> Kind {
        self.kind
    }

    /// Whether the wrapper tells the truth about the machine: its object is
    /// of its kind.
    pub open spec fn spec_holds(self, heap: &Heap) -> bool {
        match heap.spec_runtime(self.spec_object()@) {
            Some(rt) => self.spec_kind().spec_admits(rt),
            None => self.spec_kind() == Kind::Any,
        }
    }

    /// The object under the wrapper.
    pub fn into_any_object(self) -> (obj: AnyObject)
        ensures
            obj == self.spec_object(),
    {
        self.object
    }

    /// The kind that the wrapper claims.
    pub fn kind(self) -> (kind: Kind)
        ensures
            kind == self.spec_kind(),
    {
        self.kind
    }

    /// The generic wrapper of an object, which holds of every object.
    pub fn erased(object: AnyObject) -> (t: Typed)
        ensures
            t.spec_object() == object,
            t.spec_kind() == Kind::Any,
            forall|heap: &Heap| #[trigger] t.spec_holds(heap),
    {
        Typed { object, kind: Kind::Any }
    }

    /// The generic wrapper of this wrapper's object.
    pub fn erase(self) -> (t: Typed)
        ensures
            t.spec_object() == self.spec_object(),
            t.spec_kind() == Kind::Any,
    {
        Typed { object: self.object, kind: Kind::Any }
    }

    /// The wrapper of `object` as `kind`, with nothing checked: for a caller
    /// who knows that the object is of that kind.
    pub fn cast_unchecked(object: AnyObject, kind: Kind, heap: &Heap) -> (t: Typed)
        requires
            match heap.spec_runtime(object@) {
                Some(rt) => kind.spec_admits(rt),
                None => kind == Kind::Any,
            },
        ensures
            t.spec_object() == object,
            t.spec_kind() == kind,
            t.spec_holds(heap),
    {
        Typed { object, kind }
    }

    /// The wrapper as one of the kind `target`. A cast to the wrapper's own
    /// kind succeeds, and one between kinds whose fingerprints do not
    /// overlap fails, both without a look at the machine; any other cast
    /// goes by what the object is at run time.
    pub fn cast(self, target: Kind, heap: &mut Heap) -> (r: Option<Typed>)
        ensures
            r is Some <==> spec_cast_succeeds(
                self.spec_kind(),
                target,
                old(heap).spec_runtime(self.spec_object()@),
            ),
            r is Some ==> r->Some_0.spec_object() == self.spec_object() && r->Some_0.spec_kind()
                == target,
            self.spec_holds(old(heap)) && r is Some ==> r->Some_0.spec_holds(final(heap)),
            forall|addr: u64| final(heap).spec_header(addr) == old(heap).spec_header(addr),
            final(heap).spec_reads() == if spec_cast_reads(
                self.spec_kind(),
                target,
                self.spec_object()@,
            ) && old(heap).spec_reads() < u64::MAX {
                old(heap).spec_reads() + 1
            } else {
                old(heap).spec_reads()
            },
    {
        if self.kind == target {
            return Some(self);
        }
        if !self.kind.may_cast_to(target) {
            return None;
        }
        if self.object.is_kind(target, heap) {
            Some(Typed { object: self.object, kind: target })
        } else {
            None
        }
    }
}

/// A cast of a wrapper to its own kind succeeds, and a cast between kinds
/// whose fingerprints do not overlap fails; neither reads the machine.
pub proof fn lemma_cast_without_the_machine(
    source: Kind,
    target: Kind,
    raw: u64,
    rt: Option<Runtime>,
)
    ensures
        source == target ==> spec_cast_succeeds(source, target, rt) && !spec_cast_reads(
            source,
            target,
            raw,
        ),
        !spec_overlap(source.spec_fingerprint(), target.spec_fingerprint()) ==> !spec_cast_succeeds(
            source,
            target,
            rt,
        ) && !spec_cast_reads(source, target, raw),
{
    assert(0xffff_ffffu32 & 0xffff_ffffu32 != 0 && 0x0003u32 & 0x0003u32 != 0 && 0x0004u32
        & 0x0004u32 != 0 && 0x0008u32 & 0x0008u32 != 0 && 0x0010u32 & 0x0010u32 != 0 && 0x0020u32
        & 0x0020u32 != 0 && 0x0040u32 & 0x0040u32 != 0 && 0x0080u32 & 0x0080u32 != 0 && 0x0100u32
        & 0x0100u32 != 0 && 0x0200u32 & 0x0200u32 != 0) by (bit_vector);
}

/// A new entry behind the others answers for its word only where no other
/// entry does.
pub proof fn lemma_find_push(entries: Seq<Entry>, entry: Entry, other: u64)
    ensures
        spec_find(entries.push(entry), other) == if other == entry.addr && spec_find(
            entries,
            entry.addr,
        ) is None {
            Some(entry.header)
        } else {
            spec_find(entries, other)
        },
    decreases entries.len(),
{
    if entries.len() == 0 {
        assert(entries.push(entry).drop_first() =~= entries);
    } else {
        assert(entries.push(entry).drop_first() =~= entries.drop_first().push(entry));
        assert(entries.push(entry)[0] == entries[0]);
        lemma_find_push(entries.drop_first(), entry, other);
    }
}

} // verus!
