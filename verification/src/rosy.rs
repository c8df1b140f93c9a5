//! Values of the host that live as objects of the machine: the machine's
//! collector, not the host, decides when such a value is dropped.

use crate::object::{AnyObject, Header, Kind};
use crate::value::Ty;
use std::marker::PhantomData;
use std::rc::Rc;
use vstd::prelude::*;

verus! {

/// The number of the type of wrapped host values in an object header.
pub const DATA_TYPE_ID: u64 = 0x0c;

/// The flag of a registered type whose values are finalized as soon as
/// they are collected.
pub const TYPED_FREE_IMMEDIATELY: u64 = 1;

/// A type of the host whose values can be wrapped. The three callbacks are
/// called by the collector alone.
pub trait Rosy: Sized {
    /// The name under which the type is registered.
    fn id() -> &'static str;

    /// The word of the class under which values of this type are wrapped.
    fn class() -> u64;

    /// Trace: the objects of the machine that the value refers to. The
    /// collector keeps them alive as long as the value is alive; the value
    /// does not own them.
    fn mark(&self) -> Vec<AnyObject>;

    /// Finalize: takes the value back and drops it.
    fn free(self);

    /// Report size: the bytes that the value retains, for the collector's
    /// accounting; it need not be exact.
    fn size(&self) -> usize;
}

/// What is registered once for a host type and shared by all its wrapped
/// values.
#[derive(Clone, Copy, Debug, PartialEq, Eq)]
pub struct DataType {
    /// The name under which the type is registered.
    pub wrap_struct_name: &'static str,
    /// The word of the class of the wrapped values.
    pub class: u64,
    /// Whether the collector traces the values.
    pub has_mark: bool,
    /// Whether the collector finalizes the values.
    pub has_free: bool,
    /// Whether the collector asks the values for their size.
    pub has_size: bool,
    /// The word of the parent type; 0 for none.
    pub parent: u64,
    pub flags: u64,
}

/// A handle on a wrapped value of type `R`. Like every object of the
/// machine it belongs to the machine's thread.
pub struct RosyObject<R> {
    index: usize,
    marker: PhantomData<(R, Rc<()>)>,
}

impl<R> Clone for RosyObject<R> {
    fn clone(&self) -> (r: Self)
        ensures
            r == *self,
    {
        RosyObject { index: self.index, marker: PhantomData }
    }
}

impl<R> Copy for RosyObject<R> {

}

/// The wrapped values of one host type.
pub struct Wrapped<R: Rosy> {
    /// Each value until the finalizer has taken it back.
    records: Vec<Option<R>>,
}

impl<R> RosyObject<R> {
    /// The place of the wrapped value among those of its type.
    pub closed spec fn spec_index(self) -> nat {
        self.index as nat
    }

    /// The place of the wrapped value among those of its type.
    pub fn index(self) -> (i: usize)
        ensures
            i == self.spec_index(),
    {
        self.index
    }
}

impl<R: Rosy> RosyObject<R> {
    /// What is registered for the type `R`: its name and class, all three
    /// callbacks, no parent type, finalized at once.
    pub fn data_type() -> (ty: DataType)
        ensures
            call_ensures(R::id, (), ty.wrap_struct_name),
            call_ensures(R::class, (), ty.class),
            ty == (DataType {
                wrap_struct_name: ty.wrap_struct_name,
                class: ty.class,
                has_mark: true,
                has_free: true,
                has_size: true,
                parent: 0,
                flags: TYPED_FREE_IMMEDIATELY,
            }),
    {
        DataType {
            wrap_struct_name: R::id(),
            class: R::class(),
            has_mark: true,
            has_free: true,
            has_size: true,
            parent: 0,
            flags: TYPED_FREE_IMMEDIATELY,
        }
    }

    /// The header that the machine gives an object wrapped under `class`.
    pub fn header(class: u64) -> (h: Header)
        ensures
            h == (Header { flags: DATA_TYPE_ID, class, exception: false }),
            h.spec_runtime().ty == Ty::Data,
            (Kind::Foreign { class }).spec_admits(h.spec_runtime()),
    {
        Header { flags: DATA_TYPE_ID, class, exception: false }
    }
}

impl<R: Rosy> Wrapped<R> {
    /// How many values were wrapped so far.
    pub closed spec fn spec_len(&self) -> nat {
        self.records.len() as nat
    }

    /// The value at `i`, if it is alive.
    pub closed spec fn spec_value(&self, i: nat) -> Option<R> {
        if i < self.records.len() {
            self.records[i as int]
        } else {
            None
        }
    }

    /// Whether the value at `i` is alive.
    pub open spec fn spec_is_live(&self, i: nat) -> bool {
        self.spec_value(i) is Some
    }

    /// How often the finalizer ran for the value at `i`: once where the
    /// value was taken back, else never.
    pub open spec fn spec_finalized(&self, i: nat) -> nat {
        if i < self.spec_len() && self.spec_value(i) is None {
            1
        } else {
            0
        }
    }

    /// Only a value that was wrapped can be alive.
    pub proof fn lemma_live_is_inside(&self, i: nat)
        requires
            self.spec_is_live(i),
        ensures
            i < self.spec_len(),
    {
    }

    /// No wrapped values.
    pub fn new() -> (w: Wrapped<R>)
        ensures
            w.spec_len() == 0,
    {
        Wrapped { records: Vec::new() }
    }

    /// How many values were wrapped so far.
    pub fn len(&self) -> (n: usize)
        ensures
            n == self.spec_len(),
    {
        self.records.len()
    }

    /// Whether the value behind `handle` is alive.
    pub fn is_live(&self, handle: RosyObject<R>) -> (b: bool)
        ensures
            b == self.spec_is_live(handle.spec_index()),
    {
        handle.index < self.records.len() && self.records[handle.index].is_some()
    }

    /// How often the finalizer ran for the value behind `handle`.
    pub fn finalized(&self, handle: RosyObject<R>) -> (n: u8)
        ensures
            n == self.spec_finalized(handle.spec_index()),
            n <= 1,
            n == 0 <==> self.spec_is_live(handle.spec_index()) || handle.spec_index()
                >= self.spec_len(),
    {
        if handle.index < self.records.len() && self.records[handle.index].is_none() {
            1
        } else {
            0
        }
    }

    /// Hands `value` to the machine: it is alive from now on, and the host
    /// keeps a handle only.
    pub fn wrap(&mut self, value: R) -> (handle: RosyObject<R>)
        ensures
            handle.spec_index() == old(self).spec_len(),
            final(self).spec_len() == old(self).spec_len() + 1,
            final(self).spec_value(handle.spec_index()) == Some(value),
            forall|i: nat|
                i != handle.spec_index() ==> #[trigger] final(self).spec_value(i) == old(
                    self,
                ).spec_value(i),
    {
        let index: usize = self.records.len();
        self.records.push(Some(value));
        RosyObject { index, marker: PhantomData }
    }

    /// The wrapped value itself.
    pub fn as_data(&self, handle: RosyObject<R>) -> (data: &R)
        requires
            self.spec_is_live(handle.spec_index()),
        ensures
            self.spec_value(handle.spec_index()) == Some(*data),
    {
        match &self.records[handle.index] {
            Some(data) => data,
            None => unreached(),
        }
    }

    /// The trace callback: the objects that the wrapped value reports.
    pub fn dmark(&self, handle: RosyObject<R>) -> (refs: Vec<AnyObject>)
        requires
            self.spec_is_live(handle.spec_index()),
        ensures
            call_ensures(R::mark, (&self.spec_value(handle.spec_index())->Some_0,), refs),
    {
        self.as_data(handle).mark()
    }

    /// The size callback: the bytes that the wrapped value reports.
    pub fn dsize(&self, handle: RosyObject<R>) -> (bytes: usize)
        requires
            self.spec_is_live(handle.spec_index()),
        ensures
            call_ensures(R::size, (&self.spec_value(handle.spec_index())->Some_0,), bytes),
    {
        self.as_data(handle).size()
    }

    /// The finalize callback: takes the value behind `handle` back from the
    /// machine and drops it. For a value that was finalized before, nothing
    /// happens: the finalizer runs once at most.
    pub fn dfree(&mut self, handle: RosyObject<R>)
        ensures
            final(self).spec_len() == old(self).spec_len(),
            final(self).spec_value(handle.spec_index()) is None,
            old(self).spec_is_live(handle.spec_index()) ==> call_ensures(
                R::free,
                (old(self).spec_value(handle.spec_index())->Some_0,),
                (),
            ),
            forall|i: nat|
                i != handle.spec_index() ==> #[trigger] final(self).spec_value(i) == old(
                    self,
                ).spec_value(i),
    {
        if handle.index < self.records.len() {
            let value: Option<R> = self.records[handle.index].take();
            match value {
                Some(rosy) => rosy.free(),
                None => {},
            }
        }
    }

    /// One run of the collector, told which handles the machine can still
    /// reach: every other value is finalized, unless it was before; a value
    /// that can be reached stays as it is.
    pub fn collect(&mut self, reachable: &Vec<RosyObject<R>>)
        ensures
            spec_collected(old(self), final(self), reachable@),
    {
        let n: usize = self.records.len();
        let mut i: usize = 0;
        while i < n
            invariant
                n == old(self).spec_len(),
                self.spec_len() == n,
                i <= n,
                forall|k: nat|
                    #[trigger] self.spec_value(k) == if k >= i || spec_reaches(reachable@, k) {
                        old(self).spec_value(k)
                    } else {
                        None
                    },
            decreases n - i,
        {
            if !reaches(reachable, i) {
                self.dfree(RosyObject { index: i, marker: PhantomData });
            }
            i += 1;
        }
    }
}

/// Whether `after` is what one run of the collector leaves of `before`
/// when the machine can reach just the values behind `reachable`: those stay
/// as they are, and no other value is alive any more.
pub open spec fn spec_collected<R: Rosy>(
    before: &Wrapped<R>,
    after: &Wrapped<R>,
    reachable: Seq<RosyObject<R>>,
) -> bool {
    &&& after.spec_len() == before.spec_len()
    &&& forall|i: nat|
        #[trigger] after.spec_value(i) == if spec_reaches(reachable, i) {
            before.spec_value(i)
        } else {
            None
        }
}

/// The life of a wrapped value: as long as the machine can reach it, a run
/// of the collector leaves it alive and does not finalize it; the first run
/// after that finalizes it; and whatever runs follow, it stays finalized
/// once.
pub proof fn lemma_finalized_once<R: Rosy>(
    start: &Wrapped<R>,
    kept: &Wrapped<R>,
    swept: &Wrapped<R>,
    later: &Wrapped<R>,
    keep: Seq<RosyObject<R>>,
    sweep: Seq<RosyObject<R>>,
    any: Seq<RosyObject<R>>,
    i: nat,
)
    requires
        start.spec_is_live(i),
        spec_collected(start, kept, keep),
        spec_reaches(keep, i),
        spec_collected(kept, swept, sweep),
        !spec_reaches(sweep, i),
        spec_collected(swept, later, any),
    ensures
        start.spec_finalized(i) == 0,
        kept.spec_is_live(i) && kept.spec_finalized(i) == 0,
        !swept.spec_is_live(i) && swept.spec_finalized(i) == 1,
        !later.spec_is_live(i) && later.spec_finalized(i) == 1,
{
    start.lemma_live_is_inside(i);
}

/// Whether one of the handles points at place `i`.
pub open spec fn spec_reaches<R>(handles: Seq<RosyObject<R>>, i: nat) -> bool {
    exists|k: int| 0 <= k < handles.len() && #[trigger] handles[k].spec_index() == i
}

/// Whether one of the handles points at place `i`.
pub fn reaches<R>(handles: &Vec<RosyObject<R>>, i: usize) -> (b: bool)
    ensures
        b == spec_reaches(handles@, i as nat),
{
    let n: usize = handles.len();
    let mut k: usize = 0;
    while k < n
        invariant
            n == handles.len(),
            k <= n,
            forall|j: int| 0 <= j < k ==> #[trigger] handles[j].spec_index() != i,
        decreases n - k,
    {
        if handles[k].index == i {
            proof {
                assert(handles@[k as int].spec_index() == i);
            }
            return true;
        }
        k += 1;
    }
    false
}

} // verus!
