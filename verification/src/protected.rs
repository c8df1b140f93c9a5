//! The boundary that keeps an exception of the machine from unwinding the
//! host: a trap frame is entered, the work runs, and what it ended with
//! comes back as a value.

use crate::object::AnyObject;
use vstd::prelude::*;

verus! {

/// The families of error that the machine raises.
#[derive(Clone, Copy, Debug, PartialEq, Eq, Structural)]
pub enum Category {
    Standard,
    Argument,
    Type,
    Range,
    Runtime,
    Name,
    NoMethod,
    ZeroDivision,
    Load,
    /// A fault of the host that was turned into an exception at the
    /// boundary.
    HostFault,
    /// The pending slot was empty when an exception was taken from it.
    Missing,
    /// An exception of none of these families.
    Other,
}

/// The families that a raised object belongs to, as the machine answers for
/// each of them.
#[derive(Clone, Copy, Debug, PartialEq, Eq, Structural)]
pub struct Families {
    pub standard: bool,
    pub argument: bool,
    pub wrong_type: bool,
    pub range: bool,
    pub runtime: bool,
    pub name: bool,
    pub no_method: bool,
    pub zero_division: bool,
    pub load: bool,
}

impl Category {
    /// The category of an object of the given families: the narrowest
    /// family first, so that a missing method is not taken for a missing
    /// name, nor any of them for a plain standard error.
    pub open spec fn spec_of(families: Families) -> Category {
        if families.no_method {
            Category::NoMethod
        } else if families.name {
            Category::Name
        } else if families.zero_division {
            Category::ZeroDivision
        } else if families.argument {
            Category::Argument
        } else if families.wrong_type {
            Category::Type
        } else if families.range {
            Category::Range
        } else if families.runtime {
            Category::Runtime
        } else if families.load {
            Category::Load
        } else if families.standard {
            Category::Standard
        } else {
            Category::Other
        }
    }

    /// The category of an object of the given families.
    pub fn of(families: Families) -> (c: Category)
        ensures
            c == Self::spec_of(families),
    {
        if families.no_method {
            Category::NoMethod
        } else if families.name {
            Category::Name
        } else if families.zero_division {
            Category::ZeroDivision
        } else if families.argument {
            Category::Argument
        } else if families.wrong_type {
            Category::Type
        } else if families.range {
            Category::Range
        } else if families.runtime {
            Category::Runtime
        } else if families.load {
            Category::Load
        } else if families.standard {
            Category::Standard
        } else {
            Category::Other
        }
    }
}

/// A raised error of the machine, captured as a value.
#[derive(Clone, Copy, Debug, PartialEq, Eq)]
pub struct AnyException {
    pub object: AnyObject,
    pub category: Category,
}

/// How a unit of work ended.
#[derive(Debug)]
pub enum Signal<T> {
    /// It returned a value.
    Return(T),
    /// The machine raised an exception, which is pending.
    Raise,
    /// The host itself failed; nothing of the machine is pending.
    Fault,
}

/// What a protected call gives back.
#[derive(Debug)]
pub enum Outcome<T> {
    Returned(T),
    Raised(AnyException),
}

/// Where the host stands at the boundary.
#[derive(Clone, Copy, Debug, PartialEq, Eq, Structural)]
pub enum Phase {
    /// No trap frame is entered.
    Idle,
    /// Work runs inside a trap frame.
    Entered,
}

/// The state of the boundary: how many trap frames are entered, and the
/// machine's slot for a pending exception.
#[derive(Clone, Copy, Debug, PartialEq, Eq)]
pub struct Boundary {
    depth: usize,
    pending: Option<AnyException>,
}

impl Boundary {
    /// The number of trap frames that are entered; 0 when idle.
    pub closed spec fn spec_depth(self) -> nat {
        self.depth as nat
    }

    /// The exception that is pending, if any.
    pub closed spec fn spec_pending(self) -> Option<AnyException> {
        self.pending
    }

    /// The state after one more trap frame is entered.
    pub closed spec fn spec_entered(self) -> Boundary {
        Boundary { depth: (self.depth + 1) as usize, pending: self.pending }
    }

    /// The state after the machine raised `exception`.
    pub closed spec fn spec_raised(self, exception: AnyException) -> Boundary {
        Boundary { depth: self.depth, pending: Some(exception) }
    }

    /// The state after the innermost trap frame is left, whatever the work
    /// ended with: the pending slot is empty.
    pub closed spec fn spec_left(self) -> Boundary {
        Boundary { depth: (self.depth - 1) as usize, pending: None }
    }

    /// The exception that a fault of the host is turned into.
    pub open spec fn spec_host_fault() -> AnyException {
        AnyException { object: AnyObject::spec_nil(), category: Category::HostFault }
    }

    /// What is taken where the pending slot is empty.
    pub open spec fn spec_missing() -> AnyException {
        AnyException { object: AnyObject::spec_nil(), category: Category::Missing }
    }

    /// What the innermost trap frame gives back for the way the work ended:
    /// a returned value as it is, the pending exception where the machine
    /// raised, and a fault of the host as an exception of its own.
    pub open spec fn spec_outcome<T>(self, signal: Signal<T>) -> Outcome<T> {
        match signal {
            Signal::Return(value) => Outcome::Returned(value),
            Signal::Raise => match self.spec_pending() {
                Some(exception) => Outcome::Raised(exception),
                None => Outcome::Raised(Self::spec_missing()),
            },
            Signal::Fault => Outcome::Raised(Self::spec_host_fault()),
        }
    }

    /// Where the host stands: idle without a frame, else entered.
    pub open spec fn spec_phase(self) -> Phase {
        if self.spec_depth() == 0 {
            Phase::Idle
        } else {
            Phase::Entered
        }
    }

    /// Where the host stands.
    pub fn phase(self) -> (p: Phase)
        ensures
            p == self.spec_phase(),
    {
        if self.depth == 0 {
            Phase::Idle
        } else {
            Phase::Entered
        }
    }

    /// The idle boundary: no frame, nothing pending.
    pub fn new() -> (b: Boundary)
        ensures
            b.spec_depth() == 0,
            b.spec_pending() is None,
    {
        Boundary { depth: 0, pending: None }
    }

    /// The number of trap frames that are entered.
    pub fn depth(self) -> (n: usize)
        ensures
            n == self.spec_depth(),
    {
        self.depth
    }

    /// Whether an exception is pending.
    pub fn has_pending(self) -> (b: bool)
        ensures
            b == self.spec_pending() is Some,
    {
        self.pending.is_some()
    }

    /// Enters a trap frame.
    pub fn enter(self) -> (b: Boundary)
        requires
            self.spec_depth() < usize::MAX,
        ensures
            b == self.spec_entered(),
            b.spec_depth() == self.spec_depth() + 1,
            b.spec_pending() == self.spec_pending(),
    {
        Boundary { depth: self.depth + 1, pending: self.pending }
    }

    /// The machine raises `exception` inside a trap frame: it becomes
    /// pending, and the work ends with `Signal::Raise`.
    pub fn raise<T>(self, exception: AnyException) -> (r: (Boundary, Signal<T>))
        requires
            self.spec_depth() > 0,
        ensures
            r.0 == self.spec_raised(exception),
            r.0.spec_depth() == self.spec_depth(),
            r.0.spec_pending() == Some(exception),
            r.1 is Raise,
    {
        (Boundary { depth: self.depth, pending: Some(exception) }, Signal::Raise)
    }

    /// Leaves the innermost trap frame with the way the work ended, and
    /// clears the pending slot.
    pub fn leave<T>(self, signal: Signal<T>) -> (r: (Boundary, Outcome<T>))
        requires
            self.spec_depth() > 0,
        ensures
            r.0 == self.spec_left(),
            r.0.spec_depth() == self.spec_depth() - 1,
            r.0.spec_pending() is None,
            r.1 == self.spec_outcome(signal),
    {
        let after = Boundary { depth: self.depth - 1, pending: None };
        let outcome = match signal {
            Signal::Return(value) => Outcome::Returned(value),
            Signal::Raise => match self.pending {
                Some(exception) => Outcome::Raised(exception),
                None => Outcome::Raised(
                    AnyException { object: AnyObject::nil(), category: Category::Missing },
                ),
            },
            Signal::Fault => Outcome::Raised(
                AnyException { object: AnyObject::nil(), category: Category::HostFault },
            ),
        };
        (after, outcome)
    }

    /// Runs `work` inside a trap frame of its own. Whatever way the work
    /// ends, the frame is left, nothing stays pending, and the end of the
    /// work comes back as a value.
    pub fn protected<T, F: FnOnce(Boundary) -> (Boundary, Signal<T>)>(self, work: F) -> (r: (
        Boundary,
        Outcome<T>,
    ))
        requires
            self.spec_depth() < usize::MAX,
            call_requires(work, (self.spec_entered(),)),
            forall|mid: Boundary, signal: Signal<T>|
                call_ensures(work, (self.spec_entered(),), (mid, signal)) ==> mid.spec_depth()
                    == self.spec_depth() + 1,
        ensures
            r.0.spec_depth() == self.spec_depth(),
            r.0.spec_pending() is None,
            exists|mid: Boundary, signal: Signal<T>|
                call_ensures(work, (self.spec_entered(),), (mid, signal)) && r.1
                    == mid.spec_outcome(signal),
    {
        let inside = self.enter();
        let (mid, signal) = work(inside);
        mid.leave(signal)
    }

    /// Runs `work` without a trap frame, for work that cannot raise.
    pub fn unprotected<T, F: FnOnce(Boundary) -> (Boundary, Signal<T>)>(self, work: F) -> (r: (
        Boundary,
        T,
    ))
        requires
            call_requires(work, (self,)),
            forall|mid: Boundary, signal: Signal<T>|
                call_ensures(work, (self,), (mid, signal)) ==> signal is Return,
        ensures
            call_ensures(work, (self,), (r.0, Signal::Return(r.1))),
    {
        let (mid, signal) = work(self);
        match signal {
            Signal::Return(value) => (mid, value),
            _ => unreached(),
        }
    }
}

/// An exception that is raised inside a protected call is caught by it: the
/// call gives back that exception, and nothing stays pending.
pub proof fn lemma_raised_is_caught<T>(b: Boundary, exception: AnyException)
    requires
        b.spec_depth() < usize::MAX,
    ensures
        b.spec_entered().spec_raised(exception).spec_outcome(Signal::<T>::Raise) == Outcome::<
            T,
        >::Raised(exception),
        b.spec_entered().spec_raised(exception).spec_left().spec_pending() is None,
        b.spec_entered().spec_raised(exception).spec_left().spec_depth() == b.spec_depth(),
{
}

/// Of two protected calls, one inside the other, the inner one catches: the
/// outer call gives back, as a returned value, what the inner one caught.
pub proof fn lemma_innermost_catches<T>(b: Boundary, exception: AnyException)
    requires
        b.spec_depth() + 1 < usize::MAX,
    ensures
        ({
            let inner_state = b.spec_entered().spec_entered().spec_raised(exception);
            let inner = inner_state.spec_outcome(Signal::<T>::Raise);
            let outer_state = inner_state.spec_left();
            &&& inner == Outcome::<T>::Raised(exception)
            &&& outer_state.spec_depth() == b.spec_depth() + 1
            &&& outer_state.spec_pending() is None
            &&& outer_state.spec_outcome(Signal::Return(inner)) == Outcome::Returned(inner)
            &&& outer_state.spec_left().spec_depth() == b.spec_depth()
        }),
{
}

} // verus!
