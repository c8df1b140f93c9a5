//! The start and the end of the machine.

use crate::num::integer::Integer;
use crate::num::radix::radix_string;
use std::marker::PhantomData;
use std::rc::Rc;
use vstd::prelude::*;

verus! {

/// The machine could not be started.
#[derive(Clone, Copy, Debug, PartialEq, Eq, Hash)]
pub struct InitError {
    code: i32,
}

/// The machine could not be shut down cleanly.
#[derive(Clone, Copy, Debug, PartialEq, Eq, Hash)]
pub struct DestroyError {
    code: i32,
}

/// The handle on a machine that was started. There is one per process, it
/// stays on the thread that started the machine, and shutting the machine
/// down uses it up.
#[derive(Debug)]
pub struct Vm {
    thread: PhantomData<Rc<()>>,
}

impl Vm {
    /// The handle for the status that the machine's start returned: a
    /// status of 0 gives the handle, any other the error.
    pub fn started(status: i32) -> (r: Result<Vm, InitError>)
        ensures
            r is Ok <==> status == 0,
            r is Err ==> r->Err_0.spec_code() == status,
    {
        match InitError::from_status(status) {
            Ok(()) => Ok(Vm { thread: PhantomData }),
            Err(error) => Err(error),
        }
    }

    /// Gives the handle up for the status that the machine's shutdown
    /// returned: a status of 0 is a clean end, any other the error. Either
    /// way the machine cannot be used again.
    pub fn destroyed(self, status: i32) -> (r: Result<(), DestroyError>)
        ensures
            r is Ok <==> status == 0,
            r is Err ==> r->Err_0.spec_code() == status,
    {
        DestroyError::from_status(status)
    }
}

/// A message with an error code behind it.
pub open spec fn spec_message(description: Seq<char>, code: int) -> Seq<char> {
    description + " (error code "@ + radix_string(code, 10) + ")"@
}

fn message(description: &str, code: i32) -> (s: String)
    ensures
        s@ == spec_message(description@, code as int),
{
    let mut s: String = String::new();
    s.push_str(description);
    s.push_str(" (error code ");
    let digits: String = Integer::from_word(code).to_s();
    s.push_str(digits.as_str());
    s.push_str(")");
    proof {
        assert(Seq::<char>::empty() + description@ =~= description@);
    }
    s
}

impl InitError {
    /// The code that the machine gave: never 0.
    #[verifier::type_invariant]
    closed spec fn wf(self) -> bool {
        self.code != 0
    }

    pub closed spec fn spec_code(self) -> i32 {
        self.code
    }

    /// The error for the status that the machine's start returned; a status
    /// of 0 is no error.
    pub fn from_status(status: i32) -> (r: Result<(), InitError>)
        ensures
            r is Ok <==> status == 0,
            r is Err ==> r->Err_0.spec_code() == status,
    {
        if status != 0 {
            Err(InitError { code: status })
        } else {
            Ok(())
        }
    }

    /// The code that the machine gave.
    pub fn code(self) -> (c: i32)
        ensures
            c == self.spec_code(),
            c != 0,
    {
        proof {
            use_type_invariant(self);
        }
        self.code
    }

    /// What went wrong, in words.
    pub fn description(&self) -> (s: &'static str)
        ensures
            s@ == "Failed to initialize Ruby"@,
    {
        "Failed to initialize Ruby"
    }

    /// The description with the code behind it.
    pub fn to_string(&self) -> (s: String)
        ensures
            s@ == spec_message("Failed to initialize Ruby"@, self.spec_code() as int),
    {
        message(self.description(), self.code)
    }
}

impl DestroyError {
    /// The code that the machine gave: never 0.
    #[verifier::type_invariant]
    closed spec fn wf(self) -> bool {
        self.code != 0
    }

    pub closed spec fn spec_code(self) -> i32 {
        self.code
    }

    /// The error for the status that the machine's shutdown returned; a
    /// status of 0 is no error.
    pub fn from_status(status: i32) -> (r: Result<(), DestroyError>)
        ensures
            r is Ok <==> status == 0,
            r is Err ==> r->Err_0.spec_code() == status,
    {
        if status != 0 {
            Err(DestroyError { code: status })
        } else {
            Ok(())
        }
    }

    /// The code that the machine gave, fit to end the process with.
    pub fn code(self) -> (c: i32)
        ensures
            c == self.spec_code(),
            c != 0,
    {
        proof {
            use_type_invariant(self);
        }
        self.code
    }

    /// What went wrong, in words.
    pub fn description(&self) -> (s: &'static str)
        ensures
            s@ == "Failed to destroy Ruby"@,
    {
        "Failed to destroy Ruby"
    }

    /// The description with the code behind it.
    pub fn to_string(&self) -> (s: String)
        ensures
            s@ == spec_message("Failed to destroy Ruby"@, self.spec_code() as int),
    {
        message(self.description(), self.code)
    }
}

} // verus!
