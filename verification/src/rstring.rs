//! The layout of the machine's string objects, as far as the host reads it.

use crate::object::AnyObject;
use crate::protected::{AnyException, Category};
use vstd::prelude::*;

verus! {

/// The first of the flag bits that each type of object uses as it likes.
pub const FL_USHIFT: u64 = 12;

/// Set where the bytes of a string live outside the object.
pub const NO_EMBED: u64 = 0x2000;

/// The bits that hold the length of a string whose bytes live inside the
/// object.
pub const EMBED_LEN_MASK: u64 = 0x7_c000;

/// How far the length stands from the lowest bit.
pub const EMBED_LEN_SHIFT: u64 = 14;

/// The greatest length of a string whose bytes live inside the object.
pub const EMBED_LEN_MAX: usize = 23;

/// Set while the string is locked against changes.
pub const STR_TMPLOCK: u64 = 0x8_0000;

/// The part of a string object that says where bytes outside the object
/// are.
#[derive(Clone, Copy, Debug, PartialEq, Eq, Structural)]
pub struct RStringHeap {
    /// The number of bytes.
    pub len: isize,
    /// The address of the first byte.
    pub ptr: u64,
    /// The capacity of the allocation, or the word of the string that
    /// shares its bytes.
    pub aux: u64,
}

/// A string object of the machine.
#[derive(Clone, Copy, Debug, PartialEq, Eq, Structural)]
pub struct RString {
    /// The flags of the object's header.
    pub flags: u64,
    /// The word of the object's class.
    pub klass: u64,
    /// Where the bytes are, for a string whose bytes live outside the
    /// object.
    pub heap: RStringHeap,
}

/// One of the machine's encodings.
#[allow(non_camel_case_types)]
#[derive(Clone, Copy, Debug, PartialEq, Eq, Structural)]
pub struct rb_encoding {
    /// The address of the encoding's name.
    pub name: u64,
    /// The most bytes that one character takes.
    pub max_enc_len: i32,
    /// The fewest bytes that one character takes.
    pub min_enc_len: i32,
    /// The place of the encoding in the machine's table.
    pub ruby_encoding_index: i32,
    pub flags: u32,
}

impl RString {
    /// The length that the flags hold: five bits above the shift.
    pub open spec fn spec_embed_len(&self) -> nat {
        ((self.flags / 0x4000) % 32) as nat
    }

    pub open spec fn spec_is_embedded(&self) -> bool {
        (self.flags / 0x2000) % 2 == 0
    }

    pub open spec fn spec_is_locked(&self) -> bool {
        (self.flags / 0x8_0000) % 2 == 1
    }

    /// The number of bytes of the string: held in the flags where the bytes
    /// live inside the object, else beside the address of the bytes, read as
    /// an unsigned number.
    pub open spec fn spec_len(&self) -> nat {
        if self.spec_is_embedded() {
            self.spec_embed_len()
        } else if self.heap.len < 0 {
            (self.heap.len + usize::MAX + 1) as nat
        } else {
            self.heap.len as nat
        }
    }

    /// The length of a string whose bytes live inside the object.
    pub fn embed_len(&self) -> (n: usize)
        ensures
            n == self.spec_embed_len(),
            n <= 31,
    {
        let flags: u64 = self.flags;
        assert(((0x7_c000u64 >> 14u64) & (flags >> 14u64)) == (flags / 0x4000) % 32)
            by (bit_vector);
        let mask: u64 = EMBED_LEN_MASK >> EMBED_LEN_SHIFT;
        (mask & (flags >> EMBED_LEN_SHIFT)) as usize
    }

    /// Whether the bytes of the string live inside the object.
    pub fn is_embedded(&self) -> (b: bool)
        ensures
            b == self.spec_is_embedded(),
    {
        let flags: u64 = self.flags;
        assert((flags & 0x2000u64 == 0) <==> ((flags / 0x2000) % 2 == 0)) by (bit_vector);
        flags & NO_EMBED == 0
    }

    /// Whether the string is locked against changes.
    pub fn is_locked(&self) -> (b: bool)
        ensures
            b == self.spec_is_locked(),
    {
        let flags: u64 = self.flags;
        assert((flags & 0x8_0000u64 != 0) <==> ((flags / 0x8_0000) % 2 == 1)) by (bit_vector);
        flags & STR_TMPLOCK != 0
    }

    /// The number of bytes of the string.
    pub fn len(&self) -> (n: usize)
        ensures
            n == self.spec_len(),
    {
        if self.is_embedded() {
            self.embed_len()
        } else if self.heap.len < 0 {
            let below: isize = -(self.heap.len + 1);
            usize::MAX - below as usize
        } else {
            self.heap.len as usize
        }
    }

    /// The flags with the lock set.
    pub open spec fn spec_locked_flags(flags: u64) -> u64 {
        flags | STR_TMPLOCK
    }

    /// The flags with the lock cleared.
    pub open spec fn spec_unlocked_flags(flags: u64) -> u64 {
        flags & !STR_TMPLOCK
    }

    /// What the machine raises for a lock on a locked string and for an
    /// unlock of a string that is not locked.
    pub open spec fn spec_lock_error() -> AnyException {
        AnyException { object: AnyObject::spec_nil(), category: Category::Runtime }
    }

    /// Locks the string against changes. A string that is locked already
    /// stays as it is, and the lock is refused.
    pub fn raw_lock(&mut self) -> (r: Result<(), AnyException>)
        ensures
            r is Ok <==> !old(self).spec_is_locked(),
            r is Err ==> r->Err_0 == Self::spec_lock_error() && *final(self) == *old(self),
            r is Ok ==> *final(self) == (RString {
                flags: Self::spec_locked_flags(old(self).flags),
                ..*old(self)
            }),
            r is Ok ==> final(self).spec_is_locked(),
            final(self).spec_len() == old(self).spec_len(),
    {
        if self.is_locked() {
            return Err(AnyException { object: AnyObject::nil(), category: Category::Runtime });
        }
        let flags: u64 = self.flags;
        assert(((flags | 0x8_0000u64) / 0x8_0000) % 2 == 1 && ((flags | 0x8_0000u64) / 0x2000) % 2
            == (flags / 0x2000) % 2 && ((flags | 0x8_0000u64) / 0x4000) % 32 == (flags / 0x4000)
            % 32) by (bit_vector);
        self.flags = flags | STR_TMPLOCK;
        Ok(())
    }

    /// Takes the lock off the string. A string that is not locked stays as
    /// it is, and the unlock is refused.
    pub fn raw_unlock(&mut self) -> (r: Result<(), AnyException>)
        ensures
            r is Ok <==> old(self).spec_is_locked(),
            r is Err ==> r->Err_0 == Self::spec_lock_error() && *final(self) == *old(self),
            r is Ok ==> *final(self) == (RString {
                flags: Self::spec_unlocked_flags(old(self).flags),
                ..*old(self)
            }),
            r is Ok ==> !final(self).spec_is_locked(),
            final(self).spec_len() == old(self).spec_len(),
    {
        if !self.is_locked() {
            return Err(AnyException { object: AnyObject::nil(), category: Category::Runtime });
        }
        let flags: u64 = self.flags;
        assert(((flags & !0x8_0000u64) / 0x8_0000) % 2 == 0 && ((flags & !0x8_0000u64) / 0x2000)
            % 2 == (flags / 0x2000) % 2 && ((flags & !0x8_0000u64) / 0x4000) % 32 == (flags
            / 0x4000) % 32) by (bit_vector);
        self.flags = flags & !STR_TMPLOCK;
        Ok(())
    }

    /// Runs `f` on the string while it is locked, and takes the lock off
    /// again; nothing is run on a string that is locked already.
    pub fn with_lock<O, F: FnOnce(RString) -> O>(&mut self, f: F) -> (r: Option<O>)
        requires
            !old(self).spec_is_locked() ==> call_requires(
                f,
                (RString { flags: Self::spec_locked_flags(old(self).flags), ..*old(self) },),
            ),
        ensures
            r is Some <==> !old(self).spec_is_locked(),
            r is Some ==> call_ensures(
                f,
                (RString { flags: Self::spec_locked_flags(old(self).flags), ..*old(self) },),
                r->Some_0,
            ),
            *final(self) == *old(self),
    {
        let flags: u64 = self.flags;
        assert((flags / 0x8_0000) % 2 == 0 ==> (flags | 0x8_0000u64) & !0x8_0000u64 == flags)
            by (bit_vector);
        if self.raw_lock().is_err() {
            return None;
        }
        let output: O = f(*self);
        let _ = self.raw_unlock();
        Some(output)
    }
}

} // verus!
