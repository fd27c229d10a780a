//! A bounds-checked read cursor over an immutable byte buffer.

use vstd::prelude::*;
use vstd::slice::{slice_subrange, slice_to_vec};

verus! {

/// The bytes that are left when a cursor stands at `position` in `bytes`.
pub open spec fn remaining_at(bytes: Seq<u8>, position: nat) -> nat {
    if position <= bytes.len() {
        (bytes.len() - position) as nat
    } else {
        0
    }
}

/// Where a cursor at `position` stands after moving `n` bytes forward: it
/// stops at the end of the buffer.
pub open spec fn advance(bytes: Seq<u8>, position: nat, n: nat) -> nat {
    if position + n <= bytes.len() {
        position + n
    } else {
        bytes.len()
    }
}

/// A byte buffer and a position in it. The position never passes the end
/// of the buffer, and no read hands out bytes that are not there.
#[derive(Debug)]
pub struct ByteCursor {
    bytes: Vec<u8>,
    position: usize,
}

impl Clone for ByteCursor {
    fn clone(&self) -> (cursor: Self)
        ensures
            cursor.bytes() == self.bytes(),
            cursor.position() == self.position(),
    {
        proof {
            use_type_invariant(self);
        }
        let bytes: Vec<u8> = self.bytes.clone();
        assert(bytes@ =~= self.bytes@);
        ByteCursor { bytes, position: self.position }
    }
}

impl ByteCursor {
    #[verifier::type_invariant]
    spec fn within_buffer(self) -> bool {
        self.position <= self.bytes@.len()
    }

    /// The whole buffer.
    pub closed spec fn bytes(&self) -> Seq<u8> {
        self.bytes@
    }

    /// The offset of the next byte to read.
    pub closed spec fn position(&self) -> nat {
        self.position as nat
    }

    /// A cursor at the start of `bytes`.
    pub fn new(bytes: Vec<u8>) -> (cursor: Self)
        ensures
            cursor.bytes() == bytes@,
            cursor.position() == 0,
    {
        ByteCursor { bytes, position: 0 }
    }

    /// The length of the buffer.
    pub fn len(&self) -> (n: usize)
        ensures
            n == self.bytes().len(),
    {
        self.bytes.len()
    }

    /// The offset of the next byte to read.
    pub fn offset(&self) -> (p: usize)
        ensures
            p == self.position(),
            p <= self.bytes().len(),
    {
        proof {
            use_type_invariant(self);
        }
        self.position
    }

    /// The number of bytes between the cursor and the end of the buffer.
    pub fn remaining(&self) -> (n: usize)
        ensures
            n == remaining_at(self.bytes(), self.position()),
            self.position() + n == self.bytes().len(),
    {
        proof {
            use_type_invariant(self);
        }
        self.bytes.len() - self.position
    }

    /// Reads the next `n` bytes and moves past them. Where fewer than `n`
    /// bytes are left, nothing is handed out and the cursor moves to the end.
    pub fn read_exact(&mut self, n: usize) -> (r: Option<Vec<u8>>)
        ensures
            final(self).bytes() == old(self).bytes(),
            n <= remaining_at(old(self).bytes(), old(self).position()) ==> {
                &&& r is Some
                &&& r->Some_0@ == old(self).bytes().subrange(
                    old(self).position() as int,
                    old(self).position() + n,
                )
                &&& final(self).position() == old(self).position() + n
            },
            n > remaining_at(old(self).bytes(), old(self).position()) ==> {
                &&& r is None
                &&& final(self).position() == old(self).bytes().len()
            },
    {
        proof {
            use_type_invariant(&*self);
        }
        let len: usize = self.bytes.len();
        if n <= len - self.position {
            let start: usize = self.position;
            let out: Vec<u8> = slice_to_vec(slice_subrange(self.bytes.as_slice(), start, start + n));
            self.position = start + n;
            Some(out)
        } else {
            self.position = len;
            None
        }
    }

    /// Moves `n` bytes forward, or to the end of the buffer if that is nearer.
    pub fn skip(&mut self, n: usize)
        ensures
            final(self).bytes() == old(self).bytes(),
            final(self).position() == advance(old(self).bytes(), old(self).position(), n as nat),
    {
        proof {
            use_type_invariant(&*self);
        }
        let len: usize = self.bytes.len();
        if n <= len - self.position {
            self.position = self.position + n;
        } else {
            self.position = len;
        }
    }

    /// Moves to the absolute offset `target`, or to the end of the buffer if
    /// `target` lies beyond it.
    pub fn seek(&mut self, target: u64)
        ensures
            final(self).bytes() == old(self).bytes(),
            final(self).position() == advance(old(self).bytes(), 0, target as nat),
    {
        let len: usize = self.bytes.len();
        if target <= len as u64 {
            self.position = target as usize;
        } else {
            self.position = len;
        }
    }
}

} // verus!
