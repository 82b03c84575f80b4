//! Reusable byte buffers backing raw directory reads.
//!
//! A guard hands out a zero-filled buffer of the requested size; the
//! embedding recycles the allocation behind it.

use vstd::prelude::*;

verus! {

/// A borrowed scratch buffer for one enumeration pass.
pub struct BufferGuard {
    pub buf: Vec<u8>,
}

impl BufferGuard {
    /// A zero-filled buffer of exactly `min_capacity` bytes.
    pub fn borrow(min_capacity: usize) -> (r: BufferGuard)
        ensures
            r.buf@.len() == min_capacity,
            forall|i: int| 0 <= i < min_capacity ==> r.buf@[i] == 0u8,
    {
        let mut buf: Vec<u8> = Vec::new();
        buf.resize(min_capacity, 0u8);
        BufferGuard { buf }
    }

    /// The bytes, writable.
    pub fn as_mut_slice(&mut self) -> (r: &mut Vec<u8>)
        ensures
            *r == old(self).buf,
            *final(self) == (BufferGuard { buf: *final(r) }),
    {
        &mut self.buf
    }

    /// Buffer length in bytes.
    pub fn len(&self) -> (r: usize)
        ensures
            r == self.buf@.len(),
    {
        self.buf.len()
    }

    /// Whether the buffer is empty.
    pub fn is_empty(&self) -> (r: bool)
        ensures
            r == (self.buf@.len() == 0),
    {
        self.buf.len() == 0
    }
}

} // verus!
