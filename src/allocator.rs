//! A bump allocator over a fixed heap: it hands out aligned ranges one
//! after another and never takes memory back.
use vstd::prelude::*;
use crate::bytes::zeros;

verus! {

/// The smallest multiple of `align` that is at least `x`.
pub open spec fn round_up(x: nat, align: nat) -> nat
    recommends
        align > 0,
{
    if x % align == 0 {
        x
    } else {
        (x + (align - x % align)) as nat
    }
}

/// A heap of `heap_size` bytes of which the first `allocated` are handed out.
pub struct MemoryAllocator {
    heap: Vec<u8>,
    heap_size: usize,
    allocated: usize,
}

impl MemoryAllocator {
    /// Size of the heap in bytes.
    pub closed spec fn capacity(&self) -> nat {
        self.heap_size as nat
    }

    /// Bytes handed out so far, alignment padding included.
    pub closed spec fn used(&self) -> nat {
        self.allocated as nat
    }

    pub closed spec fn wf(&self) -> bool {
        self.allocated <= self.heap_size && self.heap@.len() == self.heap_size
    }

    /// A heap of `heap_size` zero bytes with nothing handed out.
    pub fn new(heap_size: usize) -> (r: MemoryAllocator)
        ensures
            r.wf(),
            r.capacity() == heap_size,
            r.used() == 0,
    {
        MemoryAllocator { heap: zeros(heap_size), heap_size, allocated: 0 }
    }

    /// Hands out `size` bytes at an offset that is a multiple of `align`: the
    /// first such offset past what was handed out. Returns `None`, and hands
    /// out nothing, when the heap has no room for it.
    pub fn allocate(&mut self, size: usize, align: usize) -> (r: Option<usize>)
        requires
            old(self).wf(),
            align > 0,
        ensures
            final(self).wf(),
            final(self).capacity() == old(self).capacity(),
            round_up(old(self).used(), align as nat) + size <= old(self).capacity() ==> {
                &&& r == Some(round_up(old(self).used(), align as nat) as usize)
                &&& final(self).used() == round_up(old(self).used(), align as nat) + size
            },
            round_up(old(self).used(), align as nat) + size > old(self).capacity() ==> {
                &&& r is None
                &&& final(self).used() == old(self).used()
            },
            r matches Some(off) ==> off % align == 0 && off >= old(self).used(),
    {
        let rem = self.allocated % align;
        let pad = if rem == 0 {
            0
        } else {
            align - rem
        };
        let room = self.heap_size - self.allocated;
        if pad > room || size > room - pad {
            return None;
        }
        let start = self.allocated + pad;
        proof {
            let x = self.allocated as int;
            let a = align as int;
            if rem != 0 {
                assert((x + (a - x % a)) % a == 0) by (nonlinear_arith)
                    requires
                        a > 0,
                        0 < x % a < a,
                ;
            }
        }
        self.allocated = start + size;
        Some(start)
    }

    /// Memory is never taken back: this leaves the heap as it is.
    pub fn dealloc(&mut self, offset: usize, size: usize)
        ensures
            *final(self) == *old(self),
    {
    }

    /// The heap's bytes.
    pub fn heap(&self) -> (r: &[u8])
        requires
            self.wf(),
        ensures
            r@.len() == self.capacity(),
    {
        self.heap.as_slice()
    }
}

} // verus!
