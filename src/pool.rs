//! A pool of reusable byte buffers that grows a chunk at a time.
use vstd::prelude::*;
use crate::bytes::{append_range, write_at, zeros};

verus! {

/// Buffers added each time the pool runs out.
pub const CHUNK_NODES: usize = 64;

/// Hands out buffers of a fixed size by handle. A handle owns its buffer
/// until it is released; a released buffer goes back on the free list. When
/// the free list is empty the pool grows by one chunk, and it never shrinks.
pub struct PoolAllocator {
    buffers: Vec<Vec<u8>>,
    in_use: Vec<bool>,
    free: Vec<usize>,
    chunk_size: usize,
}

impl PoolAllocator {
    /// Number of buffers the pool holds, free or not.
    pub closed spec fn capacity(&self) -> nat {
        self.buffers@.len()
    }

    /// Whether the buffer of handle `h` is handed out.
    pub closed spec fn in_use(&self, h: int) -> bool {
        self.in_use@[h]
    }

    /// Bytes per buffer.
    pub closed spec fn stride(&self) -> nat {
        self.chunk_size as nat
    }

    /// The bytes of buffer `h`.
    pub closed spec fn contents(&self, h: int) -> Seq<u8> {
        self.buffers@[h]@
    }

    /// Every buffer is either on the free list or handed out, never both.
    pub closed spec fn wf(&self) -> bool {
        &&& self.in_use@.len() == self.buffers@.len()
        &&& self.buffers@.len() % (CHUNK_NODES as nat) == 0
        &&& forall|h: int| 0 <= h < self.buffers@.len() ==> (#[trigger] self.buffers@[h])@.len() == self.chunk_size
        &&& forall|a: int, b: int| 0 <= a < b < self.free@.len() ==> self.free@[a] != self.free@[b]
        &&& forall|k: int| 0 <= k < self.free@.len() ==> (#[trigger] self.free@[k]) < self.buffers@.len() && !self.in_use@[self.free@[k] as int]
        &&& forall|h: int| 0 <= h < self.in_use@.len() && !#[trigger] self.in_use@[h] ==> self.free@.contains(h as usize)
    }

    /// An empty pool of buffers of `chunk_size` bytes.
    pub fn new(chunk_size: usize) -> (r: PoolAllocator)
        ensures
            r.wf(),
            r.capacity() == 0,
            r.stride() == chunk_size,
    {
        PoolAllocator { buffers: Vec::new(), in_use: Vec::new(), free: Vec::new(), chunk_size }
    }

    /// Adds one chunk of zeroed buffers; the lowest new handle is handed out first.
    fn add_chunk(&mut self)
        requires
            old(self).wf(),
            old(self).free@.len() == 0,
            old(self).capacity() + CHUNK_NODES <= usize::MAX,
        ensures
            final(self).wf(),
            final(self).capacity() == old(self).capacity() + CHUNK_NODES,
            final(self).stride() == old(self).stride(),
            final(self).free@.len() > 0,
            final(self).free@.last() == old(self).capacity(),
            forall|h: int| 0 <= h < old(self).capacity() ==> final(self).in_use(h) == old(self).in_use(h) && final(self).contents(h) == old(self).contents(h),
            forall|h: int| old(self).capacity() <= h < final(self).capacity() ==> !final(self).in_use(h),
    {
        let base = self.buffers.len();
        let mut i: usize = 0;
        while i < CHUNK_NODES
            invariant
                base == old(self).buffers@.len(),
                base + CHUNK_NODES <= usize::MAX,
                i <= CHUNK_NODES,
                self.chunk_size == old(self).chunk_size,
                self.free@.len() == 0,
                self.buffers@.len() == base + i,
                self.in_use@.len() == base + i,
                forall|h: int| 0 <= h < self.buffers@.len() ==> (#[trigger] self.buffers@[h])@.len() == self.chunk_size,
                forall|h: int| 0 <= h < base ==> self.buffers@[h] == old(self).buffers@[h] && self.in_use@[h] == old(self).in_use@[h],
                old(self).wf(),
                forall|h: int| base <= h < base + i ==> !#[trigger] self.in_use@[h],
                forall|h: int| 0 <= h < base ==> #[trigger] self.in_use@[h],
            decreases CHUNK_NODES - i,
        {
            self.buffers.push(zeros(self.chunk_size));
            self.in_use.push(false);
            i = i + 1;
        }
        let mut j: usize = CHUNK_NODES;
        while j > 0
            invariant
                base == old(self).buffers@.len(),
                base + CHUNK_NODES <= usize::MAX,
                j <= CHUNK_NODES,
                self.buffers@.len() == base + CHUNK_NODES,
                self.in_use@.len() == base + CHUNK_NODES,
                self.free@.len() == CHUNK_NODES - j,
                forall|k: int| 0 <= k < self.free@.len() ==> #[trigger] self.free@[k] == base + CHUNK_NODES - 1 - k,
                self.chunk_size == old(self).chunk_size,
                forall|h: int| 0 <= h < self.buffers@.len() ==> (#[trigger] self.buffers@[h])@.len() == self.chunk_size,
                forall|h: int| 0 <= h < base ==> self.buffers@[h] == old(self).buffers@[h] && self.in_use@[h] == old(self).in_use@[h],
                forall|h: int| base <= h < base + CHUNK_NODES ==> !#[trigger] self.in_use@[h],
                forall|h: int| 0 <= h < base ==> #[trigger] self.in_use@[h],
            decreases j,
        {
            j = j - 1;
            self.free.push(base + j);
        }
        proof {
            assert forall|h: int| 0 <= h < self.in_use@.len() && !#[trigger] self.in_use@[h] implies self.free@.contains(h as usize) by {
                let k = base + CHUNK_NODES - 1 - h;
                assert(self.free@[k] == h);
            }
        }
    }

    /// Hands out a free buffer, growing the pool by a chunk when none is free.
    pub fn allocate(&mut self) -> (h: usize)
        requires
            old(self).wf(),
            old(self).capacity() + CHUNK_NODES <= usize::MAX,
        ensures
            final(self).wf(),
            h < final(self).capacity(),
            final(self).in_use(h as int),
            h < old(self).capacity() ==> !old(self).in_use(h as int),
            final(self).stride() == old(self).stride(),
            final(self).capacity() == old(self).capacity() || final(self).capacity() == old(self).capacity() + CHUNK_NODES,
            forall|g: int| 0 <= g < final(self).capacity() && g != h ==> final(self).in_use(g) == (g < old(self).capacity() && old(self).in_use(g)),
            forall|g: int| 0 <= g < old(self).capacity() ==> final(self).contents(g) == old(self).contents(g),
    {
        if self.free.len() == 0 {
            self.add_chunk();
        }
        let ghost mid = *self;
        let h = self.free.pop().unwrap();
        self.in_use.set(h, true);
        proof {
            assert forall|a: int| 0 <= a < self.in_use@.len() && !#[trigger] self.in_use@[a] implies self.free@.contains(a as usize) by {
                assert(mid.free@.contains(a as usize));
                let k = choose|k: int| 0 <= k < mid.free@.len() && mid.free@[k] == a as usize;
                assert(k != mid.free@.len() - 1);
                assert(self.free@[k] == a);
            }
            assert forall|g: int| 0 <= g < self.capacity() && g != h implies self.in_use(g) == (g < old(self).capacity() && old(self).in_use(g)) by {
                assert(self.in_use(g) == mid.in_use(g));
                if g < old(self).capacity() {
                    assert(mid.in_use(g) == old(self).in_use(g));
                }
            }
        }
        h
    }

    /// Returns buffer `h` to the free list. A handle that is unknown or
    /// already released is refused, and the pool is left as it was.
    pub fn deallocate(&mut self, h: usize) -> (released: bool)
        requires
            old(self).wf(),
        ensures
            final(self).wf(),
            released == (h < old(self).capacity() && old(self).in_use(h as int)),
            final(self).capacity() == old(self).capacity(),
            final(self).stride() == old(self).stride(),
            forall|g: int| 0 <= g < final(self).capacity() ==> final(self).in_use(g) == (old(self).in_use(g) && !(released && g == h)),
            forall|g: int| 0 <= g < final(self).capacity() ==> final(self).contents(g) == old(self).contents(g),
    {
        if h >= self.in_use.len() || !self.in_use[h] {
            return false;
        }
        self.in_use.set(h, false);
        self.free.push(h);
        proof {
            assert forall|a: int| 0 <= a < self.in_use@.len() && !#[trigger] self.in_use@[a] implies self.free@.contains(a as usize) by {
                if a == h {
                    assert(self.free@[self.free@.len() - 1] == h);
                } else {
                    let k = choose|k: int| 0 <= k < old(self).free@.len() && old(self).free@[k] == a as usize;
                    assert(self.free@[k] == a);
                }
            }
        }
        true
    }

    /// The bytes of buffer `h`.
    pub fn buffer(&self, h: usize) -> (r: &[u8])
        requires
            self.wf(),
            h < self.capacity(),
        ensures
            r@ == self.contents(h as int),
            r@.len() == self.stride(),
    {
        self.buffers[h].as_slice()
    }

    /// Copies `src` into buffer `h` from offset `at`.
    pub fn write(&mut self, h: usize, at: usize, src: &[u8])
        requires
            old(self).wf(),
            h < old(self).capacity(),
            at + src@.len() <= old(self).stride(),
        ensures
            final(self).wf(),
            final(self).capacity() == old(self).capacity(),
            final(self).stride() == old(self).stride(),
            forall|g: int| 0 <= g < final(self).capacity() ==> final(self).in_use(g) == old(self).in_use(g),
            forall|g: int| 0 <= g < final(self).capacity() && g != h ==> final(self).contents(g) == old(self).contents(g),
            final(self).contents(h as int) == old(self).contents(h as int).subrange(0, at as int) + src@
                + old(self).contents(h as int).subrange(at + src@.len(), old(self).stride() as int),
    {
        let mut buf: Vec<u8> = Vec::new();
        let old_buf = self.buffers[h].as_slice();
        append_range(&mut buf, old_buf, 0, old_buf.len());
        assert(buf@ =~= old(self).contents(h as int));
        write_at(&mut buf, at, src);
        self.buffers.set(h, buf);
        assert(self.buffers@[h as int]@ =~= old(self).contents(h as int).subrange(0, at as int) + src@
            + old(self).contents(h as int).subrange(at + src@.len(), old(self).stride() as int));
    }
}

} // verus!
