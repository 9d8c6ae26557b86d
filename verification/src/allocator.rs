//! A monotonic bump allocator over a fixed memory region, with
//! checkpoint-and-rollback reclamation.
//!
//! The allocator owns the address range `[start, start + len)`. It hands
//! out addresses by moving a single cursor downward from the high end of
//! the region; there is no per-object free. The low `RESERVED_MEM` bytes
//! of the region are set aside for the cursor cell itself and are never
//! handed out. A stored cursor of zero means "never allocated" — the
//! region's base address is required to be nonzero, so zero is
//! unambiguously the bootstrap sentinel, and the first allocation starts
//! from `start + len`.

use vstd::prelude::*;
use vstd::arithmetic::div_mod::{lemma_fundamental_div_mod, lemma_mod_division_less_than_divisor, lemma_mod_bound};

use crate::MyErrorCode;

verus! {

/// Bytes at the base of the region reserved for the cursor cell.
pub const RESERVED_MEM: usize = 8;

/// A bump allocator over the fixed region `[start, start + len)`.
pub struct BumpAllocator {
    /// Base address of the region (nonzero).
    pub start: usize,
    /// Length of the region in bytes.
    pub len: usize,
    /// Stored cursor: zero if no allocation happened yet, otherwise the
    /// address of the lowest byte handed out so far.
    pub pos: usize,
}

impl BumpAllocator {
    /// The allocator's invariant: a nonzero region base (so the zero
    /// sentinel is unambiguous), room for the reserved cursor cell, no
    /// address-space wraparound, and a cursor inside the usable range.
    pub open spec fn wf(self) -> bool {
        &&& self.start > 0
        &&& self.len >= RESERVED_MEM
        &&& self.start + self.len <= usize::MAX
        &&& (self.pos == 0 || self.start + RESERVED_MEM <= self.pos <= self.start
            + self.len)
    }

    /// The effective cursor: a stored zero means the region is untouched
    /// and allocation starts from the high end.
    pub open spec fn cur(self) -> int {
        if self.pos == 0 {
            self.start + self.len
        } else {
            self.pos as int
        }
    }

    /// What `alloc` returns and where it moves the cursor: the cursor
    /// steps down by `size` bytes and is then rounded down to `align`;
    /// the request fails if the aligned address would fall below the
    /// usable range (insufficient space remains).
    pub open spec fn spec_alloc(self, size: usize, align: usize) -> Option<usize>
        recommends
            self.wf(),
            align >= 1,
    {
        let raw = self.cur() - size;
        let aligned = raw - (raw % (align as int));
        if self.start + RESERVED_MEM <= aligned {
            Some(aligned as usize)
        } else {
            None
        }
    }

    /// Creates an allocator for the region `[start, start + len)`, not
    /// yet touched (cursor at the zero sentinel).
    pub fn new(start: usize, len: usize) -> (r: Self)
        requires
            start > 0,
            len >= RESERVED_MEM,
            start + len <= usize::MAX,
        ensures
            r.wf(),
            r.start == start,
            r.len == len,
            r.pos == 0,
    {
        BumpAllocator { start, len, pos: 0 }
    }

    /// Returns the stored cursor (zero if nothing was allocated yet).
    pub fn pos(&self) -> (r: usize)
        ensures
            r == self.pos,
    {
        self.pos
    }

    /// Sets the stored cursor. Rolling back to a previously observed
    /// cursor is only sound if nothing allocated since is still used —
    /// that is the caller's obligation, stated nowhere but here.
    pub fn move_cursor(&mut self, pos: usize)
        requires
            old(self).wf(),
            pos == 0 || old(self).start + RESERVED_MEM <= pos <= old(self).start + old(
                self,
            ).len,
        ensures
            final(self).wf(),
            final(self).start == old(self).start,
            final(self).len == old(self).len,
            final(self).pos == pos,
    {
        self.pos = pos;
    }

    /// Checkpoint: captures the current cursor so that everything
    /// allocated later can be reclaimed at once by `free_heap`.
    pub fn get_heap_pos(&self) -> (r: usize)
        ensures
            r == self.pos,
    {
        self.pos
    }

    /// Rollback: restores the cursor captured by `get_heap_pos`,
    /// reclaiming every allocation made since. The caller must no longer
    /// use anything allocated after the checkpoint.
    pub fn free_heap(&mut self, pos: usize)
        requires
            old(self).wf(),
            pos == 0 || old(self).start + RESERVED_MEM <= pos <= old(self).start + old(
                self,
            ).len,
        ensures
            final(self).wf(),
            final(self).start == old(self).start,
            final(self).len == old(self).len,
            final(self).pos == pos,
    {
        self.move_cursor(pos);
    }

    /// Allocates `size` bytes aligned to `align`, carving them from the
    /// unused portion of the region by moving the cursor downward. Fails
    /// with `OutOfMemory` — leaving the cursor untouched — if
    /// insufficient space remains; never returns an address outside
    /// `[start + RESERVED_MEM, start + len)`.
    pub fn allocate(&mut self, size: usize, align: usize) -> (r: Result<usize, MyErrorCode>)
        requires
            old(self).wf(),
            align >= 1,
        ensures
            final(self).wf(),
            final(self).start == old(self).start,
            final(self).len == old(self).len,
            match r {
                Ok(p) => {
                    &&& old(self).spec_alloc(size, align) == Some(p)
                    &&& final(self).pos == p
                    &&& final(self).cur() == p
                    &&& p % align == 0
                    &&& old(self).start + RESERVED_MEM <= p
                    &&& p + size <= old(self).cur()
                },
                Err(e) => {
                    &&& e == MyErrorCode::OutOfMemory
                    &&& old(self).spec_alloc(size, align) == None::<usize>
                    &&& final(self).pos == old(self).pos
                },
            },
    {
        let cur: usize = if self.pos == 0 {
            self.start + self.len
        } else {
            self.pos
        };
        if size > cur {
            proof {
                let raw = self.cur() - size;
                lemma_fundamental_div_mod(raw, align as int);
                lemma_mod_division_less_than_divisor(raw, align as int);
                assert(raw - (raw % (align as int)) <= raw < 0);
            }
            return Err(MyErrorCode::OutOfMemory);
        }
        let raw: usize = cur - size;
        let rem: usize = raw % align;
        proof {
            lemma_mod_bound(raw as int, align as int);
            if raw < align {
                vstd::arithmetic::div_mod::lemma_small_mod(raw as nat, align as nat);
            }
            assert(rem <= raw);
        }
        let aligned: usize = raw - rem;
        proof {
            lemma_fundamental_div_mod(raw as int, align as int);
            lemma_mod_division_less_than_divisor(raw as int, align as int);
            assert(aligned == (align as int) * ((raw as int) / (align as int)));
            assert(aligned % align == 0) by {
                vstd::arithmetic::div_mod::lemma_mod_multiples_basic(
                    (raw as int) / (align as int),
                    align as int,
                );
            }
        }
        if aligned < self.start + RESERVED_MEM {
            return Err(MyErrorCode::OutOfMemory);
        }
        self.pos = aligned;
        Ok(aligned)
    }

    /// How many bytes of the region are in use: the distance from the
    /// effective cursor to the region's high end. This is the figure
    /// the embedding program reports when it instruments heap usage.
    pub fn total_heap_used(&self) -> (r: usize)
        requires
            self.wf(),
        ensures
            r == self.start + self.len - self.cur(),
    {
        let end = self.start + self.len;
        if self.pos == 0 {
            0
        } else {
            end - self.pos
        }
    }

    /// Freeing a single allocation is a no-op: the allocator reclaims
    /// memory only wholesale, through `free_heap`.
    pub fn dealloc(&mut self, ptr: usize, size: usize, align: usize)
        ensures
            *final(self) == *old(self),
    {
        let _ = ptr;
        let _ = size;
        let _ = align;
    }

    /// The results of a whole sequence of allocation requests (pairs of
    /// size and alignment), applied in order from this state.
    pub open spec fn results_of(self, reqs: Seq<(usize, usize)>) -> Seq<Option<usize>>
        decreases reqs.len(),
    {
        if reqs.len() == 0 {
            Seq::empty()
        } else {
            let r = self.spec_alloc(reqs[0].0, reqs[0].1);
            let next = match r {
                Some(p) => BumpAllocator { pos: p, ..self },
                None => self,
            };
            seq![r] + next.results_of(reqs.skip(1))
        }
    }

    /// Checkpoint/rollback round-trip law: two allocator states over the
    /// same region with the same effective cursor answer any sequence of
    /// allocation requests (with nonzero alignments) identically. In
    /// particular, after rolling back to a checkpoint, the allocations of
    /// the next batch succeed exactly as they did in the batch before —
    /// memory is fully reclaimed.
    pub proof fn lemma_checkpoint_rollback_roundtrip(a: Self, b: Self, reqs: Seq<(usize, usize)>)
        requires
            a.wf(),
            b.wf(),
            b.start == a.start,
            b.len == a.len,
            b.cur() == a.cur(),
            forall|i: int| 0 <= i < reqs.len() ==> (#[trigger] reqs[i]).1 >= 1,
        ensures
            a.results_of(reqs) == b.results_of(reqs),
        decreases reqs.len(),
    {
        if reqs.len() > 0 {
            let size = reqs[0].0;
            let align = reqs[0].1;
            let r = a.spec_alloc(size, align);
            assert(b.spec_alloc(size, align) == r);
            match r {
                Some(p) => {
                    let raw = a.cur() - size;
                    lemma_mod_bound(raw, align as int);
                    assert(a.start + RESERVED_MEM <= p <= a.start + a.len);
                    let a2 = BumpAllocator { pos: p, ..a };
                    let b2 = BumpAllocator { pos: p, ..b };
                    Self::lemma_checkpoint_rollback_roundtrip(a2, b2, reqs.skip(1));
                },
                None => {
                    Self::lemma_checkpoint_rollback_roundtrip(a, b, reqs.skip(1));
                },
            }
            assert(a.results_of(reqs) == b.results_of(reqs));
        }
    }
}

} // verus!
