//! The allocator as a mathematical state.
//!
//! Blocks are named by their position in the sequence of backing blocks. A
//! block is either in use or on the free list; the free list remembers, for
//! each freed block, its size class and the generation it was freed into.

use crate::layout::{alignment_of, valid_block_layout};
use vstd::prelude::*;

verus! {

/// One backing block: its layout and the live generation in its header.
pub struct BlockState {
    pub size: nat,
    pub align: nat,
    pub generation: nat,
}

/// A freed block awaiting reuse.
pub struct FreeEntry {
    pub size: nat,
    pub ptr: nat,
    pub gen: nat,
}

/// A block's address together with a remembered generation.
pub struct Handle {
    pub ptr: nat,
    pub gen: nat,
}

/// Every backing block ever acquired, and the free list in insertion order.
pub struct AllocatorState {
    pub blocks: Seq<BlockState>,
    pub free_list: Seq<FreeEntry>,
}

impl AllocatorState {
    /// The state before anything was allocated.
    pub open spec fn empty() -> Self {
        AllocatorState { blocks: Seq::empty(), free_list: Seq::empty() }
    }

    /// `ptr` names a block that was acquired from the backing store.
    pub open spec fn is_allocated(self, ptr: nat) -> bool {
        ptr < self.blocks.len()
    }

    /// The free-list entry at position `i` is for `ptr`.
    pub open spec fn free_at(self, ptr: nat, i: int) -> bool {
        0 <= i < self.free_list.len() && self.free_list[i].ptr == ptr
    }

    /// `ptr` is on the free list.
    pub open spec fn is_free(self, ptr: nat) -> bool {
        exists|i: int| self.free_at(ptr, i)
    }

    /// `ptr` names a block that is currently handed out.
    pub open spec fn in_use(self, ptr: nat) -> bool {
        self.is_allocated(ptr) && !self.is_free(ptr)
    }

    /// The live generation in the header of block `ptr`.
    pub open spec fn generation(self, ptr: nat) -> nat
        recommends
            self.is_allocated(ptr),
    {
        self.blocks[ptr as int].generation
    }

    /// The size class that block `ptr` was acquired for.
    pub open spec fn size_of_block(self, ptr: nat) -> nat
        recommends
            self.is_allocated(ptr),
    {
        self.blocks[ptr as int].size
    }

    /// The liveness check: the handle's block exists and its header still
    /// holds the generation that the handle remembers.
    pub open spec fn is_alive(self, h: Handle) -> bool {
        self.is_allocated(h.ptr) && self.generation(h.ptr) == h.gen
    }

    /// The block was acquired with a valid layout at the alignment derived
    /// from its size.
    pub open spec fn block_ok(self, ptr: int) -> bool {
        &&& self.blocks[ptr].align == alignment_of(self.blocks[ptr].size)
        &&& valid_block_layout(self.blocks[ptr].size)
    }

    /// The entry names an existing block and records that block's size class
    /// and live generation.
    pub open spec fn entry_ok(self, i: int) -> bool {
        let e = self.free_list[i];
        &&& e.ptr < self.blocks.len()
        &&& e.size == self.blocks[e.ptr as int].size
        &&& e.gen == self.blocks[e.ptr as int].generation
    }

    /// Well-formedness: every block has a valid layout, every free-list
    /// entry agrees with the block it names, and no block is listed twice.
    pub open spec fn wf(self) -> bool {
        &&& forall|p: int| 0 <= p < self.blocks.len() ==> self.block_ok(p)
        &&& forall|i: int| 0 <= i < self.free_list.len() ==> self.entry_ok(i)
        &&& forall|i: int, j: int|
            0 <= i < self.free_list.len() && self.free_at(self.free_list[i].ptr, j) ==> i == j
    }

    /// The free-list entry at position `i` has size class `size`.
    pub open spec fn fits_at(self, size: nat, i: int) -> bool {
        0 <= i < self.free_list.len() && self.free_list[i].size == size
    }

    /// Some free block has size class `size`.
    pub open spec fn has_fit(self, size: nat) -> bool {
        exists|i: int| self.fits_at(size, i)
    }

    /// Position `i` holds the oldest free-list entry of size class `size`.
    pub open spec fn is_first_fit(self, size: nat, i: int) -> bool {
        self.fits_at(size, i) && forall|j: int| 0 <= j < i ==> !self.fits_at(size, j)
    }

    /// The position of the oldest free-list entry of size class `size`.
    pub open spec fn first_fit(self, size: nat) -> int
        recommends
            self.has_fit(size),
    {
        choose|i: int| self.is_first_fit(size, i)
    }

    /// The handle that an allocation of size class `size` returns: the
    /// oldest matching free block with its recorded generation, or else a
    /// fresh block at generation 0.
    pub open spec fn alloc_result(self, size: nat) -> Handle {
        if self.has_fit(size) {
            let e = self.free_list[self.first_fit(size)];
            Handle { ptr: e.ptr, gen: e.gen }
        } else {
            Handle { ptr: self.blocks.len(), gen: 0 }
        }
    }

    /// The state after an allocation of size class `size`: the reused entry
    /// leaves the free list, or a fresh block joins the backing blocks.
    pub open spec fn after_alloc(self, size: nat) -> AllocatorState {
        if self.has_fit(size) {
            AllocatorState {
                blocks: self.blocks,
                free_list: self.free_list.remove(self.first_fit(size)),
            }
        } else {
            AllocatorState {
                blocks: self.blocks.push(
                    BlockState { size, align: alignment_of(size), generation: 0 },
                ),
                free_list: self.free_list,
            }
        }
    }

    /// The state after block `ptr` is freed: its header generation goes up
    /// by one and an entry with the new generation joins the end of the
    /// free list.
    pub open spec fn after_free(self, ptr: nat) -> AllocatorState
        recommends
            self.is_allocated(ptr),
    {
        let b = self.blocks[ptr as int];
        AllocatorState {
            blocks: self.blocks.update(
                ptr as int,
                BlockState { size: b.size, align: b.align, generation: b.generation + 1 },
            ),
            free_list: self.free_list.push(
                FreeEntry { size: b.size, ptr, gen: b.generation + 1 },
            ),
        }
    }

    /// Below position `k` there is a first fit whenever position `k` fits.
    proof fn lemma_least_fit(self, size: nat, k: int)
        requires
            self.fits_at(size, k),
        ensures
            exists|i: int| self.is_first_fit(size, i),
        decreases k,
    {
        if exists|j: int| 0 <= j < k && self.fits_at(size, j) {
            let j = choose|j: int| 0 <= j < k && self.fits_at(size, j);
            self.lemma_least_fit(size, j);
        } else {
            assert(self.is_first_fit(size, k));
        }
    }

    /// Where a free block of the size class exists, `first_fit` is the
    /// position of the oldest one.
    pub proof fn lemma_first_fit(self, size: nat)
        requires
            self.has_fit(size),
        ensures
            self.is_first_fit(size, self.first_fit(size)),
    {
        let k = choose|i: int| self.fits_at(size, i);
        self.lemma_least_fit(size, k);
    }

    /// Only one position can hold the oldest entry of a size class.
    pub proof fn lemma_first_fit_unique(self, size: nat, i: int)
        requires
            self.is_first_fit(size, i),
        ensures
            self.has_fit(size),
            self.first_fit(size) == i,
    {
    }

    /// Allocation keeps the state well-formed and hands out a block that is
    /// in use, of the requested size class, at its live generation.
    pub proof fn lemma_alloc(self, size: nat)
        requires
            self.wf(),
            valid_block_layout(size),
        ensures
            self.after_alloc(size).wf(),
            self.after_alloc(size).in_use(self.alloc_result(size).ptr),
            self.after_alloc(size).is_alive(self.alloc_result(size)),
            self.after_alloc(size).size_of_block(self.alloc_result(size).ptr) == size,
    {
        let next = self.after_alloc(size);
        let h = self.alloc_result(size);
        if self.has_fit(size) {
            self.lemma_first_fit(size);
            let k = self.first_fit(size);
            assert forall|i: int| 0 <= i < next.free_list.len() implies next.entry_ok(i) by {
                if i < k {
                    assert(self.entry_ok(i));
                } else {
                    assert(self.entry_ok(i + 1));
                }
            }
            assert forall|i: int, j: int|
                next.free_at(next.free_list[i].ptr, j) && 0 <= i < next.free_list.len()
                implies i == j by {
                let si = if i < k { i } else { i + 1 };
                let sj = if j < k { j } else { j + 1 };
                assert(self.free_at(self.free_list[si].ptr, sj));
            }
            assert forall|p: int| 0 <= p < next.blocks.len() implies next.block_ok(p) by {
                assert(self.block_ok(p));
            }
            assert(self.entry_ok(k));
            if next.is_free(h.ptr) {
                let j = choose|j: int| next.free_at(h.ptr, j);
                let sj = if j < k { j } else { j + 1 };
                assert(self.free_at(self.free_list[k].ptr, sj));
            }
        } else {
            assert forall|i: int| 0 <= i < next.free_list.len() implies next.entry_ok(i) by {
                assert(self.entry_ok(i));
            }
            assert forall|p: int| 0 <= p < next.blocks.len() implies next.block_ok(p) by {
                if p < self.blocks.len() {
                    assert(self.block_ok(p));
                }
            }
            assert forall|i: int, j: int|
                next.free_at(next.free_list[i].ptr, j) && 0 <= i < next.free_list.len()
                implies i == j by {
                assert(self.free_at(self.free_list[i].ptr, j));
            }
            if next.is_free(h.ptr) {
                let j = choose|j: int| next.free_at(h.ptr, j);
                assert(self.entry_ok(j));
            }
        }
    }

    /// Freeing a block that is in use keeps the state well-formed, puts the
    /// block on the free list and raises its generation by exactly one. The
    /// block is the next to be reused for its size class unless an older
    /// free block of that class is waiting.
    pub proof fn lemma_free(self, ptr: nat)
        requires
            self.wf(),
            self.in_use(ptr),
        ensures
            self.after_free(ptr).wf(),
            self.after_free(ptr).is_free(ptr),
            self.after_free(ptr).generation(ptr) == self.generation(ptr) + 1,
            !self.has_fit(self.size_of_block(ptr)) ==> self.after_free(ptr).is_first_fit(
                self.size_of_block(ptr),
                self.free_list.len() as int,
            ),
    {
        let next = self.after_free(ptr);
        let last = self.free_list.len() as int;
        assert(next.free_at(ptr, last));
        if !self.has_fit(self.size_of_block(ptr)) {
            assert forall|j: int| 0 <= j < last implies !next.fits_at(self.size_of_block(ptr), j) by {
                assert(!self.fits_at(self.size_of_block(ptr), j));
            }
        }
        assert forall|p: int| 0 <= p < next.blocks.len() implies next.block_ok(p) by {
            assert(self.block_ok(p));
        }
        assert forall|i: int| 0 <= i < next.free_list.len() implies next.entry_ok(i) by {
            if i < last {
                assert(self.entry_ok(i));
                assert(self.free_at(self.free_list[i].ptr, i));
            }
        }
        assert forall|i: int, j: int|
            next.free_at(next.free_list[i].ptr, j) && 0 <= i < next.free_list.len()
            implies i == j by {
            if i < last && j < last {
                assert(self.free_at(self.free_list[i].ptr, j));
            } else if i < last {
                assert(self.free_at(ptr, i));
            } else if j < last {
                assert(self.free_at(ptr, j));
            }
        }
    }
}

} // verus!
