//! The raw block allocator: allocate, free, and read a block's generation.
//!
//! Backing blocks live in an arena and are never given back; a freed block
//! waits on the free list until a request of its size class takes it.

use crate::layout::{alignment, allocatable, lemma_allocatable, size_class, size_class_of};
use crate::model::{AllocatorState, BlockState, FreeEntry, Handle};
use core::marker::PhantomData;
use vstd::prelude::*;

verus! {

/// Header and layout of one backing block.
struct Block {
    size: usize,
    align: usize,
    generation: usize,
}

/// A freed block: its size class, its address, and the generation it was
/// freed into.
struct FreeAllocation {
    size: usize,
    ptr: usize,
    gen: usize,
}

/// What an allocation returns: the block's address and its live generation.
pub struct GenAllocResult<T> {
    pub ptr: usize,
    pub gen: usize,
    pub marker: PhantomData<T>,
}

/// The allocator context: the arena of backing blocks and the free list.
pub struct GenAllocator {
    blocks: Vec<Block>,
    free_list: Vec<FreeAllocation>,
}

impl View for Block {
    type V = BlockState;

    closed spec fn view(&self) -> BlockState {
        BlockState {
            size: self.size as nat,
            align: self.align as nat,
            generation: self.generation as nat,
        }
    }
}

impl View for FreeAllocation {
    type V = FreeEntry;

    closed spec fn view(&self) -> FreeEntry {
        FreeEntry { size: self.size as nat, ptr: self.ptr as nat, gen: self.gen as nat }
    }
}

impl<T> View for GenAllocResult<T> {
    type V = Handle;

    open spec fn view(&self) -> Handle {
        Handle { ptr: self.ptr as nat, gen: self.gen as nat }
    }
}

impl View for GenAllocator {
    type V = AllocatorState;

    closed spec fn view(&self) -> AllocatorState {
        AllocatorState {
            blocks: self.blocks@.map_values(|b: Block| b@),
            free_list: self.free_list@.map_values(|e: FreeAllocation| e@),
        }
    }
}

impl GenAllocator {
    /// An allocator that has acquired no block yet.
    pub fn new() -> (heap: Self)
        ensures
            heap@ == AllocatorState::empty(),
            heap@.wf(),
    {
        let heap = GenAllocator { blocks: Vec::new(), free_list: Vec::new() };
        assert(heap@.blocks =~= Seq::empty());
        assert(heap@.free_list =~= Seq::empty());
        heap
    }

    /// Number of backing blocks acquired so far.
    pub fn block_count(&self) -> (count: usize)
        ensures
            count == self@.blocks.len(),
    {
        self.blocks.len()
    }

    /// Number of blocks waiting on the free list.
    pub fn free_count(&self) -> (count: usize)
        ensures
            count == self@.free_list.len(),
    {
        self.free_list.len()
    }

    /// Tests whether `ptr` names a block of this allocator.
    pub fn is_allocated(&self, ptr: usize) -> (allocated: bool)
        ensures
            allocated == self@.is_allocated(ptr as nat),
    {
        ptr < self.blocks.len()
    }

    /// Tests whether `ptr` is on the free list.
    pub fn is_free(&self, ptr: usize) -> (free: bool)
        ensures
            free == self@.is_free(ptr as nat),
    {
        let mut i: usize = 0;
        while i < self.free_list.len()
            invariant
                i <= self.free_list.len(),
                forall|j: int| 0 <= j < i ==> !self@.free_at(ptr as nat, j),
            decreases self.free_list.len() - i,
        {
            if self.free_list[i].ptr == ptr {
                assert(self@.free_at(ptr as nat, i as int));
                return true;
            }
            i += 1;
        }
        false
    }

    /// The size class that block `ptr` was acquired for.
    pub fn block_size(&self, ptr: usize) -> (size: usize)
        requires
            self@.is_allocated(ptr as nat),
        ensures
            size == self@.size_of_block(ptr as nat),
    {
        self.blocks[ptr].size
    }

    /// The alignment that block `ptr` was acquired at.
    pub fn block_align(&self, ptr: usize) -> (align: usize)
        requires
            self@.is_allocated(ptr as nat),
        ensures
            align == self@.blocks[ptr as int].align,
    {
        self.blocks[ptr].align
    }

    /// Position of the oldest free-list entry of size class `size`.
    fn find_fit(&self, size: usize) -> (found: Option<usize>)
        ensures
            match found {
                Some(i) => self@.is_first_fit(size as nat, i as int),
                None => !self@.has_fit(size as nat),
            },
    {
        let mut i: usize = 0;
        while i < self.free_list.len()
            invariant
                i <= self.free_list.len(),
                forall|j: int| 0 <= j < i ==> !self@.fits_at(size as nat, j),
            decreases self.free_list.len() - i,
        {
            if self.free_list[i].size == size {
                return Some(i);
            }
            i += 1;
        }
        None
    }
}

/// Allocates a block for a `T`: the oldest free block of `T`'s size class
/// with the generation it was freed into, or else a fresh block at
/// generation 0. A reused block leaves the free list. The block's layout
/// must be valid, which it is for every payload of at most `max_payload()`
/// bytes.
pub fn gen_alloc<T>(heap: &mut GenAllocator) -> (res: GenAllocResult<T>)
    requires
        old(heap)@.wf(),
        allocatable::<T>(),
    ensures
        res@ == old(heap)@.alloc_result(size_class_of::<T>()),
        final(heap)@ == old(heap)@.after_alloc(size_class_of::<T>()),
        final(heap)@.wf(),
        final(heap)@.in_use(res@.ptr),
        final(heap)@.is_alive(res@),
        final(heap)@.size_of_block(res@.ptr) == size_class_of::<T>(),
{
    let size = size_class::<T>();
    proof {
        lemma_allocatable::<T>();
        old(heap)@.lemma_alloc(size as nat);
    }
    match heap.find_fit(size) {
        Some(i) => {
            proof {
                old(heap)@.lemma_first_fit_unique(size as nat, i as int);
            }
            let entry = heap.free_list.remove(i);
            assert(heap@.free_list =~= old(heap)@.free_list.remove(i as int));
            GenAllocResult { ptr: entry.ptr, gen: entry.gen, marker: PhantomData }
        },
        None => {
            let align = alignment(size);
            let ptr = heap.blocks.len();
            heap.blocks.push(Block { size, align, generation: 0 });
            assert(heap@.blocks =~= old(heap)@.blocks.push(
                BlockState { size: size as nat, align: align as nat, generation: 0 },
            ));
            GenAllocResult { ptr, gen: 0, marker: PhantomData }
        },
    }
}

/// Frees block `ptr`: its header generation goes up by one, and the block
/// joins the end of the free list under its size class and new generation.
/// There it is the next block to be reused for its size class, unless an
/// older free block of that class is waiting.
pub fn gen_free(ptr: usize, heap: &mut GenAllocator)
    requires
        old(heap)@.wf(),
        old(heap)@.in_use(ptr as nat),
        old(heap)@.generation(ptr as nat) < usize::MAX,
    ensures
        final(heap)@ == old(heap)@.after_free(ptr as nat),
        final(heap)@.wf(),
        final(heap)@.is_free(ptr as nat),
        final(heap)@.generation(ptr as nat) == old(heap)@.generation(ptr as nat) + 1,
        !old(heap)@.has_fit(old(heap)@.size_of_block(ptr as nat)) ==> final(heap)@.is_first_fit(
            old(heap)@.size_of_block(ptr as nat),
            old(heap)@.free_list.len() as int,
        ),
{
    proof {
        old(heap)@.lemma_free(ptr as nat);
    }
    let block = &heap.blocks[ptr];
    let size = block.size;
    let align = block.align;
    let gen = block.generation + 1;
    heap.blocks.set(ptr, Block { size, align, generation: gen });
    heap.free_list.push(FreeAllocation { size, ptr, gen });
    assert(heap@.blocks =~= old(heap)@.after_free(ptr as nat).blocks);
    assert(heap@.free_list =~= old(heap)@.after_free(ptr as nat).free_list);
}

/// Reads the live generation in the header of block `ptr`.
pub fn get_generation(ptr: usize, heap: &GenAllocator) -> (gen: usize)
    requires
        heap@.is_allocated(ptr as nat),
    ensures
        gen == heap@.generation(ptr as nat),
{
    heap.blocks[ptr].generation
}

} // verus!
