//! A typed heap: the raw allocator together with the payload of each block.

use crate::allocator::GenAllocator;
use crate::layout::{allocatable, lemma_allocatable, size_class_of};
use crate::model::{AllocatorState, Handle};
use vstd::prelude::*;

verus! {

/// A heap of `T` payloads: the allocator state and what each block holds.
/// A freed block keeps its last payload until the block is reused.
pub struct HeapState<T> {
    pub allocator: AllocatorState,
    pub payloads: Seq<T>,
}

impl<T> HeapState<T> {
    /// The heap before anything was stored in it.
    pub open spec fn empty() -> Self {
        HeapState { allocator: AllocatorState::empty(), payloads: Seq::empty() }
    }

    /// Well-formedness: the allocator is well-formed, every block has a
    /// payload slot, and every block has the size class of `T`.
    pub open spec fn wf(self) -> bool {
        &&& self.allocator.wf()
        &&& self.payloads.len() == self.allocator.blocks.len()
        &&& forall|p: int|
            0 <= p < self.allocator.blocks.len() ==> (#[trigger] self.allocator.blocks[p]).size
                == size_class_of::<T>()
    }

    /// The liveness check for a handle into this heap.
    pub open spec fn is_alive(self, h: Handle) -> bool {
        self.allocator.is_alive(h)
    }

    /// The handle is alive and its block is handed out: whoever holds it as
    /// the unique owner may release the block.
    pub open spec fn owns(self, h: Handle) -> bool {
        self.allocator.is_alive(h) && self.allocator.in_use(h.ptr)
    }

    /// The payload stored in the handle's block.
    pub open spec fn payload(self, h: Handle) -> T
        recommends
            self.allocator.is_allocated(h.ptr),
    {
        self.payloads[h.ptr as int]
    }

    /// The handle that the next stored value gets.
    pub open spec fn created(self) -> Handle {
        self.allocator.alloc_result(size_class_of::<T>())
    }

    /// The heap after `value` is stored in a newly allocated block.
    pub open spec fn after_create(self, value: T) -> Self {
        let h = self.created();
        HeapState {
            allocator: self.allocator.after_alloc(size_class_of::<T>()),
            payloads: if h.ptr < self.payloads.len() {
                self.payloads.update(h.ptr as int, value)
            } else {
                self.payloads.push(value)
            },
        }
    }

    /// The heap after the handle's block is freed.
    pub open spec fn after_release(self, h: Handle) -> Self {
        HeapState { allocator: self.allocator.after_free(h.ptr), payloads: self.payloads }
    }

    /// The heap after `value` is written through the handle.
    pub open spec fn after_write(self, h: Handle, value: T) -> Self {
        HeapState {
            allocator: self.allocator,
            payloads: self.payloads.update(h.ptr as int, value),
        }
    }

    /// Storing a value keeps the heap well-formed; the new handle owns its
    /// block and reads back the value.
    pub proof fn lemma_create(self, value: T)
        requires
            self.wf(),
            allocatable::<T>(),
        ensures
            self.after_create(value).wf(),
            self.after_create(value).owns(self.created()),
            self.after_create(value).payload(self.created()) == value,
    {
        let size = size_class_of::<T>();
        lemma_allocatable::<T>();
        self.allocator.lemma_alloc(size);
    }

    /// Releasing an owned block keeps the heap well-formed and leaves the
    /// handle stale.
    pub proof fn lemma_release(self, h: Handle)
        requires
            self.wf(),
            self.owns(h),
        ensures
            self.after_release(h).wf(),
            !self.after_release(h).is_alive(h),
            !self.allocator.has_fit(size_class_of::<T>()) ==> self.after_release(
                h,
            ).allocator.is_first_fit(size_class_of::<T>(), self.allocator.free_list.len() as int),
    {
        self.allocator.lemma_free(h.ptr);
    }
}

/// The allocation context for payloads of type `T`. Owners and references
/// are created in a heap and are checked against it on every access.
pub struct GenHeap<T> {
    pub(crate) allocator: GenAllocator,
    pub(crate) payloads: Vec<T>,
}

impl<T> View for GenHeap<T> {
    type V = HeapState<T>;

    open(crate) spec fn view(&self) -> HeapState<T> {
        HeapState { allocator: self.allocator@, payloads: self.payloads@ }
    }
}

impl<T> GenHeap<T> {
    /// A heap that holds nothing yet.
    pub fn new() -> (heap: Self)
        ensures
            heap@ == HeapState::<T>::empty(),
            heap@.wf(),
    {
        GenHeap { allocator: GenAllocator::new(), payloads: Vec::new() }
    }

    /// The raw allocator underneath, for inspection.
    pub fn allocator(&self) -> (allocator: &GenAllocator)
        ensures
            allocator@ == self@.allocator,
    {
        &self.allocator
    }
}

} // verus!
