//! Sequences of operations, and what holds of a block across all of them.

use crate::heap::HeapState;
use crate::layout::{allocatable, lemma_allocatable, size_class_of, valid_block_layout};
use crate::model::{AllocatorState, Handle};
use vstd::prelude::*;

verus! {

/// One call into the raw allocator.
pub enum AllocatorOp {
    /// An allocation of the given size class.
    Allocate { size: nat },
    /// The release of the block at the given address.
    Free { ptr: nat },
}

impl AllocatorState {
    /// The operation may be applied: an allocation needs a valid layout, a
    /// free needs a block that is in use.
    pub open spec fn enabled(self, op: AllocatorOp) -> bool {
        match op {
            AllocatorOp::Allocate { size } => valid_block_layout(size),
            AllocatorOp::Free { ptr } => self.in_use(ptr),
        }
    }

    /// The state after the operation.
    pub open spec fn step(self, op: AllocatorOp) -> AllocatorState {
        match op {
            AllocatorOp::Allocate { size } => self.after_alloc(size),
            AllocatorOp::Free { ptr } => self.after_free(ptr),
        }
    }

    /// Every operation of `ops` may be applied in its turn.
    pub open spec fn admits(self, ops: Seq<AllocatorOp>) -> bool
        decreases ops.len(),
    {
        ops.len() == 0 || (self.enabled(ops[0]) && self.step(ops[0]).admits(ops.drop_first()))
    }

    /// The state after all of `ops`, applied in order.
    pub open spec fn run(self, ops: Seq<AllocatorOp>) -> AllocatorState
        decreases ops.len(),
    {
        if ops.len() == 0 {
            self
        } else {
            self.step(ops[0]).run(ops.drop_first())
        }
    }

    /// One operation keeps the state well-formed and every block allocated;
    /// it raises a block's generation by one if it frees that block, and
    /// leaves the generation alone otherwise.
    pub proof fn lemma_step(self, op: AllocatorOp, ptr: nat)
        requires
            self.wf(),
            self.enabled(op),
            self.is_allocated(ptr),
        ensures
            self.step(op).wf(),
            self.step(op).is_allocated(ptr),
            self.step(op).size_of_block(ptr) == self.size_of_block(ptr),
            op == (AllocatorOp::Free { ptr }) ==> self.step(op).generation(ptr) == self.generation(
                ptr,
            ) + 1,
            op != (AllocatorOp::Free { ptr }) ==> self.step(op).generation(ptr) == self.generation(
                ptr,
            ),
    {
        match op {
            AllocatorOp::Allocate { size } => {
                self.lemma_alloc(size);
            },
            AllocatorOp::Free { ptr: freed } => {
                self.lemma_free(freed);
            },
        }
    }

    /// Over any sequence of operations the state stays well-formed, a block
    /// stays allocated, and its generation never goes down.
    pub proof fn lemma_run(self, ops: Seq<AllocatorOp>, ptr: nat)
        requires
            self.wf(),
            self.admits(ops),
            self.is_allocated(ptr),
        ensures
            self.run(ops).wf(),
            self.run(ops).is_allocated(ptr),
            self.run(ops).generation(ptr) >= self.generation(ptr),
        decreases ops.len(),
    {
        if ops.len() > 0 {
            self.lemma_step(ops[0], ptr);
            self.step(ops[0]).lemma_run(ops.drop_first(), ptr);
        }
    }
}

/// One operation on a heap of `T` payloads.
pub enum HeapOp<T> {
    /// A new owner is created for the value.
    Create { value: T },
    /// The owner with this handle is released.
    Release { owner: Handle },
    /// The value is written through this handle.
    Write { through: Handle, value: T },
}

/// The payload of `h`'s block after `op`, when it was `current` before: what
/// `op` wrote, if `op` is a write through `h`.
pub open spec fn written_by<T>(op: HeapOp<T>, h: Handle, current: T) -> T {
    match op {
        HeapOp::Write { through, value } => if through == h {
            value
        } else {
            current
        },
        _ => current,
    }
}

/// The payload of `h`'s block after `ops`, when it was `current` before: the
/// value of the last write through `h`, if there was one.
pub open spec fn last_written<T>(ops: Seq<HeapOp<T>>, h: Handle, current: T) -> T
    decreases ops.len(),
{
    if ops.len() == 0 {
        current
    } else {
        last_written(ops.drop_first(), h, written_by(ops[0], h, current))
    }
}

impl<T> HeapState<T> {
    /// The operation may be applied: creation needs a valid layout for `T`,
    /// release needs the owner of a block, a write needs a handle that
    /// passes the liveness check.
    pub open spec fn enabled(self, op: HeapOp<T>) -> bool {
        match op {
            HeapOp::Create { value } => allocatable::<T>(),
            HeapOp::Release { owner } => self.owns(owner),
            HeapOp::Write { through, value } => self.is_alive(through),
        }
    }

    /// The heap after the operation.
    pub open spec fn step(self, op: HeapOp<T>) -> HeapState<T> {
        match op {
            HeapOp::Create { value } => self.after_create(value),
            HeapOp::Release { owner } => self.after_release(owner),
            HeapOp::Write { through, value } => self.after_write(through, value),
        }
    }

    /// Every operation of `ops` may be applied in its turn.
    pub open spec fn admits(self, ops: Seq<HeapOp<T>>) -> bool
        decreases ops.len(),
    {
        ops.len() == 0 || (self.enabled(ops[0]) && self.step(ops[0]).admits(ops.drop_first()))
    }

    /// The heap after all of `ops`, applied in order.
    pub open spec fn run(self, ops: Seq<HeapOp<T>>) -> HeapState<T>
        decreases ops.len(),
    {
        if ops.len() == 0 {
            self
        } else {
            self.step(ops[0]).run(ops.drop_first())
        }
    }

    /// One operation keeps the heap well-formed and every block allocated,
    /// and never lowers a generation.
    pub proof fn lemma_step(self, op: HeapOp<T>, ptr: nat)
        requires
            self.wf(),
            self.enabled(op),
            self.allocator.is_allocated(ptr),
        ensures
            self.step(op).wf(),
            self.step(op).allocator.is_allocated(ptr),
            self.step(op).allocator.generation(ptr) >= self.allocator.generation(ptr),
    {
        match op {
            HeapOp::Create { value } => {
                lemma_allocatable::<T>();
                self.lemma_create(value);
                self.allocator.lemma_step(
                    AllocatorOp::Allocate { size: size_class_of::<T>() },
                    ptr,
                );
            },
            HeapOp::Release { owner } => {
                self.allocator.lemma_step(AllocatorOp::Free { ptr: owner.ptr }, ptr);
            },
            HeapOp::Write { through, value } => {},
        }
    }

    /// One operation other than the owner's release leaves the owner in
    /// possession of its block, and changes the block's payload only if it
    /// is a write through the owner's handle.
    pub proof fn lemma_step_keeps_owner(self, op: HeapOp<T>, owner: Handle)
        requires
            self.wf(),
            self.owns(owner),
            self.enabled(op),
            op != (HeapOp::<T>::Release { owner }),
        ensures
            self.step(op).wf(),
            self.step(op).owns(owner),
            self.step(op).payload(owner) == written_by(op, owner, self.payload(owner)),
    {
        let next = self.step(op);
        match op {
            HeapOp::Create { value } => {
                let size = size_class_of::<T>();
                lemma_allocatable::<T>();
                self.allocator.lemma_alloc(size);
                if self.allocator.has_fit(size) {
                    self.allocator.lemma_first_fit(size);
                    let k = self.allocator.first_fit(size);
                    assert(self.allocator.free_at(self.allocator.free_list[k].ptr, k));
                    if next.allocator.is_free(owner.ptr) {
                        let j = choose|j: int| next.allocator.free_at(owner.ptr, j);
                        let sj = if j < k {
                            j
                        } else {
                            j + 1
                        };
                        assert(self.allocator.free_at(owner.ptr, sj));
                    }
                } else if next.allocator.is_free(owner.ptr) {
                    let j = choose|j: int| next.allocator.free_at(owner.ptr, j);
                    assert(self.allocator.free_at(owner.ptr, j));
                }
            },
            HeapOp::Release { owner: released } => {
                self.allocator.lemma_free(released.ptr);
                if next.allocator.is_free(owner.ptr) {
                    let j = choose|j: int| next.allocator.free_at(owner.ptr, j);
                    if j < self.allocator.free_list.len() {
                        assert(self.allocator.free_at(owner.ptr, j));
                    }
                }
            },
            HeapOp::Write { through, value } => {},
        }
    }

    /// Over any sequence of operations the heap stays well-formed, a block
    /// stays allocated, and its generation never goes down.
    pub proof fn lemma_run(self, ops: Seq<HeapOp<T>>, ptr: nat)
        requires
            self.wf(),
            self.admits(ops),
            self.allocator.is_allocated(ptr),
        ensures
            self.run(ops).wf(),
            self.run(ops).allocator.is_allocated(ptr),
            self.run(ops).allocator.generation(ptr) >= self.allocator.generation(ptr),
        decreases ops.len(),
    {
        if ops.len() > 0 {
            self.lemma_step(ops[0], ptr);
            self.step(ops[0]).lemma_run(ops.drop_first(), ptr);
        }
    }
}

} // verus!
