//! What the allocator guarantees, stated over the model and proved from it.

use crate::heap::HeapState;
use crate::history::{last_written, AllocatorOp, HeapOp};
use crate::layout::{allocatable, lemma_allocatable, size_class_of, valid_block_layout};
use crate::model::{AllocatorState, FreeEntry, Handle};
use vstd::prelude::*;

verus! {

/// Freeing a block raises the generation in its header by exactly one and
/// leaves every other header as it was.
pub proof fn theorem_free_increments_generation(s: AllocatorState, ptr: nat, other: nat)
    requires
        s.wf(),
        s.in_use(ptr),
        s.is_allocated(other),
    ensures
        s.after_free(ptr).generation(ptr) == s.generation(ptr) + 1,
        other != ptr ==> s.after_free(ptr).generation(other) == s.generation(other),
{
}

/// Allocation changes no header that exists: only a free moves a generation.
pub proof fn theorem_alloc_keeps_generations(s: AllocatorState, size: nat, ptr: nat)
    requires
        s.is_allocated(ptr),
    ensures
        s.after_alloc(size).is_allocated(ptr),
        s.after_alloc(size).generation(ptr) == s.generation(ptr),
{
}

/// Whatever is done to the allocator, no block's generation ever goes down.
pub proof fn theorem_generations_never_decrease(
    s: AllocatorState,
    ops: Seq<AllocatorOp>,
    ptr: nat,
)
    requires
        s.wf(),
        s.admits(ops),
        s.is_allocated(ptr),
    ensures
        s.run(ops).is_allocated(ptr),
        s.run(ops).generation(ptr) >= s.generation(ptr),
{
    s.lemma_run(ops, ptr);
}

/// A generation that a free has left behind is never the block's generation
/// again, whatever is done to the allocator afterwards.
pub proof fn theorem_generations_never_reused(s: AllocatorState, ptr: nat, ops: Seq<AllocatorOp>)
    requires
        s.wf(),
        s.in_use(ptr),
        s.after_free(ptr).admits(ops),
    ensures
        s.after_free(ptr).run(ops).generation(ptr) > s.generation(ptr),
{
    s.lemma_free(ptr);
    s.after_free(ptr).lemma_run(ops, ptr);
}

/// An allocation takes fresh backing memory exactly when no free block of
/// the size class exists, and a fresh block starts at generation 0, both in
/// the returned handle and in its header.
pub proof fn theorem_fresh_block_starts_at_zero(s: AllocatorState, size: nat)
    requires
        s.wf(),
    ensures
        !s.is_allocated(s.alloc_result(size).ptr) <==> !s.has_fit(size),
        !s.has_fit(size) ==> s.alloc_result(size).gen == 0,
        !s.has_fit(size) ==> s.after_alloc(size).generation(s.alloc_result(size).ptr) == 0,
{
    if s.has_fit(size) {
        s.lemma_first_fit(size);
        assert(s.entry_ok(s.first_fit(size)));
    }
}

/// Allocating, freeing and allocating again in one size class returns the
/// block that was just freed, at the generation it was freed into, provided
/// that no other free block of that size class was waiting.
pub proof fn theorem_freed_block_is_reused(s: AllocatorState, size: nat)
    requires
        s.wf(),
        valid_block_layout(size),
        !s.after_alloc(size).has_fit(size),
    ensures
        ({
            let first = s.alloc_result(size);
            let freed = s.after_alloc(size).after_free(first.ptr);
            let second = freed.alloc_result(size);
            &&& freed.free_list.last() == (FreeEntry { size, ptr: second.ptr, gen: second.gen })
            &&& second.ptr == first.ptr
            &&& second.gen == first.gen + 1
            &&& freed.after_alloc(size).is_alive(second)
            &&& freed.after_alloc(size).in_use(second.ptr)
        }),
{
    s.lemma_alloc(size);
    s.after_alloc(size).lemma_free(s.alloc_result(size).ptr);
}

/// An allocation never hands out a block that is in use: the block it returns
/// was either on the free list or did not exist, and it is in use afterwards.
/// So two allocations with no free between them return different blocks.
pub proof fn theorem_block_is_issued_once(s: AllocatorState, first: nat, second: nat)
    requires
        s.wf(),
        valid_block_layout(first),
        valid_block_layout(second),
    ensures
        !s.in_use(s.alloc_result(first).ptr),
        s.after_alloc(first).in_use(s.alloc_result(first).ptr),
        s.after_alloc(first).alloc_result(second).ptr != s.alloc_result(first).ptr,
{
    s.lemma_alloc(first);
    if s.has_fit(first) {
        s.lemma_first_fit(first);
        let k = s.first_fit(first);
        assert(s.free_at(s.free_list[k].ptr, k));
    }
    let held = s.after_alloc(first);
    if held.has_fit(second) {
        held.lemma_first_fit(second);
        let k = held.first_fit(second);
        assert(held.free_at(held.free_list[k].ptr, k));
    }
}

/// Creating an owner, releasing it and creating another returns the block
/// that was just released, one generation later, and the new owner reads its
/// own value, provided that no other free block was waiting.
pub proof fn theorem_released_block_is_reused<T>(s: HeapState<T>, first: T, second: T)
    requires
        s.wf(),
        allocatable::<T>(),
        !s.after_create(first).allocator.has_fit(size_class_of::<T>()),
    ensures
        ({
            let owner = s.created();
            let released = s.after_create(first).after_release(owner);
            let next = released.created();
            &&& released.allocator.generation(owner.ptr) == owner.gen + 1
            &&& next.ptr == owner.ptr
            &&& next.gen == owner.gen + 1
            &&& released.after_create(second).owns(next)
            &&& released.after_create(second).payload(next) == second
            &&& !released.after_create(second).is_alive(owner)
        }),
{
    lemma_allocatable::<T>();
    s.lemma_create(first);
    theorem_freed_block_is_reused(s.allocator, size_class_of::<T>());
    s.after_create(first).lemma_release(s.created());
}

/// Once an owner that was created for a value has been released, neither
/// the owner's handle nor a reference copied from it passes the liveness
/// check again, whatever is done to the heap afterwards.
pub proof fn theorem_use_after_free_is_detected<T>(
    s: HeapState<T>,
    value: T,
    ops: Seq<HeapOp<T>>,
)
    requires
        s.wf(),
        allocatable::<T>(),
        s.after_create(value).after_release(s.created()).admits(ops),
    ensures
        ({
            let owner = s.created();
            let reference = owner;
            let later = s.after_create(value).after_release(owner).run(ops);
            !later.is_alive(reference) && !later.is_alive(owner)
        }),
{
    s.lemma_create(value);
    theorem_released_handle_stays_stale(s.after_create(value), s.created(), ops);
}

/// Once the owner of a block has been released, its handle never passes the
/// liveness check again, whatever is done to the heap afterwards.
pub proof fn theorem_released_handle_stays_stale<T>(
    s: HeapState<T>,
    owner: Handle,
    ops: Seq<HeapOp<T>>,
)
    requires
        s.wf(),
        s.owns(owner),
        s.after_release(owner).admits(ops),
    ensures
        !s.after_release(owner).is_alive(owner),
        !s.after_release(owner).run(ops).is_alive(owner),
        s.after_release(owner).run(ops).allocator.generation(owner.ptr) > owner.gen,
{
    s.allocator.lemma_free(owner.ptr);
    s.after_release(owner).lemma_run(ops, owner.ptr);
}

/// A reference copied from an owner passes the liveness check for as long as
/// the owner is not released, and reads what was last written through the
/// owner or through the reference itself.
pub proof fn theorem_reference_observes_owner<T>(
    s: HeapState<T>,
    owner: Handle,
    reference: Handle,
    ops: Seq<HeapOp<T>>,
)
    requires
        s.wf(),
        s.owns(owner),
        reference == owner,
        s.admits(ops),
        forall|i: int| 0 <= i < ops.len() ==> ops[i] != (HeapOp::<T>::Release { owner }),
    ensures
        s.run(ops).wf(),
        s.run(ops).owns(owner),
        s.run(ops).is_alive(reference),
        s.run(ops).payload(reference) == last_written(ops, owner, s.payload(owner)),
    decreases ops.len(),
{
    if ops.len() > 0 {
        s.lemma_step_keeps_owner(ops[0], owner);
        let rest = ops.drop_first();
        theorem_reference_observes_owner(s.step(ops[0]), owner, reference, rest);
    }
}

/// A value written through a live owner is what a reference copied from the
/// owner reads next, and the write fails no liveness check.
pub proof fn theorem_write_is_shared<T>(s: HeapState<T>, owner: Handle, reference: Handle, value: T)
    requires
        s.wf(),
        s.is_alive(owner),
        reference == owner,
    ensures
        s.after_write(owner, value).is_alive(reference),
        s.after_write(owner, value).payload(reference) == value,
        s.after_write(owner, value).wf(),
{
}

/// Two handles are equal exactly when address and generation both match; of
/// two handles to one address with different generations at most one passes
/// the liveness check.
pub proof fn theorem_handle_equality(s: AllocatorState, a: Handle, b: Handle)
    ensures
        a == b <==> a.ptr == b.ptr && a.gen == b.gen,
        a.ptr == b.ptr && a.gen != b.gen ==> a != b && !(s.is_alive(a) && s.is_alive(b)),
{
}

} // verus!
