//! The unique owner of a block.

use crate::allocator::{gen_alloc, gen_free};
use crate::gen_ref::{GenRef, StaleReference};
use crate::heap::GenHeap;
use crate::layout::{allocatable, size_class_of};
use crate::model::Handle;
use core::marker::PhantomData;
use vstd::prelude::*;

verus! {

/// Exclusive ownership of one block. Releasing the owner is the only way
/// the block returns to the free list.
pub struct GenOwned<T> {
    ptr: usize,
    gen: usize,
    marker: PhantomData<T>,
}

impl<T> View for GenOwned<T> {
    type V = Handle;

    closed spec fn view(&self) -> Handle {
        Handle { ptr: self.ptr as nat, gen: self.gen as nat }
    }
}

impl<T> GenOwned<T> {
    /// Allocates a block in `heap`, stores `value` in it and returns its
    /// owner.
    pub fn new(value: T, heap: &mut GenHeap<T>) -> (owner: Self)
        requires
            old(heap)@.wf(),
            allocatable::<T>(),
        ensures
            owner@ == old(heap)@.created(),
            final(heap)@ == old(heap)@.after_create(value),
            final(heap)@.wf(),
            final(heap)@.owns(owner@),
            final(heap)@.payload(owner@) == value,
    {
        proof {
            old(heap)@.lemma_create(value);
        }
        let res = gen_alloc::<T>(&mut heap.allocator);
        if res.ptr < heap.payloads.len() {
            heap.payloads.set(res.ptr, value);
        } else {
            heap.payloads.push(value);
        }
        GenOwned { ptr: res.ptr, gen: res.gen, marker: PhantomData }
    }

    /// Gives the block back: its generation goes up by one, which leaves
    /// every reference taken from this owner stale, and the block joins the
    /// free list.
    pub fn release(self, heap: &mut GenHeap<T>)
        requires
            old(heap)@.wf(),
            old(heap)@.owns(self@),
            self@.gen < usize::MAX,
        ensures
            final(heap)@ == old(heap)@.after_release(self@),
            final(heap)@.wf(),
            !final(heap)@.is_alive(self@),
            !old(heap)@.allocator.has_fit(size_class_of::<T>())
                ==> final(heap)@.allocator.is_first_fit(
                size_class_of::<T>(),
                old(heap)@.allocator.free_list.len() as int,
            ),
    {
        proof {
            old(heap)@.lemma_release(self@);
        }
        gen_free(self.ptr, &mut heap.allocator);
    }

    /// The address of the owned block.
    pub fn ptr(&self) -> (ptr: usize)
        ensures
            ptr == self@.ptr,
    {
        self.ptr
    }

    /// The generation that the owner remembers.
    pub fn generation(&self) -> (gen: usize)
        ensures
            gen == self@.gen,
    {
        self.gen
    }

    /// Two owners are the same iff address and generation both match.
    pub fn ptr_eq(&self, other: &Self) -> (same: bool)
        ensures
            same == (self@ == other@),
    {
        self.ptr == other.ptr && self.gen == other.gen
    }

    /// A reference to the owned block: a copy of the address and generation
    /// pair. Ownership and the block's generation stay as they are.
    pub fn as_ref(&self) -> (r: GenRef<T>)
        ensures
            r@ == self@,
    {
        GenRef { ptr: self.ptr, gen: self.gen, marker: PhantomData }
    }

    /// The liveness check: `Ok` iff the block's header still holds the
    /// generation that the owner remembers.
    pub fn assert_alive(&self, heap: &GenHeap<T>) -> (res: Result<(), StaleReference>)
        ensures
            res is Ok <==> heap@.is_alive(self@),
    {
        self.as_ref().assert_alive(heap)
    }

    /// Reads the payload of a live owner.
    pub fn deref<'a>(&self, heap: &'a GenHeap<T>) -> (value: &'a T)
        requires
            heap@.wf(),
            heap@.is_alive(self@),
        ensures
            *value == heap@.payload(self@),
    {
        self.as_ref().deref(heap)
    }

    /// Borrows the payload of a live owner for writing. What the borrower
    /// leaves there is the block's payload afterwards; nothing else in the
    /// heap changes.
    pub fn deref_mut<'a>(&self, heap: &'a mut GenHeap<T>) -> (value: &'a mut T)
        requires
            old(heap)@.wf(),
            old(heap)@.is_alive(self@),
        ensures
            *value == old(heap)@.payload(self@),
            final(heap)@ == old(heap)@.after_write(self@, *final(value)),
            final(heap)@.wf(),
            final(heap)@.is_alive(self@),
    {
        self.as_ref().deref_mut(heap)
    }

    /// Reads the payload after the liveness check: the payload of a live
    /// owner, and the failed check for a stale one.
    pub fn try_deref<'a>(&self, heap: &'a GenHeap<T>) -> (res: Result<&'a T, StaleReference>)
        requires
            heap@.wf(),
        ensures
            res is Ok <==> heap@.is_alive(self@),
            res is Ok ==> *res->Ok_0 == heap@.payload(self@),
    {
        self.as_ref().try_deref(heap)
    }

    /// Borrows the payload for writing after the liveness check. Through a
    /// stale owner nothing is borrowed and the heap stays as it is.
    pub fn try_deref_mut<'a>(&self, heap: &'a mut GenHeap<T>) -> (res: Result<
        &'a mut T,
        StaleReference,
    >)
        requires
            old(heap)@.wf(),
        ensures
            res is Ok <==> old(heap)@.is_alive(self@),
            res is Ok ==> *res->Ok_0 == old(heap)@.payload(self@),
            res is Ok ==> final(heap)@ == old(heap)@.after_write(self@, *final(res->Ok_0)),
            res is Err ==> final(heap)@ == old(heap)@,
            final(heap)@.wf(),
    {
        self.as_ref().try_deref_mut(heap)
    }
}

} // verus!
