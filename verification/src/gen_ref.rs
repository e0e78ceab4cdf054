//! The non-owning reference: a copyable address and generation pair that is
//! checked against the block's header before every access.

use crate::allocator::get_generation;
use crate::heap::GenHeap;
use crate::model::Handle;
use core::marker::PhantomData;
use vstd::prelude::*;

verus! {

/// The liveness check failed: the block was freed after the handle
/// remembered its generation.
#[derive(Debug, PartialEq, Eq, Clone, Copy)]
pub struct StaleReference;

impl StaleReference {
    /// The diagnostic for a use after free.
    pub fn message(&self) -> (text: &'static str)
        ensures
            text@ == "attempt to dereference a freed reference"@,
    {
        "attempt to dereference a freed reference"
    }
}

/// A copyable reference to a block. It owns nothing and may outlive the
/// block it names.
pub struct GenRef<T> {
    pub(crate) ptr: usize,
    pub(crate) gen: usize,
    pub(crate) marker: PhantomData<T>,
}

impl<T> Clone for GenRef<T> {
    fn clone(&self) -> (copy: Self)
        ensures
            copy == *self,
    {
        *self
    }
}

impl<T> Copy for GenRef<T> {

}

impl<T> View for GenRef<T> {
    type V = Handle;

    open(crate) spec fn view(&self) -> Handle {
        Handle { ptr: self.ptr as nat, gen: self.gen as nat }
    }
}

impl<T> GenRef<T> {
    /// The address of the block that the reference names.
    pub fn ptr(&self) -> (ptr: usize)
        ensures
            ptr == self@.ptr,
    {
        self.ptr
    }

    /// The generation that the reference remembers.
    pub fn generation(&self) -> (gen: usize)
        ensures
            gen == self@.gen,
    {
        self.gen
    }

    /// Two references are the same iff address and generation both match.
    pub fn ptr_eq(self, other: Self) -> (same: bool)
        ensures
            same == (self@ == other@),
    {
        self.ptr == other.ptr && self.gen == other.gen
    }

    /// The liveness check: `Ok` iff the block's header still holds the
    /// generation that the reference remembers.
    pub fn assert_alive(&self, heap: &GenHeap<T>) -> (res: Result<(), StaleReference>)
        ensures
            res is Ok <==> heap@.is_alive(self@),
    {
        if heap.allocator.is_allocated(self.ptr) && get_generation(self.ptr, &heap.allocator)
            == self.gen {
            Ok(())
        } else {
            Err(StaleReference)
        }
    }

    /// Reads the payload of a live reference.
    pub fn deref<'a>(&self, heap: &'a GenHeap<T>) -> (value: &'a T)
        requires
            heap@.wf(),
            heap@.is_alive(self@),
        ensures
            *value == heap@.payload(self@),
    {
        &heap.payloads[self.ptr]
    }

    /// Borrows the payload of a live reference for writing. What the
    /// borrower leaves there is the block's payload afterwards; nothing else
    /// in the heap changes.
    pub fn deref_mut<'a>(&self, heap: &'a mut GenHeap<T>) -> (value: &'a mut T)
        requires
            old(heap)@.wf(),
            old(heap)@.is_alive(self@),
        ensures
            *value == old(heap)@.payload(self@),
            final(heap)@ == old(heap)@.after_write(self@, *final(value)),
            final(heap)@.wf(),
            final(heap)@.is_alive(self@),
    {
        &mut heap.payloads[self.ptr]
    }

    /// Reads the payload after the liveness check: the payload of a live
    /// reference, and the failed check for a stale one.
    pub fn try_deref<'a>(&self, heap: &'a GenHeap<T>) -> (res: Result<&'a T, StaleReference>)
        requires
            heap@.wf(),
        ensures
            res is Ok <==> heap@.is_alive(self@),
            res is Ok ==> *res->Ok_0 == heap@.payload(self@),
    {
        match self.assert_alive(heap) {
            Ok(()) => Ok(self.deref(heap)),
            Err(stale) => Err(stale),
        }
    }

    /// Borrows the payload for writing after the liveness check. Through a
    /// stale reference nothing is borrowed and the heap stays as it is.
    pub fn try_deref_mut<'a>(&self, heap: &'a mut GenHeap<T>) -> (res: Result<
        &'a mut T,
        StaleReference,
    >)
        requires
            old(heap)@.wf(),
        ensures
            res is Ok <==> old(heap)@.is_alive(self@),
            res is Ok ==> *res->Ok_0 == old(heap)@.payload(self@),
            res is Ok ==> final(heap)@ == old(heap)@.after_write(self@, *final(res->Ok_0)),
            res is Err ==> final(heap)@ == old(heap)@,
            final(heap)@.wf(),
    {
        match self.assert_alive(heap) {
            Ok(()) => Ok(self.deref_mut(heap)),
            Err(stale) => Err(stale),
        }
    }
}

} // verus!
