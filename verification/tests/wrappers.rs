use genalloc::gen_ref::{GenRef, StaleReference};
use genalloc::heap::GenHeap;
use genalloc::owned::GenOwned;

#[test]
fn new_heap_is_empty() {
    let heap = GenHeap::<i32>::new();
    assert_eq!(heap.allocator().block_count(), 0);
    assert_eq!(heap.allocator().free_count(), 0);
}

#[test]
fn owner_reads_what_it_was_created_with() {
    let mut heap = GenHeap::new();
    let owner = GenOwned::new(42i32, &mut heap);
    assert_eq!(owner.generation(), 0);
    assert_eq!(owner.assert_alive(&heap), Ok(()));
    assert_eq!(*owner.deref(&heap), 42);
}

#[test]
fn released_block_is_reused_at_the_next_generation() {
    let mut heap = GenHeap::new();
    let owner = GenOwned::new(42i32, &mut heap);
    assert_eq!(owner.generation(), 0);
    let ptr = owner.ptr();
    owner.release(&mut heap);
    assert_eq!(genalloc::allocator::get_generation(ptr, heap.allocator()), 1);
    let next = GenOwned::new(7i32, &mut heap);
    assert_eq!(next.ptr(), ptr);
    assert_eq!(next.generation(), 1);
    assert_eq!(*next.deref(&heap), 7);
}

#[test]
fn reference_is_stale_after_release() {
    let mut heap = GenHeap::new();
    let owner = GenOwned::new(String::from("payload"), &mut heap);
    let r = owner.as_ref();
    assert_eq!(r.assert_alive(&heap), Ok(()));
    owner.release(&mut heap);
    assert_eq!(r.assert_alive(&heap), Err(StaleReference));
}

#[test]
fn reference_stays_stale_after_the_block_is_reused() {
    let mut heap = GenHeap::new();
    let owner = GenOwned::new(42i32, &mut heap);
    let r = owner.as_ref();
    owner.release(&mut heap);
    let next = GenOwned::new(7i32, &mut heap);
    assert_eq!(next.ptr(), r.ptr());
    // the block holds 7 now; the old reference must not be followed to it
    assert_eq!(r.assert_alive(&heap), Err(StaleReference));
    assert_eq!(next.assert_alive(&heap), Ok(()));
    let mut round = 0;
    let mut current = next;
    while round < 10 {
        current.release(&mut heap);
        current = GenOwned::new(round, &mut heap);
        assert_eq!(r.assert_alive(&heap), Err(StaleReference));
        round += 1;
    }
}

#[test]
fn stale_reference_diagnostic() {
    assert_eq!(StaleReference.message(), "attempt to dereference a freed reference");
}

#[test]
fn reference_from_another_heap_is_stale() {
    let mut heap = GenHeap::new();
    let mut other = GenHeap::<i32>::new();
    let _first = GenOwned::new(1i32, &mut heap);
    let second = GenOwned::new(2i32, &mut heap);
    let r = second.as_ref();
    // `other` has no block at that address
    assert_eq!(r.assert_alive(&other), Err(StaleReference));
    let _a = GenOwned::new(10i32, &mut other);
    let b = GenOwned::new(20i32, &mut other);
    b.release(&mut other);
    // a block at that address, at another generation
    assert_eq!(r.assert_alive(&other), Err(StaleReference));
    assert_eq!(r.assert_alive(&heap), Ok(()));
}

#[test]
fn reference_observes_writes_of_the_owner() {
    let mut heap = GenHeap::new();
    let owner = GenOwned::new(1i32, &mut heap);
    let r = owner.as_ref();
    assert_eq!(*r.deref(&heap), 1);
    *owner.deref_mut(&mut heap) = 2;
    assert_eq!(r.assert_alive(&heap), Ok(()));
    assert_eq!(*r.deref(&heap), 2);
    *owner.deref_mut(&mut heap) += 40;
    assert_eq!(*r.deref(&heap), 42);
    assert_eq!(*owner.deref(&heap), 42);
}

#[test]
fn owner_observes_writes_through_a_reference() {
    let mut heap = GenHeap::new();
    let owner = GenOwned::new(vec![1u8, 2, 3], &mut heap);
    let r = owner.as_ref();
    r.deref_mut(&mut heap).push(4);
    assert_eq!(*owner.deref(&heap), vec![1u8, 2, 3, 4]);
    let copy = r;
    copy.deref_mut(&mut heap).clear();
    assert_eq!(owner.deref(&heap).len(), 0);
    assert_eq!(r.deref(&heap).len(), 0);
}

#[test]
fn other_owners_do_not_disturb_a_live_reference() {
    let mut heap = GenHeap::new();
    let a = GenOwned::new(10i32, &mut heap);
    let ra = a.as_ref();
    let b = GenOwned::new(20i32, &mut heap);
    let c = GenOwned::new(30i32, &mut heap);
    *b.deref_mut(&mut heap) = 21;
    b.release(&mut heap);
    let d = GenOwned::new(40i32, &mut heap);
    assert_eq!(ra.assert_alive(&heap), Ok(()));
    assert_eq!(*ra.deref(&heap), 10);
    assert_eq!(*c.deref(&heap), 30);
    assert_eq!(*d.deref(&heap), 40);
    assert_eq!(a.generation(), 0);
    assert_eq!(d.generation(), 1);
}

#[test]
fn downgrade_copies_address_and_generation() {
    let mut heap = GenHeap::new();
    let first = GenOwned::new(1u64, &mut heap);
    first.release(&mut heap);
    let owner = GenOwned::new(2u64, &mut heap);
    let r = owner.as_ref();
    assert_eq!(r.ptr(), owner.ptr());
    assert_eq!(r.generation(), owner.generation());
    assert_eq!(r.generation(), 1);
    // the block and its owner are as they were
    assert_eq!(genalloc::allocator::get_generation(owner.ptr(), heap.allocator()), 1);
    assert_eq!(owner.assert_alive(&heap), Ok(()));
    assert_eq!(*owner.deref(&heap), 2);
}

#[test]
fn references_are_equal_iff_address_and_generation_match() {
    let mut heap = GenHeap::new();
    let a = GenOwned::new(1i32, &mut heap);
    let b = GenOwned::new(1i32, &mut heap);
    let ra = a.as_ref();
    let rb = b.as_ref();
    assert!(ra.ptr_eq(ra));
    assert!(ra.ptr_eq(a.as_ref()));
    // same generation, another address
    assert!(!ra.ptr_eq(rb));
    assert!(!rb.ptr_eq(ra));
}

#[test]
fn same_address_at_another_generation_is_unequal() {
    let mut heap = GenHeap::new();
    let old = GenOwned::new(1i32, &mut heap);
    let stale = old.as_ref();
    old.release(&mut heap);
    let new = GenOwned::new(1i32, &mut heap);
    let fresh = new.as_ref();
    assert_eq!(stale.ptr(), fresh.ptr());
    assert_ne!(stale.generation(), fresh.generation());
    assert!(!stale.ptr_eq(fresh));
    assert!(!fresh.ptr_eq(stale));
    assert!(fresh.ptr_eq(fresh));
}

#[test]
fn owners_are_equal_iff_address_and_generation_match() {
    let mut heap = GenHeap::new();
    let mut other = GenHeap::new();
    let a = GenOwned::new(1i32, &mut heap);
    let b = GenOwned::new(1i32, &mut heap);
    let twin = GenOwned::new(5i32, &mut other);
    assert!(a.ptr_eq(&a));
    assert!(!a.ptr_eq(&b));
    assert!(!b.ptr_eq(&a));
    // address 0 at generation 0 in both heaps
    assert!(a.ptr_eq(&twin));
    a.release(&mut heap);
    let again = GenOwned::new(1i32, &mut heap);
    // address 0 again, at generation 1
    assert_eq!(again.ptr(), twin.ptr());
    assert!(!again.ptr_eq(&twin));
}

#[test]
fn reference_is_copyable_whatever_the_payload() {
    let mut heap = GenHeap::new();
    let owner = GenOwned::new(String::from("not copy"), &mut heap);
    let r: GenRef<String> = owner.as_ref();
    let copy = r;
    let clone = r.clone();
    assert!(r.ptr_eq(copy));
    assert!(r.ptr_eq(clone));
    assert_eq!(copy.deref(&heap).as_str(), "not copy");
}

#[test]
fn dropping_a_reference_changes_nothing() {
    let mut heap = GenHeap::new();
    let owner = GenOwned::new(5i32, &mut heap);
    {
        let _r = owner.as_ref();
    }
    assert_eq!(owner.assert_alive(&heap), Ok(()));
    assert_eq!(heap.allocator().free_count(), 0);
    assert_eq!(*owner.deref(&heap), 5);
}

#[test]
fn release_puts_the_block_on_the_free_list() {
    let mut heap = GenHeap::new();
    let a = GenOwned::new(1i32, &mut heap);
    let b = GenOwned::new(2i32, &mut heap);
    let (pa, pb) = (a.ptr(), b.ptr());
    a.release(&mut heap);
    assert!(heap.allocator().is_free(pa));
    assert!(!heap.allocator().is_free(pb));
    assert_eq!(heap.allocator().free_count(), 1);
    assert_eq!(*b.deref(&heap), 2);
}

#[test]
fn zero_sized_payloads_get_blocks_too() {
    let mut heap = GenHeap::new();
    let a = GenOwned::new((), &mut heap);
    let b = GenOwned::new((), &mut heap);
    assert_ne!(a.ptr(), b.ptr());
    let r = a.as_ref();
    a.release(&mut heap);
    assert_eq!(r.assert_alive(&heap), Err(StaleReference));
    assert_eq!(b.assert_alive(&heap), Ok(()));
}

#[test]
fn checked_read_gives_the_payload_of_a_live_handle() {
    let mut heap = GenHeap::new();
    let owner = GenOwned::new(42i32, &mut heap);
    let r = owner.as_ref();
    assert_eq!(owner.try_deref(&heap), Ok(&42));
    assert_eq!(r.try_deref(&heap), Ok(&42));
}

#[test]
fn checked_read_through_a_stale_reference_gives_no_payload() {
    let mut heap = GenHeap::new();
    let owner = GenOwned::new(42i32, &mut heap);
    let r = owner.as_ref();
    owner.release(&mut heap);
    assert_eq!(r.try_deref(&heap), Err(StaleReference));
    let next = GenOwned::new(7i32, &mut heap);
    // the block holds 7 now, and the old reference does not get to see it
    assert_eq!(r.try_deref(&heap), Err(StaleReference));
    assert_eq!(next.try_deref(&heap), Ok(&7));
}

#[test]
fn checked_write_goes_to_a_live_block_only() {
    let mut heap = GenHeap::new();
    let owner = GenOwned::new(1i32, &mut heap);
    let r = owner.as_ref();
    match owner.try_deref_mut(&mut heap) {
        Ok(payload) => *payload = 2,
        Err(_) => panic!("the owner is live"),
    }
    match r.try_deref_mut(&mut heap) {
        Ok(payload) => *payload += 10,
        Err(_) => panic!("the reference is live"),
    }
    assert_eq!(*owner.deref(&heap), 12);
    owner.release(&mut heap);
    let next = GenOwned::new(7i32, &mut heap);
    assert!(r.try_deref_mut(&mut heap).is_err());
    assert_eq!(*next.deref(&heap), 7);
}
