use genalloc::allocator::{gen_alloc, gen_free, get_generation, GenAllocResult, GenAllocator};
use genalloc::layout::{alignment, size_class};

#[test]
fn new_allocator_is_empty() {
    let heap = GenAllocator::new();
    assert_eq!(heap.block_count(), 0);
    assert_eq!(heap.free_count(), 0);
    assert!(!heap.is_allocated(0));
    assert!(!heap.is_free(0));
}

#[test]
fn fresh_block_starts_at_generation_zero() {
    let mut heap = GenAllocator::new();
    let a: GenAllocResult<u32> = gen_alloc(&mut heap);
    assert_eq!(a.ptr, 0);
    assert_eq!(a.gen, 0);
    assert_eq!(get_generation(a.ptr, &heap), 0);
    assert!(heap.is_allocated(a.ptr));
    assert!(!heap.is_free(a.ptr));
    assert_eq!(heap.block_count(), 1);
}

#[test]
fn every_fresh_block_starts_at_generation_zero() {
    let mut heap = GenAllocator::new();
    let a = gen_alloc::<u8>(&mut heap);
    let b = gen_alloc::<u64>(&mut heap);
    let c = gen_alloc::<[u8; 100]>(&mut heap);
    let d = gen_alloc::<u64>(&mut heap);
    assert_eq!((a.gen, b.gen, c.gen, d.gen), (0, 0, 0, 0));
    assert_eq!((a.ptr, b.ptr, c.ptr, d.ptr), (0, 1, 2, 3));
    assert_eq!(get_generation(d.ptr, &heap), 0);
    assert_eq!(heap.block_count(), 4);
}

#[test]
fn fresh_block_records_its_layout() {
    let mut heap = GenAllocator::new();
    let a = gen_alloc::<u32>(&mut heap);
    let b = gen_alloc::<[u8; 24]>(&mut heap);
    assert_eq!(heap.block_size(a.ptr), size_class::<u32>());
    assert_eq!(heap.block_align(a.ptr), alignment(size_class::<u32>()));
    assert_eq!(heap.block_size(b.ptr), size_class::<[u8; 24]>());
    assert_eq!(heap.block_align(b.ptr), 8);
    assert!(heap.block_align(a.ptr).is_power_of_two());
    assert_eq!(heap.block_size(a.ptr) % heap.block_align(a.ptr), 0);
}

#[test]
fn free_increments_generation_by_one() {
    let mut heap = GenAllocator::new();
    let a = gen_alloc::<u32>(&mut heap);
    gen_free(a.ptr, &mut heap);
    assert_eq!(get_generation(a.ptr, &heap), 1);
    assert!(heap.is_free(a.ptr));
    assert!(heap.is_allocated(a.ptr));
    assert_eq!(heap.free_count(), 1);
}

#[test]
fn free_leaves_other_generations_alone() {
    let mut heap = GenAllocator::new();
    let a = gen_alloc::<u32>(&mut heap);
    let b = gen_alloc::<u32>(&mut heap);
    gen_free(a.ptr, &mut heap);
    assert_eq!(get_generation(a.ptr, &heap), 1);
    assert_eq!(get_generation(b.ptr, &heap), 0);
    assert!(!heap.is_free(b.ptr));
}

#[test]
fn generations_only_go_up() {
    let mut heap = GenAllocator::new();
    let mut expected: usize = 0;
    let mut round = 0;
    while round < 50 {
        let a = gen_alloc::<u64>(&mut heap);
        assert_eq!(a.ptr, 0);
        assert_eq!(a.gen, expected);
        assert_eq!(get_generation(a.ptr, &heap), expected);
        gen_free(a.ptr, &mut heap);
        expected += 1;
        assert_eq!(get_generation(a.ptr, &heap), expected);
        round += 1;
    }
    assert_eq!(heap.block_count(), 1);
}

#[test]
fn freed_block_is_reused_with_its_new_generation() {
    let mut heap = GenAllocator::new();
    let a = gen_alloc::<u32>(&mut heap);
    gen_free(a.ptr, &mut heap);
    let b = gen_alloc::<u32>(&mut heap);
    assert_eq!(b.ptr, a.ptr);
    assert_eq!(b.gen, a.gen + 1);
    assert_eq!(get_generation(b.ptr, &heap), b.gen);
    assert_eq!(heap.block_count(), 1);
}

#[test]
fn reused_block_leaves_the_free_list() {
    let mut heap = GenAllocator::new();
    let a = gen_alloc::<u32>(&mut heap);
    gen_free(a.ptr, &mut heap);
    let b = gen_alloc::<u32>(&mut heap);
    assert_eq!(heap.free_count(), 0);
    assert!(!heap.is_free(b.ptr));
    // the same block is not handed out a second time
    let c = gen_alloc::<u32>(&mut heap);
    assert_ne!(c.ptr, b.ptr);
    assert_eq!(c.gen, 0);
    assert_eq!(heap.block_count(), 2);
}

#[test]
fn reuse_goes_by_size_class() {
    let mut heap = GenAllocator::new();
    let small = gen_alloc::<u8>(&mut heap);
    gen_free(small.ptr, &mut heap);
    // another size class does not take the freed block
    let big = gen_alloc::<u64>(&mut heap);
    assert_ne!(big.ptr, small.ptr);
    assert_eq!(big.gen, 0);
    assert!(heap.is_free(small.ptr));
    // the same size class does
    let again = gen_alloc::<u8>(&mut heap);
    assert_eq!(again.ptr, small.ptr);
    assert_eq!(again.gen, 1);
}

#[test]
fn reuse_across_types_of_one_size_class() {
    let mut heap = GenAllocator::new();
    let a = gen_alloc::<u32>(&mut heap);
    gen_free(a.ptr, &mut heap);
    let b = gen_alloc::<[u8; 3]>(&mut heap);
    assert_eq!(b.ptr, a.ptr);
    assert_eq!(b.gen, 1);
}

#[test]
fn oldest_free_block_of_the_class_is_taken_first() {
    let mut heap = GenAllocator::new();
    let a = gen_alloc::<u32>(&mut heap);
    let b = gen_alloc::<u64>(&mut heap);
    let c = gen_alloc::<u32>(&mut heap);
    gen_free(c.ptr, &mut heap);
    gen_free(b.ptr, &mut heap);
    gen_free(a.ptr, &mut heap);
    let first = gen_alloc::<u32>(&mut heap);
    assert_eq!((first.ptr, first.gen), (c.ptr, 1));
    let second = gen_alloc::<u32>(&mut heap);
    assert_eq!((second.ptr, second.gen), (a.ptr, 1));
    let third = gen_alloc::<u64>(&mut heap);
    assert_eq!((third.ptr, third.gen), (b.ptr, 1));
    assert_eq!(heap.free_count(), 0);
}

#[test]
fn reallocation_prefers_an_older_free_block_of_the_class() {
    let mut heap = GenAllocator::new();
    let waiting = gen_alloc::<u32>(&mut heap);
    let other = gen_alloc::<u32>(&mut heap);
    gen_free(waiting.ptr, &mut heap);
    gen_free(other.ptr, &mut heap);
    // takes `waiting`; `other` stays on the free list
    let a = gen_alloc::<u32>(&mut heap);
    assert_eq!(a.ptr, waiting.ptr);
    gen_free(a.ptr, &mut heap);
    // `other` was freed earlier than `a`, so it is taken before `a`
    let b = gen_alloc::<u32>(&mut heap);
    assert_eq!((b.ptr, b.gen), (other.ptr, 1));
}

#[test]
fn is_free_tells_listed_blocks_from_blocks_in_use() {
    let mut heap = GenAllocator::new();
    let a = gen_alloc::<u32>(&mut heap);
    let b = gen_alloc::<u32>(&mut heap);
    let c = gen_alloc::<u32>(&mut heap);
    gen_free(b.ptr, &mut heap);
    assert!(!heap.is_free(a.ptr));
    assert!(heap.is_free(b.ptr));
    assert!(!heap.is_free(c.ptr));
    assert!(!heap.is_free(17));
    assert!(!heap.is_allocated(3));
    assert!(heap.is_allocated(2));
}
