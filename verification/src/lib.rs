//! A generational block allocator.
//!
//! Blocks are handed out by size class and carry a generation counter in
//! their header. Freeing a block bumps the counter, so a handle that still
//! remembers the old generation can be told apart from the block's current
//! occupant before it is followed.

pub mod layout;
pub mod model;
pub mod allocator;
pub mod heap;
pub mod gen_ref;
pub mod owned;
pub mod history;
pub mod theorems;

pub use allocator::{gen_alloc, gen_free, get_generation, GenAllocResult, GenAllocator};
pub use gen_ref::{GenRef, StaleReference};
pub use heap::GenHeap;
pub use layout::alignment;
pub use owned::GenOwned;
