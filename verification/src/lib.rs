//! Fixed-alignment allocation on top of a heap that guarantees no alignment.
//!
//! The [`allocator`] offers the usual six operations: allocate, zero-allocate,
//! resize, free, aligned-allocate and usable-size query. Each takes the
//! backend heap it works on, anything that implements
//! [`heap::HeapBackend`]. Every block it hands out starts at a multiple of the
//! requested alignment and is preceded by a hidden header, described in
//! [`block`], that records where the enclosing backend allocation begins.
//!
//! [`arena::Arena`] is a backend that lives in a vector.

pub mod align;
pub mod allocator;
pub mod arena;
pub mod block;
pub mod heap;
pub mod laws;

pub use allocator::{
    calloc, free, malloc, malloc_usable_size, posix_memalign, realloc, EINVAL, ENOMEM,
    MALLOC_ALIGNMENT,
};
pub use arena::Arena;
pub use heap::HeapBackend;
