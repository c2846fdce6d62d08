//! What holds of the allocation interface as a whole: how the results of one
//! operation fit the next, and what an operation leaves alone.

use crate::allocator::{
    allocated, lemma_allocated_is_block, lemma_malloc_alignment_is_valid, malloc_outcome, moved,
    realloc_outcome, released, request, usable_size, valid_alignment, ENOMEM, MALLOC_ALIGNMENT,
};
use crate::block::{block_len, header_at, header_size, is_block, lemma_word_frame};
use crate::heap::{HeapBackend, HeapState};
use vstd::prelude::*;

verus! {

/// Whatever `malloc` returns is null or aligned.
pub proof fn lemma_malloc_is_aligned<H: HeapBackend>(
    pre: H,
    post: HeapState,
    size: usize,
    ptr: usize,
)
    requires
        post.wf(),
        malloc_outcome(pre, post, size, ptr),
    ensures
        ptr == 0 || ptr % MALLOC_ALIGNMENT == 0,
{
    lemma_malloc_alignment_is_valid();
    if let Ok(base) = request(pre, MALLOC_ALIGNMENT, size) {
        lemma_allocated_is_block(pre@, post, base, MALLOC_ALIGNMENT, size, ptr);
    }
}

/// Whatever `malloc` returns may be handed to `free`, and to
/// `malloc_usable_size`, which then reports no less than was asked for.
pub proof fn lemma_malloc_result_is_valid<H: HeapBackend>(
    pre: H,
    post: HeapState,
    size: usize,
    ptr: usize,
)
    requires
        post.wf(),
        malloc_outcome(pre, post, size, ptr),
    ensures
        ptr == 0 || is_block(post, ptr),
        ptr != 0 ==> usable_size(post, ptr) >= size,
        ptr != 0 ==> block_len(post, ptr) >= size,
{
    lemma_malloc_alignment_is_valid();
    if let Ok(base) = request(pre, MALLOC_ALIGNMENT, size) {
        lemma_allocated_is_block(pre@, post, base, MALLOC_ALIGNMENT, size, ptr);
    }
}

/// A new block belongs to its owner alone: neither its header nor the bytes
/// that its owner may use belong to an allocation that was live before.
pub proof fn lemma_allocated_is_apart(
    pre: HeapState,
    post: HeapState,
    base: usize,
    alignment: usize,
    size: usize,
    ptr: usize,
    other: usize,
    addr: int,
)
    requires
        post.wf(),
        valid_alignment(alignment),
        allocated(pre, post, base, alignment, size, ptr),
        pre.in_block(other, addr),
    ensures
        !(ptr - header_size() <= addr < ptr + block_len(post, ptr)),
{
    lemma_allocated_is_block(pre, post, base, alignment, size, ptr);
    assert(post.blocks.contains_key(other) && post.blocks.contains_key(base));
}

/// Freeing what `malloc` returned leaves the allocations that were live
/// before, with the bytes they had.
pub proof fn lemma_malloc_then_free<H: HeapBackend>(
    pre: H,
    mid: HeapState,
    post: HeapState,
    size: usize,
    ptr: usize,
)
    requires
        malloc_outcome(pre, mid, size, ptr),
        released(mid, post, ptr),
    ensures
        post.blocks == pre@.blocks,
        pre@.live_bytes_kept(post),
{
    if request(pre, MALLOC_ALIGNMENT, size) is Ok {
        assert forall|b: usize, at: int| #[trigger] pre@.in_block(b, at) implies post.bytes[at]
            == pre@.bytes[at] by {
            assert(post.in_block(b, at));
        }
    }
}

/// Resizing the null address is allocating.
pub proof fn lemma_realloc_of_null_is_malloc<H: HeapBackend>(
    pre: H,
    post: HeapState,
    size: usize,
    new_ptr: usize,
)
    ensures
        realloc_outcome(pre, post, 0, size, new_ptr) == malloc_outcome(pre, post, size, new_ptr),
{
}

/// Resizing a block to no bytes frees it and returns the null address,
/// whatever the backend would have granted.
pub proof fn lemma_realloc_to_zero_frees<H: HeapBackend>(
    pre: H,
    post: HeapState,
    ptr: usize,
    new_ptr: usize,
)
    requires
        ptr != 0,
        realloc_outcome(pre, post, ptr, 0, new_ptr),
    ensures
        new_ptr == 0,
        released(pre@, post, ptr),
        post.blocks == pre@.blocks.remove(header_at(pre@, ptr)),
{
}

/// A block that grows keeps its bytes: each of the first `old_size` bytes of
/// the old block is found at the same offset in the new one.
pub proof fn lemma_growth_keeps_bytes(
    pre: HeapState,
    post: HeapState,
    base: usize,
    old_ptr: usize,
    old_size: usize,
    size: usize,
    new_ptr: usize,
    offset: int,
)
    requires
        moved(pre, post, base, old_ptr, size, new_ptr),
        old_size <= block_len(pre, old_ptr),
        old_size <= size,
        0 <= offset < old_size,
    ensures
        post.bytes[new_ptr + offset] == pre.bytes[old_ptr + offset],
{
}

/// A request that the backend has no room for ends with `ENOMEM`.
pub proof fn lemma_exhausted_backend_refuses<H: HeapBackend>(
    heap: H,
    alignment: usize,
    size: usize,
)
    requires
        forall|n: usize| heap.placement(n) is None,
    ensures
        request(heap, alignment, size) is Err,
        valid_alignment(alignment) ==> request(heap, alignment, size) == Err::<
            usize,
            i32,
        >(ENOMEM),
{
}

/// A block that was valid before another block was freed is valid after it,
/// with the same header and the same length.
pub proof fn lemma_released_keeps_block(
    pre: HeapState,
    post: HeapState,
    ptr: usize,
    other: usize,
)
    requires
        released(pre, post, ptr),
        is_block(pre, other),
        ptr != 0 ==> header_at(pre, other) != header_at(pre, ptr),
    ensures
        is_block(post, other),
        header_at(post, other) == header_at(pre, other),
        block_len(post, other) == block_len(pre, other),
{
    if ptr != 0 {
        let owner = header_at(pre, other);
        assert forall|at: int| other - header_size() <= at < other implies pre.bytes[at]
            == post.bytes[at] by {
            assert(post.in_block(owner, at));
        }
        lemma_word_frame(pre.bytes, post.bytes, other - header_size(), header_size() as nat);
    }
}

/// A block that was valid before another block moved is valid after it, with
/// the same header and the same length.
pub proof fn lemma_moved_keeps_block(
    pre: HeapState,
    post: HeapState,
    base: usize,
    old_ptr: usize,
    size: usize,
    new_ptr: usize,
    other: usize,
)
    requires
        moved(pre, post, base, old_ptr, size, new_ptr),
        is_block(pre, other),
        header_at(pre, other) != header_at(pre, old_ptr),
    ensures
        is_block(post, other),
        header_at(post, other) == header_at(pre, other),
        block_len(post, other) == block_len(pre, other),
{
    let owner = header_at(pre, other);
    assert forall|at: int| other - header_size() <= at < other implies pre.bytes[at]
        == post.bytes[at] by {
        assert(pre.in_block(owner, at));
    }
    lemma_word_frame(pre.bytes, post.bytes, other - header_size(), header_size() as nat);
}

/// Writing a byte that is no part of a block's header leaves the block
/// valid, with the same header and the same length.
pub proof fn lemma_write_keeps_block(heap: HeapState, addr: int, value: u8, ptr: usize)
    requires
        is_block(heap, ptr),
        !(ptr - header_size() <= addr < ptr),
    ensures
        is_block(heap.with_byte(addr, value), ptr),
        header_at(heap.with_byte(addr, value), ptr) == header_at(heap, ptr),
        block_len(heap.with_byte(addr, value), ptr) == block_len(heap, ptr),
{
    lemma_word_frame(
        heap.bytes,
        heap.with_byte(addr, value).bytes,
        ptr - header_size(),
        header_size() as nat,
    );
}

} // verus!
