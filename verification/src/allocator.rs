//! The allocation interface: allocate, zero-allocate, resize, free,
//! aligned-allocate and usable-size query, each on a backend heap that is
//! passed in.
//!
//! Addresses are plain numbers and `0` is the null address.

use crate::align::{
    align_up, is_power_of_two, lemma_align_up_is_multiple, lemma_single_bit_is_pow2, round_up,
};
use crate::block::{
    block_len, header_at, header_size, is_block, lemma_header_size, lemma_word_frame, read_header,
    write_header,
};
use crate::heap::{HeapBackend, HeapState};
use vstd::arithmetic::power2::is_pow2;
use vstd::prelude::*;

verus! {

/// The alignment of every block that `malloc`, `calloc` and `realloc` return.
pub const MALLOC_ALIGNMENT: usize = 16;

/// The status that reports an exhausted backend.
pub const ENOMEM: i32 = 12;

/// The status that reports an alignment that is no power of two or is smaller
/// than a pointer.
pub const EINVAL: i32 = 22;

/// An alignment that `posix_memalign` accepts.
pub open spec fn valid_alignment(alignment: usize) -> bool {
    is_pow2(alignment as int) && alignment >= header_size()
}

/// The number of bytes asked of the backend for a block of `size` bytes:
/// enough for the header and for the padding in front of it, wherever the
/// backend places the allocation.
pub open spec fn padded_size(alignment: usize, size: usize) -> int {
    size + alignment + header_size() - 1
}

/// What is asked of the backend for a block of `size` bytes at a multiple of
/// `alignment`: the padded size, or the status that refuses the request
/// before the backend hears of it.
pub open spec fn spec_backend_request(alignment: usize, size: usize) -> Result<usize, i32> {
    if !valid_alignment(alignment) {
        Err(EINVAL)
    } else if padded_size(alignment, size) > usize::MAX {
        Err(ENOMEM)
    } else {
        Ok(padded_size(alignment, size) as usize)
    }
}

/// Where the block lies in a backend allocation that starts at `base`: at
/// the first multiple of `alignment` that leaves room for the header.
pub open spec fn block_address(base: usize, alignment: usize) -> int {
    align_up(base + header_size(), alignment as int)
}

/// How a request for an aligned block will end: with the start of the backend
/// allocation that will hold it, or with the status that refuses it.
pub open spec fn request<H: HeapBackend>(heap: H, alignment: usize, size: usize) -> Result<
    usize,
    i32,
> {
    match spec_backend_request(alignment, size) {
        Ok(total) => match heap.placement(total) {
            Some(base) => Ok(base),
            None => Err(ENOMEM),
        },
        Err(status) => Err(status),
    }
}

/// `post` is `pre` with one more block: `ptr`, of at least `size` bytes, in a
/// new backend allocation that starts at `base`. The block is the first
/// aligned address with room for the header below it, and the header records
/// `base`. Nothing that was live before has changed.
pub open spec fn allocated(
    pre: HeapState,
    post: HeapState,
    base: usize,
    alignment: usize,
    size: usize,
    ptr: usize,
) -> bool {
    &&& !pre.blocks.contains_key(base)
    &&& post.blocks == pre.blocks.insert(base, post.blocks[base])
    &&& post.blocks[base] >= padded_size(alignment, size)
    &&& ptr == block_address(base, alignment)
    &&& header_at(post, ptr) == base
    &&& pre.live_bytes_kept(post)
}

/// `post` is `pre` after `ptr` was freed: nothing for the null address,
/// else without the backend allocation that held the block. Nothing that is
/// still live has changed.
pub open spec fn released(pre: HeapState, post: HeapState, ptr: usize) -> bool {
    if ptr == 0 {
        post == pre
    } else {
        &&& post.blocks == pre.blocks.remove(header_at(pre, ptr))
        &&& post.live_bytes_kept(pre)
    }
}

/// `post` is `pre` after the block at `old_ptr` moved to a new block at
/// `new_ptr`, of at least `size` bytes, in a new backend allocation that
/// starts at `base`. The new block begins with the bytes of the old one, as
/// many as both hold; the old backend allocation is gone; nothing else
/// that was live has changed.
pub open spec fn moved(
    pre: HeapState,
    post: HeapState,
    base: usize,
    old_ptr: usize,
    size: usize,
    new_ptr: usize,
) -> bool {
    let old_base = header_at(pre, old_ptr);
    let kept = if block_len(pre, old_ptr) < size {
        block_len(pre, old_ptr)
    } else {
        size as int
    };
    &&& !pre.blocks.contains_key(base)
    &&& post.blocks == pre.blocks.insert(base, post.blocks[base]).remove(old_base)
    &&& post.blocks[base] >= padded_size(MALLOC_ALIGNMENT, size)
    &&& new_ptr == block_address(base, MALLOC_ALIGNMENT)
    &&& header_at(post, new_ptr) == base
    &&& forall|at: int|
        new_ptr <= at < new_ptr + kept ==> post.bytes[at] == pre.bytes[at - new_ptr + old_ptr]
    &&& forall|b: usize, at: int|
        b != old_base && #[trigger] pre.in_block(b, at) ==> post.bytes[at] == pre.bytes[at]
}

/// What `malloc_usable_size` reports: nothing for the null address, else the
/// usable size of the backend allocation that holds the block.
pub open spec fn usable_size(heap: HeapState, ptr: usize) -> usize {
    if ptr == 0 {
        0
    } else {
        heap.blocks[header_at(heap, ptr)]
    }
}

/// What `malloc` does to the heap and returns: a new block of `size` bytes
/// at a multiple of `MALLOC_ALIGNMENT` where the backend serves the request,
/// else the null address and no change.
pub open spec fn malloc_outcome<H: HeapBackend>(
    pre: H,
    post: HeapState,
    size: usize,
    ptr: usize,
) -> bool {
    match request(pre, MALLOC_ALIGNMENT, size) {
        Ok(base) => allocated(pre@, post, base, MALLOC_ALIGNMENT, size, ptr),
        Err(_) => ptr == 0 && post == pre@,
    }
}

/// What `calloc` does to the heap and returns: a new block of `nmemb * size`
/// zero bytes at a multiple of `MALLOC_ALIGNMENT` where the backend serves
/// the request, else the null address and no change. A product that no
/// `usize` can hold is not served.
pub open spec fn calloc_outcome<H: HeapBackend>(
    pre: H,
    post: HeapState,
    nmemb: usize,
    size: usize,
    ptr: usize,
) -> bool {
    if nmemb * size > usize::MAX {
        ptr == 0 && post == pre@
    } else {
        let total = (nmemb * size) as usize;
        match request(pre, MALLOC_ALIGNMENT, total) {
            Ok(base) => {
                &&& allocated(pre@, post, base, MALLOC_ALIGNMENT, total, ptr)
                &&& forall|at: int| ptr <= at < ptr + total ==> post.bytes[at] == 0
            },
            Err(_) => ptr == 0 && post == pre@,
        }
    }
}

/// What `realloc` does to the heap and returns. For the null address it is
/// what `malloc` does. For a block and size `0` the block is freed and the
/// null address returned. Otherwise the block moves to a new one of `size`
/// bytes where the backend serves the request; where it does not, the null
/// address is returned and the block stays as it is.
pub open spec fn realloc_outcome<H: HeapBackend>(
    pre: H,
    post: HeapState,
    ptr: usize,
    size: usize,
    new_ptr: usize,
) -> bool {
    if ptr == 0 {
        malloc_outcome(pre, post, size, new_ptr)
    } else if size == 0 {
        new_ptr == 0 && released(pre@, post, ptr)
    } else {
        match request(pre, MALLOC_ALIGNMENT, size) {
            Ok(base) => moved(pre@, post, base, ptr, size, new_ptr),
            Err(_) => new_ptr == 0 && post == pre@,
        }
    }
}

/// `MALLOC_ALIGNMENT` is an alignment that `posix_memalign` accepts.
pub proof fn lemma_malloc_alignment_is_valid()
    ensures
        valid_alignment(MALLOC_ALIGNMENT),
{
    lemma_header_size();
    lemma_single_bit_is_pow2(MALLOC_ALIGNMENT);
    assert(16usize & 15usize == 0) by (bit_vector);
}

/// A block that was just allocated is aligned, is not null, can be freed, and
/// has the bytes that were asked for.
pub proof fn lemma_allocated_is_block(
    pre: HeapState,
    post: HeapState,
    base: usize,
    alignment: usize,
    size: usize,
    ptr: usize,
)
    requires
        post.wf(),
        valid_alignment(alignment),
        allocated(pre, post, base, alignment, size, ptr),
    ensures
        ptr != 0,
        ptr % alignment == 0,
        is_block(post, ptr),
        block_len(post, ptr) >= size,
        usable_size(post, ptr) >= size,
{
    reveal(is_pow2);
    lemma_align_up_is_multiple(base + header_size(), alignment as int);
}

/// A block that was valid before an allocation is valid after it, with the
/// same header and the same length.
pub proof fn lemma_allocated_keeps_block(
    pre: HeapState,
    post: HeapState,
    base: usize,
    alignment: usize,
    size: usize,
    ptr: usize,
    other: usize,
)
    requires
        allocated(pre, post, base, alignment, size, ptr),
        is_block(pre, other),
    ensures
        is_block(post, other),
        header_at(post, other) == header_at(pre, other),
        block_len(post, other) == block_len(pre, other),
{
    let owner = header_at(pre, other);
    assert forall|at: int| other - header_size() <= at < other implies pre.bytes[at]
        == post.bytes[at] by {
        assert(pre.in_block(owner, at));
    }
    lemma_word_frame(pre.bytes, post.bytes, other - header_size(), header_size() as nat);
}

/// Works out what to ask of the backend for a block of `size` bytes at a
/// multiple of `alignment`.
///
/// An alignment that is no power of two, or is smaller than a pointer, is
/// refused with `EINVAL`; a padded size that no `usize` can hold, with
/// `ENOMEM`.
#[verifier::when_used_as_spec(spec_backend_request)]
pub fn backend_request(alignment: usize, size: usize) -> (asked: Result<usize, i32>)
    ensures
        asked == spec_backend_request(alignment, size),
{
    let width = header_size();
    if !is_power_of_two(alignment) || alignment < width {
        return Err(EINVAL);
    }
    match size.checked_add(alignment) {
        Some(sum) => match sum.checked_add(width - 1) {
            Some(total) => Ok(total),
            None => Err(ENOMEM),
        },
        None => Err(ENOMEM),
    }
}

/// Finds the place of the block in a backend allocation that starts at
/// `base` and has room for the header and the padding.
pub fn place_block(base: usize, alignment: usize) -> (ptr: usize)
    requires
        valid_alignment(alignment),
        base + header_size() + alignment - 1 <= usize::MAX,
    ensures
        ptr == block_address(base, alignment),
        ptr % alignment == 0,
        base + header_size() <= ptr < base + header_size() + alignment,
{
    proof {
        lemma_align_up_is_multiple(base + header_size(), alignment as int);
    }
    round_up(base + header_size(), alignment)
}

/// Allocates a block of `size` bytes at a multiple of `alignment`.
///
/// On success the block is stored in `memptr` and the status is `0`. An
/// alignment that is no power of two, or is smaller than a pointer, is
/// refused with `EINVAL`; a request that the backend cannot serve, or whose
/// padded size no `usize` can hold, with `ENOMEM`. A refusal leaves `memptr`
/// and the heap as they were.
pub fn posix_memalign<H: HeapBackend>(
    heap: &mut H,
    memptr: &mut usize,
    alignment: usize,
    size: usize,
) -> (status: i32)
    requires
        old(heap).wf(),
    ensures
        final(heap).wf(),
        match request(*old(heap), alignment, size) {
            Ok(base) => status == 0 && allocated(
                old(heap)@,
                final(heap)@,
                base,
                alignment,
                size,
                *final(memptr),
            ),
            Err(code) => status == code && *final(memptr) == *old(memptr) && final(heap)@ == old(
                heap,
            )@,
        },
        status == 0 ==> {
            &&& *final(memptr) != 0
            &&& *final(memptr) % alignment == 0
            &&& is_block(final(heap)@, *final(memptr))
            &&& block_len(final(heap)@, *final(memptr)) >= size
            &&& usable_size(final(heap)@, *final(memptr)) >= size
        },
{
    let total = match backend_request(alignment, size) {
        Ok(total) => total,
        Err(status) => {
            return status;
        },
    };
    let base = heap.raw_alloc(total);
    if base == 0 {
        return ENOMEM;
    }
    let ghost mid = heap@;
    proof {
        heap.lemma_wf_view();
        assert(mid.blocks.contains_key(base));
    }
    let ptr = place_block(base, alignment);
    write_header(heap, ptr, base);
    *memptr = ptr;
    proof {
        heap.lemma_wf_view();
        let pre = old(heap)@;
        let post = heap@;
        assert forall|b: usize, at: int| #[trigger] pre.in_block(b, at) implies post.bytes[at]
            == pre.bytes[at] by {
            // The header lies in the new allocation, which shares no byte
            // with an older one.
            assert(mid.blocks.contains_key(b));
        }
        lemma_allocated_is_block(pre, post, base, alignment, size, ptr);
    }
    0
}

/// Frees the block at `ptr`, which is null or was allocated here and not
/// freed since. Freeing the null address does nothing.
pub fn free<H: HeapBackend>(heap: &mut H, ptr: usize)
    requires
        old(heap).wf(),
        ptr == 0 || is_block(old(heap)@, ptr),
    ensures
        final(heap).wf(),
        released(old(heap)@, final(heap)@, ptr),
{
    if ptr != 0 {
        let base = read_header(heap, ptr);
        heap.raw_free(base);
    }
}

/// Allocates a block of `size` bytes at a multiple of `MALLOC_ALIGNMENT`.
/// Returns the null address, and leaves the heap as it was, when the backend
/// cannot serve the request.
pub fn malloc<H: HeapBackend>(heap: &mut H, size: usize) -> (ptr: usize)
    requires
        old(heap).wf(),
    ensures
        final(heap).wf(),
        malloc_outcome(*old(heap), final(heap)@, size, ptr),
        ptr != 0 ==> {
            &&& ptr % MALLOC_ALIGNMENT == 0
            &&& is_block(final(heap)@, ptr)
            &&& block_len(final(heap)@, ptr) >= size
            &&& usable_size(final(heap)@, ptr) >= size
        },
{
    let mut ptr: usize = 0;
    let _ = posix_memalign(heap, &mut ptr, MALLOC_ALIGNMENT, size);
    proof {
        lemma_malloc_alignment_is_valid();
    }
    ptr
}

/// Sets the first `len` bytes of the block at `ptr` to zero.
fn zero_block<H: HeapBackend>(heap: &mut H, ptr: usize, len: usize)
    requires
        old(heap).wf(),
        is_block(old(heap)@, ptr),
        len <= block_len(old(heap)@, ptr),
    ensures
        final(heap).wf(),
        final(heap)@.blocks == old(heap)@.blocks,
        forall|at: int|
            final(heap)@.bytes[at] == if ptr <= at < ptr + len {
                0
            } else {
                old(heap)@.bytes[at]
            },
{
    let ghost owner = header_at(heap@, ptr);
    proof {
        heap.lemma_wf_view();
    }
    let mut i: usize = 0;
    while i < len
        invariant
            i <= len,
            heap.wf(),
            heap@.blocks == old(heap)@.blocks,
            heap@.blocks.contains_key(owner),
            owner <= ptr,
            ptr + len <= owner + heap@.blocks[owner] <= usize::MAX,
            forall|at: int|
                heap@.bytes[at] == if ptr <= at < ptr + i {
                    0
                } else {
                    old(heap)@.bytes[at]
                },
        decreases len - i,
    {
        assert(heap@.in_block(owner, ptr + i));
        heap.write_byte(ptr + i, 0);
        i += 1;
    }
}

/// Allocates a block of `nmemb * size` bytes at a multiple of
/// `MALLOC_ALIGNMENT` and fills it with zeros. Returns the null address, and
/// leaves the heap as it was, when the product overflows or the backend
/// cannot serve the request.
pub fn calloc<H: HeapBackend>(heap: &mut H, nmemb: usize, size: usize) -> (ptr: usize)
    requires
        old(heap).wf(),
    ensures
        final(heap).wf(),
        calloc_outcome(*old(heap), final(heap)@, nmemb, size, ptr),
        ptr != 0 ==> {
            &&& ptr % MALLOC_ALIGNMENT == 0
            &&& is_block(final(heap)@, ptr)
            &&& block_len(final(heap)@, ptr) >= nmemb * size
            &&& usable_size(final(heap)@, ptr) >= nmemb * size
        },
{
    let total = match nmemb.checked_mul(size) {
        Some(total) => total,
        None => {
            return 0;
        },
    };
    let ptr = malloc(heap, total);
    if ptr != 0 {
        let ghost mid = heap@;
        zero_block(heap, ptr, total);
        proof {
            heap.lemma_wf_view();
            let pre = old(heap)@;
            let post = heap@;
            // The header lies below the bytes that were cleared.
            lemma_word_frame(mid.bytes, post.bytes, ptr - header_size(), header_size() as nat);
            assert forall|b: usize, at: int| #[trigger] pre.in_block(b, at) implies post.bytes[at]
                == pre.bytes[at] by {
                // The bytes that were cleared lie in the new allocation,
                // which shares no byte with an older one.
                assert(mid.blocks.contains_key(b));
            }
        }
    }
    ptr
}

/// Copies the first `len` bytes of the block at `src` to the block at `dst`,
/// which lies in another backend allocation.
fn copy_block<H: HeapBackend>(heap: &mut H, src: usize, dst: usize, len: usize)
    requires
        old(heap).wf(),
        is_block(old(heap)@, src),
        is_block(old(heap)@, dst),
        header_at(old(heap)@, src) != header_at(old(heap)@, dst),
        len <= block_len(old(heap)@, src),
        len <= block_len(old(heap)@, dst),
    ensures
        final(heap).wf(),
        final(heap)@.blocks == old(heap)@.blocks,
        forall|at: int|
            final(heap)@.bytes[at] == if dst <= at < dst + len {
                old(heap)@.bytes[at - dst + src]
            } else {
                old(heap)@.bytes[at]
            },
{
    let ghost from = header_at(heap@, src);
    let ghost to = header_at(heap@, dst);
    proof {
        heap.lemma_wf_view();
    }
    let mut i: usize = 0;
    while i < len
        invariant
            i <= len,
            heap.wf(),
            heap@.blocks == old(heap)@.blocks,
            heap@.blocks.contains_key(from),
            heap@.blocks.contains_key(to),
            from <= src,
            src + len <= from + heap@.blocks[from] <= usize::MAX,
            to <= dst,
            dst + len <= to + heap@.blocks[to] <= usize::MAX,
            from + heap@.blocks[from] <= to || to + heap@.blocks[to] <= from,
            forall|at: int|
                heap@.bytes[at] == if dst <= at < dst + i {
                    old(heap)@.bytes[at - dst + src]
                } else {
                    old(heap)@.bytes[at]
                },
        decreases len - i,
    {
        assert(heap@.in_block(from, src + i));
        assert(heap@.in_block(to, dst + i));
        let byte = heap.read_byte(src + i);
        heap.write_byte(dst + i, byte);
        i += 1;
    }
}

/// Resizes the block at `ptr`, which is null or was allocated here and not
/// freed since, to `size` bytes.
///
/// The null address is resized by allocating. A block resized to `0` bytes
/// is freed, and the null address returned. Any other block is moved: a new
/// block is allocated, the old bytes are copied as far as both blocks reach,
/// and the old block is freed. If the new block cannot be had, the null
/// address is returned and the old block stays valid and unchanged.
pub fn realloc<H: HeapBackend>(heap: &mut H, ptr: usize, size: usize) -> (new_ptr: usize)
    requires
        old(heap).wf(),
        ptr == 0 || is_block(old(heap)@, ptr),
    ensures
        final(heap).wf(),
        realloc_outcome(*old(heap), final(heap)@, ptr, size, new_ptr),
        new_ptr != 0 ==> {
            &&& new_ptr % MALLOC_ALIGNMENT == 0
            &&& is_block(final(heap)@, new_ptr)
            &&& block_len(final(heap)@, new_ptr) >= size
            &&& usable_size(final(heap)@, new_ptr) >= size
        },
{
    if ptr == 0 {
        return malloc(heap, size);
    }
    if size == 0 {
        free(heap, ptr);
        return 0;
    }
    let new_ptr = malloc(heap, size);
    if new_ptr != 0 {
        let ghost pre = old(heap)@;
        let ghost mid = heap@;
        let ghost base = header_at(mid, new_ptr);
        let ghost old_base = header_at(pre, ptr);
        proof {
            heap.lemma_wf_view();
            lemma_allocated_keeps_block(pre, mid, base, MALLOC_ALIGNMENT, size, new_ptr, ptr);
        }
        let owner = read_header(heap, ptr);
        let old_len = heap.raw_size(owner) - (ptr - owner);
        let copy_len = if old_len < size {
            old_len
        } else {
            size
        };
        copy_block(heap, ptr, new_ptr, copy_len);
        let ghost copied = heap@;
        proof {
            // Both headers lie outside the bytes that were copied to.
            lemma_word_frame(mid.bytes, copied.bytes, ptr - header_size(), header_size() as nat);
            lemma_word_frame(
                mid.bytes,
                copied.bytes,
                new_ptr - header_size(),
                header_size() as nat,
            );
        }
        free(heap, ptr);
        proof {
            let post = heap@;
            assert forall|at: int| new_ptr - header_size() <= at < new_ptr implies copied.bytes[at]
                == post.bytes[at] by {
                assert(post.in_block(base, at));
            }
            lemma_word_frame(
                copied.bytes,
                post.bytes,
                new_ptr - header_size(),
                header_size() as nat,
            );
            assert forall|at: int| new_ptr <= at < new_ptr + copy_len implies post.bytes[at]
                == pre.bytes[at - new_ptr + ptr] by {
                assert(post.in_block(base, at));
                assert(pre.in_block(old_base, at - new_ptr + ptr));
            }
            assert forall|b: usize, at: int|
                b != old_base && #[trigger] pre.in_block(b, at) implies post.bytes[at]
                == pre.bytes[at] by {
                assert(post.in_block(b, at));
            }
        }
    }
    new_ptr
}

/// The usable size of the backend allocation that holds the block at `ptr`,
/// which is null or was allocated here and not freed since; `0` for the null
/// address. It is never below the size that the block was allocated with.
pub fn malloc_usable_size<H: HeapBackend>(heap: &H, ptr: usize) -> (size: usize)
    requires
        heap.wf(),
        ptr == 0 || is_block(heap@, ptr),
    ensures
        size == usable_size(heap@, ptr),
{
    if ptr == 0 {
        return 0;
    }
    let base = read_header(heap, ptr);
    heap.raw_size(base)
}

} // verus!
