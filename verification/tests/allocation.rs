use aligned_malloc::allocator::{backend_request, place_block};
use aligned_malloc::arena::POISON;
use aligned_malloc::block::header_size;
use aligned_malloc::{
    calloc, free, malloc, malloc_usable_size, posix_memalign, Arena, HeapBackend, EINVAL, ENOMEM,
    MALLOC_ALIGNMENT,
};

fn arena(origin: usize, capacity: usize) -> Arena {
    match Arena::new(origin, capacity) {
        Some(arena) => arena,
        None => panic!("no arena at {} of {} bytes", origin, capacity),
    }
}

fn header_word(heap: &Arena, ptr: usize) -> usize {
    let width = header_size();
    let mut word = 0usize;
    let mut i = width;
    while i > 0 {
        i -= 1;
        word = word * 256 + heap.read_byte(ptr - width + i) as usize;
    }
    word
}

#[test]
fn malloc_returns_aligned_blocks_for_every_size() {
    for origin in [1usize, 8, 16, 24, 4096, 4099] {
        let mut heap = arena(origin, 1 << 16);
        for size in 0usize..200 {
            let ptr = malloc(&mut heap, size);
            assert_ne!(ptr, 0);
            assert_eq!(ptr % MALLOC_ALIGNMENT, 0);
        }
    }
}

#[test]
fn malloc_on_an_exhausted_heap_returns_null() {
    let mut heap = arena(8, 16);
    assert_eq!(malloc(&mut heap, 1), 0);
    assert_eq!(heap.live_count(), 0);
    assert_eq!(heap.remaining(), 16);
}

#[test]
fn malloc_places_the_block_at_the_first_aligned_address_above_the_header() {
    if header_size() != 8 {
        return;
    }
    let mut heap = arena(8, 1024);
    // The backend allocation starts at 8; the header takes 8 bytes.
    let first = malloc(&mut heap, 1);
    assert_eq!(first, 16);
    assert_eq!(header_word(&heap, first), 8);
    // 1 + 16 + 8 - 1 = 24 bytes were asked for, and the arena granted 32.
    assert_eq!(malloc_usable_size(&heap, first), 32);
    assert_eq!(heap.remaining(), 1024 - 32);
    // The next backend allocation starts at 40.
    let second = malloc(&mut heap, 100);
    assert_eq!(second, 48);
    assert_eq!(header_word(&heap, second), 40);
    // 100 + 16 + 8 - 1 = 123 bytes, granted as 128.
    assert_eq!(malloc_usable_size(&heap, second), 128);
}

#[test]
fn malloc_from_an_aligned_backend_address_still_leaves_room_for_the_header() {
    let mut heap = arena(16, 1024);
    let ptr = malloc(&mut heap, 1);
    assert_eq!(ptr, 32);
    assert_eq!(header_word(&heap, ptr), 16);
}

#[test]
fn malloc_asks_the_backend_for_no_more_than_the_padded_size() {
    if header_size() != 8 {
        return;
    }
    // A block of 8 bytes needs 8 + 16 + 8 - 1 = 31 bytes, which the arena
    // grants as 32. One byte more would take 40.
    let mut fits = arena(8, 32);
    assert_eq!(malloc(&mut fits, 8), 16);
    assert_eq!(fits.remaining(), 0);
    let mut short = arena(8, 31);
    assert_eq!(malloc(&mut short, 8), 0);
    let mut next = arena(8, 32);
    assert_eq!(malloc(&mut next, 9), 0);
}

#[test]
fn free_of_a_fresh_block_gives_the_allocation_back() {
    for size in [0usize, 1, 15, 16, 17, 255, 4096] {
        let mut heap = arena(8, 1 << 14);
        let ptr = malloc(&mut heap, size);
        assert_ne!(ptr, 0);
        assert_eq!(heap.live_count(), 1);
        free(&mut heap, ptr);
        assert_eq!(heap.live_count(), 0);
    }
}

#[test]
fn free_of_null_does_nothing() {
    let mut heap = arena(8, 256);
    let ptr = malloc(&mut heap, 10);
    let room = heap.remaining();
    free(&mut heap, 0);
    assert_eq!(heap.live_count(), 1);
    assert_eq!(heap.remaining(), room);
    assert!(malloc_usable_size(&heap, ptr) >= 10);
}

#[test]
fn free_releases_the_block_it_is_given_and_no_other() {
    let mut heap = arena(8, 1024);
    let a = malloc(&mut heap, 10);
    let b = malloc(&mut heap, 20);
    let c = malloc(&mut heap, 30);
    heap.write_byte(a, 1);
    heap.write_byte(c, 3);
    free(&mut heap, b);
    assert_eq!(heap.live_count(), 2);
    assert_eq!(heap.read_byte(a), 1);
    assert_eq!(heap.read_byte(c), 3);
    assert!(malloc_usable_size(&heap, a) >= 10);
    assert!(malloc_usable_size(&heap, c) >= 30);
    free(&mut heap, a);
    free(&mut heap, c);
    assert_eq!(heap.live_count(), 0);
}

#[test]
fn one_byte_block_can_be_written_and_freed() {
    let mut heap = arena(8, 256);
    let ptr = malloc(&mut heap, 1);
    assert_ne!(ptr, 0);
    assert_eq!(ptr % 16, 0);
    heap.write_byte(ptr, 0x5a);
    assert_eq!(heap.read_byte(ptr), 0x5a);
    free(&mut heap, ptr);
    assert_eq!(heap.live_count(), 0);
}

#[test]
fn usable_size_of_null_is_zero() {
    let heap = arena(8, 256);
    assert_eq!(malloc_usable_size(&heap, 0), 0);
}

#[test]
fn usable_size_covers_the_request() {
    let mut heap = arena(24, 1 << 16);
    for size in 0usize..150 {
        let ptr = malloc(&mut heap, size);
        assert!(malloc_usable_size(&heap, ptr) >= size);
    }
}

#[test]
fn usable_size_is_what_the_backend_reports() {
    let mut heap = arena(8, 1024);
    let ptr = malloc(&mut heap, 50);
    let base = header_word(&heap, ptr);
    assert_eq!(malloc_usable_size(&heap, ptr), heap.raw_size(base));
}

#[test]
fn calloc_returns_zero_bytes_on_poisoned_memory() {
    let mut heap = arena(8, 256);
    let ptr = calloc(&mut heap, 4, 4);
    assert_ne!(ptr, 0);
    assert_eq!(ptr % MALLOC_ALIGNMENT, 0);
    for i in 0..16 {
        assert_eq!(heap.read_byte(ptr + i), 0);
    }
    // Exactly 16 bytes were cleared.
    assert_eq!(heap.read_byte(ptr + 16), POISON);
}

#[test]
fn malloc_leaves_the_block_as_the_backend_gave_it() {
    let mut heap = arena(8, 256);
    let ptr = malloc(&mut heap, 16);
    for i in 0..16 {
        assert_eq!(heap.read_byte(ptr + i), POISON);
    }
}

#[test]
fn calloc_of_nothing_returns_a_block() {
    let mut heap = arena(8, 256);
    let a = calloc(&mut heap, 0, 8);
    let b = calloc(&mut heap, 8, 0);
    assert_ne!(a, 0);
    assert_ne!(b, 0);
    assert_ne!(a, b);
    assert_eq!(heap.live_count(), 2);
}

#[test]
fn calloc_refuses_a_product_that_overflows() {
    let mut heap = arena(8, 256);
    assert_eq!(calloc(&mut heap, usize::MAX, 2), 0);
    assert_eq!(calloc(&mut heap, usize::MAX / 2 + 1, 2), 0);
    assert_eq!(heap.live_count(), 0);
    assert_eq!(heap.remaining(), 256);
}

#[test]
fn calloc_on_an_exhausted_heap_returns_null() {
    let mut heap = arena(8, 32);
    assert_eq!(calloc(&mut heap, 8, 8), 0);
    assert_eq!(heap.live_count(), 0);
}

#[test]
fn posix_memalign_aligns_to_what_is_asked() {
    for alignment in [8usize, 16, 32, 64, 256, 4096] {
        if alignment < header_size() {
            continue;
        }
        let mut heap = arena(8, 1 << 14);
        let mut ptr = 0usize;
        let status = posix_memalign(&mut heap, &mut ptr, alignment, 100);
        assert_eq!(status, 0);
        assert_ne!(ptr, 0);
        assert_eq!(ptr % alignment, 0);
        assert_eq!(header_word(&heap, ptr), 8);
        assert!(ptr < 8 + header_size() + alignment);
        assert!(malloc_usable_size(&heap, ptr) >= 100);
        free(&mut heap, ptr);
        assert_eq!(heap.live_count(), 0);
    }
}

#[test]
fn posix_memalign_reports_exhaustion_and_keeps_the_output() {
    let mut heap = arena(8, 64);
    let mut ptr = 0xdead0usize;
    let status = posix_memalign(&mut heap, &mut ptr, 16, 1000);
    assert_eq!(status, 12);
    assert_eq!(status, ENOMEM);
    assert_eq!(ptr, 0xdead0);
    assert_eq!(heap.live_count(), 0);
    assert_eq!(heap.remaining(), 64);
}

#[test]
fn posix_memalign_refuses_a_size_that_cannot_be_padded() {
    let mut heap = arena(8, 64);
    let mut ptr = 7usize;
    assert_eq!(posix_memalign(&mut heap, &mut ptr, 16, usize::MAX), ENOMEM);
    assert_eq!(posix_memalign(&mut heap, &mut ptr, 16, usize::MAX - 16), ENOMEM);
    assert_eq!(posix_memalign(&mut heap, &mut ptr, 16, usize::MAX - 22), ENOMEM);
    assert_eq!(ptr, 7);
}

#[test]
fn posix_memalign_refuses_a_bad_alignment() {
    let mut heap = arena(8, 1024);
    let mut ptr = 7usize;
    for alignment in [0usize, 1, 2, 3, 12, 24, 48, 100, usize::MAX] {
        assert_eq!(posix_memalign(&mut heap, &mut ptr, alignment, 8), EINVAL);
        assert_eq!(ptr, 7);
        assert_eq!(heap.live_count(), 0);
    }
    assert_eq!(EINVAL, 22);
}

#[test]
fn posix_memalign_accepts_the_size_of_a_pointer_as_alignment() {
    let mut heap = arena(1, 1024);
    let mut ptr = 0usize;
    let width = header_size();
    assert_eq!(posix_memalign(&mut heap, &mut ptr, width, 8), 0);
    assert_eq!(ptr % width, 0);
    assert_eq!(ptr, 2 * width);
    if width > 1 {
        assert_eq!(posix_memalign(&mut heap, &mut ptr, width / 2, 8), EINVAL);
    }
}

#[test]
fn blocks_do_not_overlap() {
    let mut heap = arena(8, 1 << 12);
    let sizes = [1usize, 16, 33, 7, 64];
    let mut blocks = vec![];
    for (k, size) in sizes.iter().enumerate() {
        let ptr = malloc(&mut heap, *size);
        assert_ne!(ptr, 0);
        for i in 0..*size {
            heap.write_byte(ptr + i, k as u8 + 1);
        }
        blocks.push(ptr);
    }
    for (k, size) in sizes.iter().enumerate() {
        for i in 0..*size {
            assert_eq!(heap.read_byte(blocks[k] + i), k as u8 + 1);
        }
    }
    for ptr in blocks {
        free(&mut heap, ptr);
    }
    assert_eq!(heap.live_count(), 0);
}

#[test]
fn backend_is_asked_for_size_plus_alignment_plus_header_less_one() {
    if header_size() != 8 {
        return;
    }
    assert_eq!(backend_request(16, 0), Ok(23));
    assert_eq!(backend_request(16, 1), Ok(24));
    assert_eq!(backend_request(8, 100), Ok(115));
    assert_eq!(backend_request(4096, 10), Ok(4113));
    assert_eq!(backend_request(16, usize::MAX - 23), Ok(usize::MAX));
}

#[test]
fn backend_is_not_asked_for_what_cannot_be_had() {
    assert_eq!(backend_request(16, usize::MAX), Err(ENOMEM));
    assert_eq!(backend_request(16, usize::MAX - 15), Err(ENOMEM));
    assert_eq!(backend_request(16, usize::MAX - 16), Err(ENOMEM));
    assert_eq!(backend_request(usize::MAX / 2 + 1, usize::MAX / 2 + 1), Err(ENOMEM));
    assert_eq!(backend_request(0, 8), Err(EINVAL));
    assert_eq!(backend_request(3, 8), Err(EINVAL));
    assert_eq!(backend_request(24, 8), Err(EINVAL));
    assert_eq!(backend_request(header_size() / 2, 8), Err(EINVAL));
    assert_eq!(backend_request(3, usize::MAX), Err(EINVAL));
}

#[test]
fn block_is_placed_at_the_first_multiple_above_the_header() {
    if header_size() != 8 {
        return;
    }
    assert_eq!(place_block(8, 16), 16);
    assert_eq!(place_block(9, 16), 32);
    assert_eq!(place_block(16, 16), 32);
    assert_eq!(place_block(24, 16), 32);
    assert_eq!(place_block(1, 8), 16);
    assert_eq!(place_block(8, 8), 16);
    assert_eq!(place_block(0x1000, 4096), 0x2000);
    assert_eq!(place_block(0x0ff8, 4096), 0x1000);
    assert_eq!(place_block(0x0ff9, 4096), 0x2000);
}
