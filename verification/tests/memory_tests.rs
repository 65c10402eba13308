use rust_kernel::frame_alloc::AreaFrameAllocator;
use rust_kernel::frame_alloc::BootInfoError;
use rust_kernel::frame_alloc::Frame;
use rust_kernel::frame_alloc::FrameAllocError;
use rust_kernel::frame_alloc::MemoryMap;
use rust_kernel::heap::HeapAllocator;
use rust_kernel::heap::HeapInitError;
use rust_kernel::paging::MapError;
use rust_kernel::paging::Page;
use rust_kernel::paging::PageFlags;
use rust_kernel::paging::PageTable;
use rust_kernel::paging::map_page;

fn map_of(regions: Vec<(u64, u64, bool)>) -> MemoryMap {
    MemoryMap::from_raw(&regions).expect("valid region list")
}

// A memory map with one usable region of exactly two frames: the first two
// allocations succeed, the third reports exhaustion.
#[test]
fn two_frame_region_exhausts() {
    let map = map_of(vec![(0, 2, true)]);
    let mut allocator = AreaFrameAllocator::new(&map);
    assert_eq!(allocator.allocate_frame(), Some(Frame { number: 0 }));
    assert_eq!(allocator.allocate_frame(), Some(Frame { number: 1 }));
    assert_eq!(allocator.allocate_frame(), None);
}

// Every returned frame is unique and comes from a usable region; reserved
// regions are never touched.
#[test]
fn frames_unique_and_usable() {
    let map = map_of(vec![(10, 12, true), (15, 16, false), (20, 21, true)]);
    let mut allocator = AreaFrameAllocator::new(&map);
    let a = allocator.allocate_frame().unwrap();
    let b = allocator.allocate_frame().unwrap();
    let c = allocator.allocate_frame().unwrap();
    assert_eq!(a, Frame { number: 10 });
    assert_eq!(b, Frame { number: 11 });
    assert_eq!(c, Frame { number: 20 });
    assert_ne!(a, b);
    assert_ne!(b, c);
    assert_ne!(a, c);
    assert_eq!(allocator.allocate_frame(), None);
}

// Exhaustion is reported exactly when the sum of remaining usable frames is
// zero: empty usable regions and reserved regions count for nothing.
#[test]
fn exhaustion_iff_no_usable_frames() {
    let map = map_of(vec![(5, 5, true), (8, 40, false)]);
    let mut allocator = AreaFrameAllocator::new(&map);
    assert_eq!(allocator.allocate_frame(), None);
}

#[test]
fn deallocate_frame_is_refused() {
    let map = map_of(vec![(0, 4, true)]);
    let mut allocator = AreaFrameAllocator::new(&map);
    let frame = allocator.allocate_frame().unwrap();
    assert_eq!(
        allocator.deallocate_frame(frame),
        Err(FrameAllocError::DeallocateUnsupported)
    );
}

#[test]
fn boot_info_inverted_region_rejected() {
    assert_eq!(
        MemoryMap::from_raw(&vec![(3, 2, true)]).err(),
        Some(BootInfoError::InvertedRegion)
    );
}

#[test]
fn boot_info_overlapping_regions_rejected() {
    assert_eq!(
        MemoryMap::from_raw(&vec![(0, 5, true), (3, 8, false)]).err(),
        Some(BootInfoError::OverlappingRegions)
    );
}

#[test]
fn frame_start_address() {
    assert_eq!(Frame { number: 2 }.start_address(), 8192);
}

#[test]
fn has_usable_frames_counts_only_usable() {
    let map = map_of(vec![(0, 3, true), (10, 20, false), (30, 32, true)]);
    assert!(map.has_usable_frames(5));
    assert!(!map.has_usable_frames(6));
}

// After a successful map, translating the page yields exactly the frame
// that was allocated for it and the requested flags.
#[test]
fn map_then_translate() {
    let map = map_of(vec![(7, 8, true)]);
    let mut allocator = AreaFrameAllocator::new(&map);
    let mut table = PageTable::new();
    let flags = PageFlags { writable: true, no_execute: false };
    let page = Page { number: 42 };
    let frame = map_page(page, flags, &mut table, &mut allocator).expect("mapping succeeds");
    assert_eq!(frame, Frame { number: 7 });
    assert_eq!(table.translate_page(page), Some((frame, flags)));
    assert_eq!(table.translate_page(Page { number: 43 }), None);
}

// Mapping the same page twice without an intervening unmap is rejected and
// the existing mapping stays exactly as it was.
#[test]
fn double_map_rejected() {
    let map = map_of(vec![(0, 8, true)]);
    let mut allocator = AreaFrameAllocator::new(&map);
    let mut table = PageTable::new();
    let flags = PageFlags { writable: true, no_execute: true };
    let page = Page { number: 9 };
    let frame = map_page(page, flags, &mut table, &mut allocator).unwrap();
    let again = map_page(page, PageFlags { writable: false, no_execute: false }, &mut table, &mut allocator);
    assert_eq!(again, Err(MapError::PageAlreadyMapped));
    assert_eq!(table.translate_page(page), Some((frame, flags)));
}

// Frame exhaustion propagates out of the page mapper.
#[test]
fn map_fails_when_frames_exhausted() {
    let map = map_of(vec![(0, 1, true)]);
    let mut allocator = AreaFrameAllocator::new(&map);
    let mut table = PageTable::new();
    let flags = PageFlags { writable: true, no_execute: true };
    map_page(Page { number: 1 }, flags, &mut table, &mut allocator).unwrap();
    assert_eq!(
        map_page(Page { number: 2 }, flags, &mut table, &mut allocator),
        Err(MapError::FrameAllocationFailed)
    );
}

// Before init every allocation request fails; allocate(64, 8) pre-init is
// unavailable.
#[test]
fn heap_allocate_before_init_fails() {
    let mut heap = HeapAllocator::new();
    assert!(!heap.get_status());
    assert_eq!(heap.allocate(64, 8), None);
}

#[test]
fn heap_double_init_rejected() {
    let mut heap = HeapAllocator::new();
    assert_eq!(heap.init(4096, 1024), Ok(()));
    assert!(heap.get_status());
    assert_eq!(heap.init(4096, 1024), Err(HeapInitError::AlreadyInitialized));
}

// A heap of 1024 bytes: 600 bytes fit, 600 more do not, freeing the first
// block makes 600 fit again, proving the freed block merges with its
// neighbor.
#[test]
fn heap_coalescing_reuse() {
    let mut heap = HeapAllocator::new();
    heap.init(4096, 1024).unwrap();
    let first = heap.allocate(600, 1).expect("first allocation fits");
    assert_eq!(first, 4096);
    assert_eq!(heap.allocate(600, 1), None);
    heap.deallocate(first, 600, 1);
    assert_eq!(heap.allocate(600, 1), Some(4096));
}

// Live allocations never overlap.
#[test]
fn heap_allocations_disjoint() {
    let mut heap = HeapAllocator::new();
    heap.init(0, 256).unwrap();
    let a = heap.allocate(64, 1).unwrap();
    let b = heap.allocate(64, 1).unwrap();
    let c = heap.allocate(64, 1).unwrap();
    assert!(a + 64 <= b || b + 64 <= a);
    assert!(b + 64 <= c || c + 64 <= b);
    assert!(a + 64 <= c || c + 64 <= a);
}

// The returned address honors the requested alignment, splitting the
// misaligned front back into the free list.
#[test]
fn heap_alignment_respected() {
    let mut heap = HeapAllocator::new();
    heap.init(4097, 256).unwrap();
    let a = heap.allocate(16, 8).unwrap();
    assert_eq!(a % 8, 0);
    assert_eq!(a, 4104);
    // the 7 bytes in front of the aligned block are still usable
    assert_eq!(heap.allocate(7, 1), Some(4097));
}

// First fit: the first block in list order with room serves the request,
// and a freed block is reusable once the others are exhausted.
#[test]
fn heap_first_fit() {
    let mut heap = HeapAllocator::new();
    heap.init(1000, 100).unwrap();
    let a = heap.allocate(10, 1).unwrap();
    let b = heap.allocate(10, 1).unwrap();
    assert_eq!((a, b), (1000, 1010));
    heap.deallocate(a, 10, 1);
    // the remaining tail block comes first in the list and serves first
    assert_eq!(heap.allocate(80, 1), Some(1020));
    // with the tail gone, the freed front block serves the next request
    assert_eq!(heap.allocate(10, 1), Some(1000));
    assert_eq!(heap.allocate(1, 1), None);
}
