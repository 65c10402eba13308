use rust_kernel::boot;
use rust_kernel::boot::BootError;
use rust_kernel::frame_alloc::AreaFrameAllocator;
use rust_kernel::frame_alloc::BootInfoError;
use rust_kernel::frame_alloc::MemoryMap;
use rust_kernel::frame_alloc::PAGE_SIZE;
use rust_kernel::context::Context;
use rust_kernel::context::RFLAGS_INTERRUPT_FLAG;
use rust_kernel::interrupts::InterruptFlags;
use rust_kernel::interrupts::interrupts_enabled;
use rust_kernel::memory;
use rust_kernel::memory::HEAP_SIZE;
use rust_kernel::memory::HEAP_START;
use rust_kernel::memory::InitOnce;
use rust_kernel::memory::MemoryInitError;
use rust_kernel::paging::Page;
use rust_kernel::paging::PageFlags;
use rust_kernel::paging::PageTable;
use rust_kernel::paging::map_page;
use rust_kernel::rust_oom;
use rust_kernel::time::Time;

const HEAP_PAGES: u64 = HEAP_SIZE / PAGE_SIZE;
const FIRST_HEAP_PAGE: u64 = HEAP_START / PAGE_SIZE;

fn ample_regions() -> Vec<(u64, u64, bool)> {
    // more than enough frames for the heap and a few stacks
    vec![(16, 16 + HEAP_PAGES + 64, true)]
}

#[test]
fn boot_initializes_kernel() {
    let mut once = InitOnce::new();
    let mut flags = InterruptFlags::booted();
    let regions = ample_regions();
    let kernel = boot::init(&mut once, &regions, PageTable::new(), 0x8000, &mut flags)
        .expect("boot succeeds");
    // interrupts are enabled only at the end of the sequence
    assert!(interrupts_enabled(&flags));
    // the first and last heap pages translate to frames, writable
    let first = kernel
        .controller
        .translate_page(Page { number: FIRST_HEAP_PAGE })
        .expect("first heap page mapped");
    assert_eq!(first.1, PageFlags { writable: true, no_execute: true });
    let last = kernel
        .controller
        .translate_page(Page { number: FIRST_HEAP_PAGE + HEAP_PAGES - 1 })
        .expect("last heap page mapped");
    assert_eq!(last.1, PageFlags { writable: true, no_execute: true });
    // beyond the heap nothing is mapped yet
    assert!(kernel
        .controller
        .translate_page(Page { number: FIRST_HEAP_PAGE + HEAP_PAGES })
        .is_none());
    // the heap allocator is live behind its lock
    let mut heap = kernel.heap;
    let guard = heap.lock(&mut flags);
    assert!(!interrupts_enabled(&flags));
    let allocated = heap.borrow_mut(&guard).allocate(600, 8).expect("heap serves requests");
    assert_eq!(allocated as u64 % 8, 0);
    assert!(allocated as u64 >= HEAP_START);
    heap.borrow_mut(&guard).deallocate(allocated, 600, 8);
    heap.unlock(guard, &mut flags);
    assert!(interrupts_enabled(&flags));
}

#[test]
fn boot_rejects_bad_boot_info() {
    let mut once = InitOnce::new();
    let mut flags = InterruptFlags::booted();
    let regions = vec![(8, 4, true)];
    let result = boot::init(&mut once, &regions, PageTable::new(), 0x8000, &mut flags);
    assert_eq!(
        result.err(),
        Some(BootError::BadBootInfo(BootInfoError::InvertedRegion))
    );
    assert!(!interrupts_enabled(&flags));
}

#[test]
fn boot_rejects_fault_stack_out_of_range() {
    let mut once = InitOnce::new();
    let mut flags = InterruptFlags::booted();
    let regions = ample_regions();
    let result = boot::init(&mut once, &regions, PageTable::new(), u64::MAX - 100, &mut flags);
    assert_eq!(result.err(), Some(BootError::FaultStackOutOfRange));
}

#[test]
fn boot_rejects_exhausted_map() {
    let mut once = InitOnce::new();
    let mut flags = InterruptFlags::booted();
    let regions = vec![(16, 24, true)];
    let result = boot::init(&mut once, &regions, PageTable::new(), 0x8000, &mut flags);
    assert_eq!(result.err(), Some(BootError::OutOfFrames));
}

#[test]
fn boot_rejects_premapped_heap_page() {
    let mut once = InitOnce::new();
    let mut flags = InterruptFlags::booted();
    let regions = ample_regions();
    // hand over a page table that already maps a heap page
    let mut table = PageTable::new();
    let map = MemoryMap::from_raw(&vec![(0, 1, true)]).unwrap();
    let mut small = AreaFrameAllocator::new(&map);
    let flags_value = PageFlags { writable: true, no_execute: true };
    map_page(Page { number: FIRST_HEAP_PAGE }, flags_value, &mut table, &mut small).unwrap();
    let result = boot::init(&mut once, &regions, table, 0x8000, &mut flags);
    assert_eq!(result.err(), Some(BootError::RegionAlreadyMapped));
}

#[test]
fn memory_init_runs_exactly_once() {
    let mut once = InitOnce::new();
    let map = MemoryMap::from_raw(&ample_regions()).unwrap();
    let controller = memory::init(&mut once, &map, PageTable::new());
    assert!(controller.is_ok());
    let again = memory::init(&mut once, &map, PageTable::new());
    assert_eq!(again.err(), Some(MemoryInitError::AlreadyInitialized));
}

#[test]
fn alloc_stack_leaves_guard_page_unmapped() {
    let mut once = InitOnce::new();
    let map = MemoryMap::from_raw(&ample_regions()).unwrap();
    let mut controller = memory::init(&mut once, &map, PageTable::new()).unwrap();
    let stack = controller.alloc_stack(2).expect("stack fits in the region");
    let guard_page = FIRST_HEAP_PAGE + HEAP_PAGES;
    let stack_bottom_page = guard_page + 1;
    assert_eq!(stack.bottom, stack_bottom_page * PAGE_SIZE);
    assert_eq!(stack.top, stack.bottom + 2 * PAGE_SIZE);
    // the guard page below the stack is not mapped
    assert!(controller.translate_page(Page { number: guard_page }).is_none());
    // the stack pages are mapped writable
    let mapped = controller
        .translate_page(Page { number: stack_bottom_page })
        .expect("stack page mapped");
    assert!(mapped.1.writable);
    // a second stack starts above the first, with its own guard page
    let second = controller.alloc_stack(2).expect("second stack fits");
    assert_eq!(second.bottom, stack.top + PAGE_SIZE);
}

#[test]
fn alloc_stack_zero_pages_fails() {
    let mut once = InitOnce::new();
    let map = MemoryMap::from_raw(&ample_regions()).unwrap();
    let mut controller = memory::init(&mut once, &map, PageTable::new()).unwrap();
    assert!(controller.alloc_stack(0).is_none());
}

#[test]
fn oom_report_carries_request() {
    let report = rust_oom(4096, 16);
    assert_eq!(report.size, 4096);
    assert_eq!(report.align, 16);
}

#[test]
fn context_empty_is_zeroed() {
    let ctx = Context::empty();
    assert_eq!(ctx.rflags, 0);
    assert_eq!(ctx.rsp, 0);
    assert_eq!(ctx.rbp, 0);
}

#[test]
fn context_new_points_at_stack_top() {
    let ctx = Context::new(0x9000, 0x1234);
    assert_eq!(ctx.rflags, RFLAGS_INTERRUPT_FLAG);
    assert_eq!(ctx.rsp, 0x9000);
    assert_eq!(ctx.rbp, 0x9000);
    assert_eq!(ctx.rbx, 0);
}

#[test]
fn time_ticks_count_up() {
    let mut time = Time::new();
    assert_eq!(time.ticks(), 0);
    time.tick();
    time.tick();
    time.tick();
    assert_eq!(time.ticks(), 3);
}
