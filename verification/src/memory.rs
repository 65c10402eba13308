//! The memory controller: the one-time boot step that maps the kernel heap
//! and reserves the stack region.
//!
//! `init` computes the page range covering the configured heap, maps every
//! page in it writable and no-execute, and places the stack region directly
//! after the heap's last page.  It must run exactly once per boot: the
//! caller-owned [`InitOnce`] token records that it ran, and a second call is
//! rejected.  On success the controller owns the page table, the frame
//! allocator, and the stack allocator for the rest of the kernel's life.
use vstd::prelude::*;

use crate::frame_alloc::AreaFrameAllocator;
use crate::frame_alloc::MemoryMap;
use crate::frame_alloc::PAGE_SIZE;
use crate::frame_alloc::total_usable_frames;
use crate::paging::Page;
use crate::paging::PageFlags;
use crate::paging::PageTable;
use crate::paging::map_page;
use crate::stack_alloc::Stack;
use crate::stack_alloc::StackAllocator;

verus! {

/// First virtual address of the kernel heap.
pub const HEAP_START: u64 = 0x0400_0000_0000;

/// Size of the kernel heap in bytes.
pub const HEAP_SIZE: u64 = 1024 * 1024;

/// Number of pages reserved for the stack region after the heap.
pub const STACK_REGION_PAGES: u64 = 101;

/// First page of the heap.
pub open spec fn heap_start_page() -> int {
    HEAP_START as int / PAGE_SIZE as int
}

/// Last page of the heap (inclusive).
pub open spec fn heap_end_page() -> int {
    (HEAP_START + HEAP_SIZE - 1) as int / PAGE_SIZE as int
}

/// Number of pages the heap covers.
pub open spec fn heap_page_count() -> int {
    heap_end_page() - heap_start_page() + 1
}

/// Memory initialization runs exactly once per boot; the caller keeps this
/// token and the second call is rejected.
pub struct InitOnce {
    done: bool,
}

impl InitOnce {
    pub closed spec fn is_done(self) -> bool {
        self.done
    }

    pub fn new() -> (r: InitOnce)
        ensures
            !r.is_done(),
    {
        InitOnce { done: false }
    }
}

/// Re-invocation of the one-time memory initialization is a programming
/// error and is rejected, never silently repeated.
#[derive(Clone, Copy, Debug, PartialEq, Eq, Structural)]
pub enum MemoryInitError {
    AlreadyInitialized,
}

/// Owns the page table, the frame allocator and the stack allocator after
/// the one-time initialization.
pub struct MemoryController {
    page_table: PageTable,
    frame_allocator: AreaFrameAllocator,
    stack_allocator: StackAllocator,
}

impl MemoryController {
    pub closed spec fn spec_page_table(self) -> PageTable {
        self.page_table
    }

    pub closed spec fn spec_frame_allocator(self) -> AreaFrameAllocator {
        self.frame_allocator
    }

    pub closed spec fn spec_stack_next_page(self) -> int {
        self.stack_allocator.spec_next_page()
    }

    pub closed spec fn spec_stack_range_end(self) -> int {
        self.stack_allocator.spec_range_end()
    }

    /// Controller invariant: the parts are well formed and every stack-region
    /// page at or above the watermark is still unmapped.
    pub closed spec fn wf(self) -> bool {
        &&& self.page_table.wf()
        &&& self.frame_allocator.wf()
        &&& self.stack_allocator.wf()
        &&& forall|p: u64|
            self.spec_stack_next_page() <= p < self.spec_stack_range_end()
                ==> !(#[trigger] self.page_table.maps(Page { number: p }))
    }

    /// The frames the controller's allocator still has.
    pub open spec fn frames_left(self) -> int {
        total_usable_frames(self.spec_frame_allocator().regions())
    }

    /// Translates a page through the controller's page table.
    pub fn translate_page(&self, page: Page) -> (r: Option<(crate::frame_alloc::Frame, PageFlags)>)
        requires
            self.wf(),
        ensures
            match r {
                Some((frame, flags)) => {
                    &&& self.spec_page_table().maps(page)
                    &&& self.spec_page_table().view_map()[page.number as int] == (frame, flags)
                },
                None => !self.spec_page_table().maps(page),
            },
    {
        self.page_table.translate_page(page)
    }

    /// Allocates a guard-paged stack of `size_in_pages` pages from the stack
    /// region, using the controller's own page table and frame allocator.
    pub fn alloc_stack(&mut self, size_in_pages: u64) -> (r: Option<Stack>)
        requires
            old(self).wf(),
            old(self).frames_left() >= size_in_pages,
        ensures
            final(self).wf(),
            r is None <==> (size_in_pages == 0 || old(self).spec_stack_next_page() + 1
                + size_in_pages > old(self).spec_stack_range_end()),
            r is None ==> *final(self) == *old(self),
            match r {
                Some(s) => {
                    &&& s.bottom == (old(self).spec_stack_next_page() + 1) * PAGE_SIZE
                    &&& s.top == s.bottom + size_in_pages * PAGE_SIZE
                    &&& final(self).spec_stack_next_page() == old(self).spec_stack_next_page() + 1
                        + size_in_pages
                    // the guard page stays unmapped
                    &&& !final(self).spec_page_table().maps(
                        Page { number: old(self).spec_stack_next_page() as u64 },
                    )
                    // the stack pages are mapped writable, no-execute
                    &&& forall|p: u64|
                        old(self).spec_stack_next_page() + 1 <= p < old(
                            self,
                        ).spec_stack_next_page() + 1 + size_in_pages ==> {
                            &&& #[trigger] final(self).spec_page_table().maps(Page { number: p })
                            &&& final(self).spec_page_table().view_map()[p as int].1 == (PageFlags {
                                writable: true,
                                no_execute: true,
                            })
                        }
                    // mappings outside the new stack are kept
                    &&& forall|q: Page|
                        !(old(self).spec_stack_next_page() + 1 <= q.number < old(
                            self,
                        ).spec_stack_next_page() + 1 + size_in_pages) ==> (
                        #[trigger] final(self).spec_page_table().maps(q) <==> old(
                            self,
                        ).spec_page_table().maps(q))
                },
                None => true,
            },
    {
        let MemoryController { page_table, frame_allocator, stack_allocator } = self;
        stack_allocator.alloc_stack(page_table, frame_allocator, size_in_pages)
    }
}

/// One-time memory initialization: copies the boot memory map into the
/// frame allocator, maps every page of the configured heap range writable
/// and no-execute, and reserves the stack region directly after the heap.
/// Rejected exactly when it already ran.  The caller hands over a page table
/// that maps nothing in the heap or stack range and a memory map with at
/// least one frame per heap page; a partially mapped heap is unsafe to use,
/// so these are preconditions, not run-time failures.
pub fn init(
    once: &mut InitOnce,
    memory_map: &MemoryMap,
    page_table: PageTable,
) -> (r: Result<MemoryController, MemoryInitError>)
    requires
        memory_map.wf(),
        page_table.wf(),
        total_usable_frames(memory_map.regions()) >= heap_page_count(),
        forall|p: u64|
            heap_start_page() <= p <= heap_end_page() + STACK_REGION_PAGES
                ==> !(#[trigger] page_table.maps(Page { number: p })),
    ensures
        final(once).is_done(),
        match r {
            Ok(mc) => {
                &&& !old(once).is_done()
                &&& mc.wf()
                // every heap page is mapped writable, no-execute
                &&& forall|p: u64|
                    heap_start_page() <= p <= heap_end_page() ==> {
                        &&& #[trigger] mc.spec_page_table().maps(Page { number: p })
                        &&& mc.spec_page_table().view_map()[p as int].1 == (PageFlags {
                            writable: true,
                            no_execute: true,
                        })
                    }
                // pages outside the heap range are untouched
                &&& forall|q: Page|
                    !(heap_start_page() <= q.number <= heap_end_page()) ==> (
                    #[trigger] mc.spec_page_table().maps(q) <==> page_table.maps(q))
                // the stack region sits directly after the heap
                &&& mc.spec_stack_next_page() == heap_end_page() + 1
                &&& mc.spec_stack_range_end() == heap_end_page() + 1 + STACK_REGION_PAGES
                // the mapping consumed one frame per heap page
                &&& mc.frames_left() == total_usable_frames(memory_map.regions())
                    - heap_page_count()
            },
            Err(MemoryInitError::AlreadyInitialized) => old(once).is_done(),
        },
        r is Err <==> old(once).is_done(),
{
    if once.done {
        return Err(MemoryInitError::AlreadyInitialized);
    }
    once.done = true;
    let mut frame_allocator = AreaFrameAllocator::new(memory_map);
    let mut page_table = page_table;
    let ghost pt0 = page_table;
    let heap_start_page_num: u64 = HEAP_START / PAGE_SIZE;
    let heap_end_page_num: u64 = (HEAP_START + HEAP_SIZE - 1) / PAGE_SIZE;
    let page_count: u64 = heap_end_page_num - heap_start_page_num + 1;
    let mut k: u64 = 0;
    while k < page_count
        invariant
            page_table.wf(),
            frame_allocator.wf(),
            k <= page_count,
            heap_start_page_num == heap_start_page(),
            heap_end_page_num == heap_end_page(),
            page_count == heap_page_count(),
            pt0.wf(),
            forall|p: u64|
                heap_start_page() <= p <= heap_end_page() + STACK_REGION_PAGES
                    ==> !(#[trigger] pt0.maps(Page { number: p })),
            total_usable_frames(frame_allocator.regions()) >= total_usable_frames(
                memory_map.regions(),
            ) - k,
            total_usable_frames(frame_allocator.regions()) == total_usable_frames(
                memory_map.regions(),
            ) - k,
            total_usable_frames(memory_map.regions()) >= heap_page_count(),
            // pages mapped so far
            forall|p: u64|
                heap_start_page_num <= p < heap_start_page_num + k ==> {
                    &&& #[trigger] page_table.maps(Page { number: p })
                    &&& page_table.view_map()[p as int].1 == (PageFlags {
                        writable: true,
                        no_execute: true,
                    })
                },
            // pages of the heap and stack region not yet mapped
            forall|p: u64|
                heap_start_page_num + k <= p <= heap_end_page() + STACK_REGION_PAGES
                    ==> !(#[trigger] page_table.maps(Page { number: p })),
            // everything outside the heap range is untouched
            forall|q: Page|
                !(heap_start_page_num <= q.number < heap_start_page_num + page_count)
                    ==> (#[trigger] page_table.maps(q) <==> pt0.maps(q)),
        decreases page_count - k,
    {
        let page = Page { number: heap_start_page_num + k };
        let ghost pre_pt = page_table;
        let ghost pre_fa = frame_allocator;
        proof {
            crate::frame_alloc::lemma_total_usable_frames_nonneg(frame_allocator.regions());
            assert(!page_table.maps(page));
        }
        let flags = PageFlags { writable: true, no_execute: true };
        let result = map_page(page, flags, &mut page_table, &mut frame_allocator);
        proof {
            if let Ok(frame) = result {
                crate::frame_alloc::lemma_allocate_step_total(
                    pre_fa,
                    frame_allocator,
                    frame.number as int,
                );
            } else {
                assert(false);
            }
            assert forall|p: u64| heap_start_page_num <= p < heap_start_page_num + (k + 1) implies {
                &&& #[trigger] page_table.maps(Page { number: p })
                &&& page_table.view_map()[p as int].1 == (PageFlags {
                    writable: true,
                    no_execute: true,
                })
            } by {
                if p == heap_start_page_num + k {
                    assert(Page { number: p } == page);
                } else {
                    assert(pre_pt.maps(Page { number: p }));
                    assert(Page { number: p } != page);
                }
            }
            assert forall|p: u64|
                heap_start_page_num + (k + 1) <= p <= heap_end_page() + STACK_REGION_PAGES
                    implies !(#[trigger] page_table.maps(Page { number: p })) by {
                assert(Page { number: p } != page);
                assert(!pre_pt.maps(Page { number: p }));
            }
            assert forall|q: Page|
                !(heap_start_page_num <= q.number < heap_start_page_num + page_count)
                    implies (#[trigger] page_table.maps(q) <==> pt0.maps(q)) by {
                assert(q != page);
                assert(page_table.maps(q) <==> pre_pt.maps(q));
            }
        }
        k += 1;
    }
    let stack_alloc_start = heap_end_page_num + 1;
    let stack_alloc_end = stack_alloc_start + STACK_REGION_PAGES;
    let stack_allocator = StackAllocator::new(stack_alloc_start, stack_alloc_end);
    Ok(MemoryController { page_table, frame_allocator, stack_allocator })
}

} // verus!
