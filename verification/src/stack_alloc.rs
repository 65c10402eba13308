//! Stack allocation: fixed-size, guard-paged stacks carved out of the stack
//! region that the memory controller reserved after the heap.
//!
//! Each allocated stack takes one unmapped guard page followed by
//! `size_in_pages` mapped, writable pages.  The guard page stays unmapped
//! forever, so running off the bottom of the stack faults instead of
//! silently corrupting whatever lies below.  Stacks are handed out from a
//! monotonically advancing watermark and never freed: no scheduler exists
//! yet to return one.
use vstd::prelude::*;

use crate::frame_alloc::AreaFrameAllocator;
use crate::frame_alloc::PAGE_SIZE;
use crate::frame_alloc::total_usable_frames;
use crate::paging::Page;
use crate::paging::PageFlags;
use crate::paging::PageTable;
use crate::paging::map_page;

verus! {

/// An allocated kernel stack: the mapped pages cover the addresses
/// `[bottom, top)`, and the stack grows downward from `top`.
#[derive(Clone, Copy, Debug, PartialEq, Eq, Structural)]
pub struct Stack {
    pub top: u64,
    pub bottom: u64,
}

/// Carves stacks out of a fixed page range.  `next_page` is the watermark:
/// pages before it are spoken for, pages from it up to `range_end`
/// (exclusive) are still available.
pub struct StackAllocator {
    next_page: u64,
    range_end: u64,
}

/// Highest page number the model accepts, so that every page address fits
/// in a machine word.
pub const MAX_PAGE_NUMBER: u64 = 0xF_FFFF_FFFF;

impl StackAllocator {
    /// The watermark: first page number still available.
    pub closed spec fn spec_next_page(self) -> int {
        self.next_page as int
    }

    /// First page number past the stack region.
    pub closed spec fn spec_range_end(self) -> int {
        self.range_end as int
    }

    pub open spec fn wf(self) -> bool {
        &&& self.spec_next_page() <= self.spec_range_end()
        &&& self.spec_range_end() <= MAX_PAGE_NUMBER
    }

    /// A stack allocator over the page range `[range_start, range_end)`.
    pub fn new(range_start: u64, range_end: u64) -> (r: StackAllocator)
        requires
            range_start <= range_end,
            range_end <= MAX_PAGE_NUMBER,
        ensures
            r.wf(),
            r.spec_next_page() == range_start,
            r.spec_range_end() == range_end,
    {
        StackAllocator { next_page: range_start, range_end }
    }

    /// Allocates a guard-paged stack of `size_in_pages` pages: skips one
    /// guard page at the watermark, maps the following `size_in_pages`
    /// pages writable, and returns the stack bounds.  Returns `None`, and
    /// changes nothing, exactly when the request is zero pages or the
    /// region has too little room left.
    pub fn alloc_stack(
        &mut self,
        page_table: &mut PageTable,
        frame_allocator: &mut AreaFrameAllocator,
        size_in_pages: u64,
    ) -> (r: Option<Stack>)
        requires
            old(self).wf(),
            old(page_table).wf(),
            old(frame_allocator).wf(),
            total_usable_frames(old(frame_allocator).regions()) >= size_in_pages,
            forall|p: u64|
                old(self).spec_next_page() <= p < old(self).spec_range_end()
                    ==> !(#[trigger] old(page_table).maps(Page { number: p })),
        ensures
            final(self).wf(),
            final(page_table).wf(),
            final(frame_allocator).wf(),
            final(self).spec_range_end() == old(self).spec_range_end(),
            r is None <==> (size_in_pages == 0 || old(self).spec_next_page() + 1 + size_in_pages
                > old(self).spec_range_end()),
            r is None ==> {
                &&& *final(self) == *old(self)
                &&& *final(page_table) == *old(page_table)
                &&& *final(frame_allocator) == *old(frame_allocator)
            },
            match r {
                Some(s) => {
                    &&& s.bottom == (old(self).spec_next_page() + 1) * PAGE_SIZE
                    &&& s.top == s.bottom + size_in_pages * PAGE_SIZE
                    &&& final(self).spec_next_page() == old(self).spec_next_page() + 1
                        + size_in_pages
                    // the guard page below the stack stays unmapped
                    &&& !final(page_table).maps(
                        Page { number: old(self).spec_next_page() as u64 },
                    )
                    // every stack page is mapped writable, no-execute
                    &&& forall|p: u64|
                        old(self).spec_next_page() + 1 <= p < old(self).spec_next_page() + 1
                            + size_in_pages ==> {
                            &&& #[trigger] final(page_table).maps(Page { number: p })
                            &&& final(page_table).view_map()[p as int].1 == (PageFlags {
                                writable: true,
                                no_execute: true,
                            })
                        }
                    // pages outside the new stack keep their mappings
                    &&& forall|q: Page|
                        !(old(self).spec_next_page() + 1 <= q.number < old(self).spec_next_page()
                            + 1 + size_in_pages) ==> (#[trigger] final(page_table).maps(q)
                            <==> old(page_table).maps(q))
                    &&& forall|q: Page|
                        !(old(self).spec_next_page() + 1 <= q.number < old(self).spec_next_page()
                            + 1 + size_in_pages) && #[trigger] old(page_table).maps(q)
                            ==> final(page_table).view_map()[q.number as int]
                                == old(page_table).view_map()[q.number as int]
                },
                None => true,
            },
    {
        if size_in_pages == 0 {
            return None;
        }
        if self.range_end - self.next_page < 1 || self.range_end - self.next_page - 1
            < size_in_pages {
            return None;
        }
        let guard_page = self.next_page;
        let stack_start = guard_page + 1;
        let mut k: u64 = 0;
        while k < size_in_pages
            invariant
                old(self).wf(),
                *self == *old(self),
                page_table.wf(),
                frame_allocator.wf(),
                k <= size_in_pages,
                guard_page == old(self).spec_next_page(),
                stack_start == guard_page + 1,
                stack_start + size_in_pages <= self.spec_range_end(),
                self.spec_range_end() <= MAX_PAGE_NUMBER,
                total_usable_frames(frame_allocator.regions()) >= size_in_pages - k,
                // pages mapped so far
                forall|p: u64|
                    stack_start <= p < stack_start + k ==> {
                        &&& #[trigger] page_table.maps(Page { number: p })
                        &&& page_table.view_map()[p as int].1 == (PageFlags {
                            writable: true,
                            no_execute: true,
                        })
                    },
                // pages not yet mapped, the guard page among them
                forall|p: u64|
                    guard_page <= p < self.spec_range_end() && !(stack_start <= p < stack_start
                        + k) ==> !(#[trigger] page_table.maps(Page { number: p })),
                // everything outside the stack range is untouched
                forall|q: Page|
                    !(stack_start <= q.number < stack_start + size_in_pages)
                        ==> (#[trigger] page_table.maps(q) <==> old(page_table).maps(q)),
                forall|q: Page|
                    !(stack_start <= q.number < stack_start + size_in_pages)
                        && #[trigger] old(page_table).maps(q)
                        ==> page_table.view_map()[q.number as int]
                            == old(page_table).view_map()[q.number as int],
            decreases size_in_pages - k,
        {
            let page = Page { number: stack_start + k };
            let ghost pre_pt = *page_table;
            let ghost pre_fa = *frame_allocator;
            proof {
                assert(page == Page { number: (stack_start + k) as u64 });
                assert(guard_page <= stack_start + k < self.spec_range_end());
                assert(!page_table.maps(page));
                crate::frame_alloc::lemma_total_usable_frames_nonneg(frame_allocator.regions());
            }
            let flags = PageFlags { writable: true, no_execute: true };
            let result = map_page(page, flags, page_table, frame_allocator);
            proof {
                if let Ok(frame) = result {
                    crate::frame_alloc::lemma_allocate_step_total(
                        pre_fa,
                        *frame_allocator,
                        frame.number as int,
                    );
                } else {
                    assert(total_usable_frames(pre_fa.regions()) >= 1);
                    assert(false);
                }
                assert forall|p: u64| stack_start <= p < stack_start + (k + 1) implies {
                    &&& #[trigger] page_table.maps(Page { number: p })
                    &&& page_table.view_map()[p as int].1 == (PageFlags {
                        writable: true,
                        no_execute: true,
                    })
                } by {
                    if p == stack_start + k {
                        assert(Page { number: p } == page);
                    } else {
                        assert(pre_pt.maps(Page { number: p }));
                        assert(Page { number: p } != page);
                    }
                }
                assert forall|p: u64|
                    guard_page <= p < self.spec_range_end() && !(stack_start <= p < stack_start
                        + (k + 1)) implies !(#[trigger] page_table.maps(Page { number: p })) by {
                    assert(Page { number: p } != page);
                    assert(!pre_pt.maps(Page { number: p }));
                }
                assert forall|q: Page|
                    !(stack_start <= q.number < stack_start + size_in_pages)
                        implies (#[trigger] page_table.maps(q) <==> old(page_table).maps(q)) by {
                    assert(q != page);
                    assert(page_table.maps(q) <==> pre_pt.maps(q));
                    assert(pre_pt.maps(q) <==> old(page_table).maps(q));
                }
                assert forall|q: Page|
                    !(stack_start <= q.number < stack_start + size_in_pages)
                        && #[trigger] old(page_table).maps(q)
                        implies page_table.view_map()[q.number as int]
                        == old(page_table).view_map()[q.number as int] by {
                    assert(q != page);
                    assert(pre_pt.maps(q));
                    assert(page_table.view_map()[q.number as int]
                        == pre_pt.view_map()[q.number as int]);
                }
            }
            k += 1;
        }
        self.next_page = stack_start + size_in_pages;
        proof {
            assert((stack_start + size_in_pages) * PAGE_SIZE <= MAX_PAGE_NUMBER * PAGE_SIZE)
                by (nonlinear_arith)
                requires
                    stack_start + size_in_pages <= MAX_PAGE_NUMBER,
                    PAGE_SIZE >= 1,
            ;
            assert(MAX_PAGE_NUMBER * PAGE_SIZE < u64::MAX);
            assert((stack_start + size_in_pages) * PAGE_SIZE == stack_start * PAGE_SIZE
                + size_in_pages * PAGE_SIZE) by (nonlinear_arith);
            assert(stack_start * PAGE_SIZE >= 0 && size_in_pages * PAGE_SIZE >= 0)
                by (nonlinear_arith);
        }
        let bottom = stack_start * PAGE_SIZE;
        let top = bottom + size_in_pages * PAGE_SIZE;
        Some(Stack { top, bottom })
    }
}

} // verus!
