//! Virtual page mapping over the active page table.
//!
//! The page table is modeled as the set of installed mappings: which virtual
//! page translates to which physical frame, with which permission flags.  A
//! page is either fully mapped or fully unmapped; installing a mapping over
//! an already-mapped page is rejected, never silently overwritten.  The
//! hardware walk-and-edit of the recursive table, and the translation-cache
//! flush that makes a new mapping visible, have no observable effect beyond
//! this set, so the model carries the whole contract.
use vstd::prelude::*;

use crate::frame_alloc::AreaFrameAllocator;
use crate::frame_alloc::Frame;
use crate::frame_alloc::allocate_step;
use crate::frame_alloc::remaining_contains;
use crate::frame_alloc::total_usable_frames;

verus! {

/// A virtual page, identified by its page number within the address space.
#[derive(Clone, Copy, Debug, PartialEq, Eq, Structural)]
pub struct Page {
    pub number: u64,
}

/// Permission flags of one installed mapping.  A mapping is always present;
/// writability and no-execute follow the request that installed it.
#[derive(Clone, Copy, Debug, PartialEq, Eq, Structural)]
pub struct PageFlags {
    pub writable: bool,
    pub no_execute: bool,
}

impl PageFlags {
    /// Flags of a kernel data mapping: writable, never executable.
    pub fn kernel_data() -> (r: PageFlags)
        ensures
            r == (PageFlags { writable: true, no_execute: true }),
    {
        PageFlags { writable: true, no_execute: true }
    }
}

/// Why installing a mapping failed.  Both cases are fatal during boot: there
/// is no recovery path before the heap exists.
#[derive(Clone, Copy, Debug, PartialEq, Eq, Structural)]
pub enum MapError {
    /// The frame allocator is exhausted.
    FrameAllocationFailed,
    /// The page already translates to a frame; the caller broke the
    /// map-once precondition and the existing mapping is left untouched.
    PageAlreadyMapped,
}

/// One entry of the modeled page table.
#[derive(Clone, Copy, Debug, PartialEq, Eq, Structural)]
pub struct Mapping {
    pub page: Page,
    pub frame: Frame,
    pub flags: PageFlags,
}

/// The active page table: the installed virtual-to-physical mappings.
pub struct PageTable {
    entries: Vec<Mapping>,
}

impl PageTable {
    pub closed spec fn entries_seq(self) -> Seq<Mapping> {
        self.entries@
    }

    /// The translation the table encodes: page number to frame and flags.
    pub open spec fn view_map(self) -> Map<int, (Frame, PageFlags)> {
        Map::new(
            |p: int| exists|k: int| 0 <= k < self.entries_seq().len() && (#[trigger] self.entries_seq()[k]).page.number == p,
            |p: int|
                {
                    let k = choose|k: int|
                        0 <= k < self.entries_seq().len() && (#[trigger] self.entries_seq()[k]).page.number == p;
                    (self.entries_seq()[k].frame, self.entries_seq()[k].flags)
                },
        )
    }

    /// Whether `page` is mapped.
    pub open spec fn maps(self, page: Page) -> bool {
        exists|k: int| 0 <= k < self.entries_seq().len() && (#[trigger] self.entries_seq()[k]).page == page
    }

    /// Table invariant: one entry per page.
    pub open spec fn wf(self) -> bool {
        forall|k1: int, k2: int|
            0 <= k1 < self.entries_seq().len() && 0 <= k2 < self.entries_seq().len() && k1 != k2
                ==> (#[trigger] self.entries_seq()[k1]).page != (#[trigger] self.entries_seq()[k2]).page
    }

    /// An empty table, as a starting point for tests and for modeling a
    /// table whose kernel-relevant range holds no mappings yet.
    pub fn new() -> (r: PageTable)
        ensures
            r.wf(),
            forall|p: Page| !r.maps(p),
            r.entries_seq().len() == 0,
    {
        PageTable { entries: Vec::new() }
    }

    /// Translates `page`: the frame and flags it is mapped to, if any.
    pub fn translate_page(&self, page: Page) -> (r: Option<(Frame, PageFlags)>)
        requires
            self.wf(),
        ensures
            match r {
                Some((frame, flags)) => {
                    &&& self.maps(page)
                    &&& self.view_map()[page.number as int] == (frame, flags)
                },
                None => !self.maps(page),
            },
    {
        let n = self.entries.len();
        let mut k: usize = 0;
        while k < n
            invariant
                n == self.entries_seq().len(),
                k <= n,
                self.wf(),
                forall|j: int| 0 <= j < k ==> (#[trigger] self.entries_seq()[j]).page != page,
            decreases n - k,
        {
            let entry = self.entries[k];
            if entry.page.number == page.number {
                proof {
                    assert(entry.page == page);
                    assert(self.maps(page));
                    let kk = choose|kk: int|
                        0 <= kk < self.entries_seq().len()
                            && (#[trigger] self.entries_seq()[kk]).page.number == page.number;
                    assert(self.entries_seq()[kk] == entry);
                }
                return Some((entry.frame, entry.flags));
            }
            proof {
                assert(self.entries_seq()[k as int].page != page) by {
                    assert(self.entries_seq()[k as int].page.number != page.number);
                }
            }
            k += 1;
        }
        proof {
            if self.maps(page) {
                let j = choose|j: int|
                    0 <= j < self.entries_seq().len() && (#[trigger] self.entries_seq()[j]).page == page;
                assert(false);
            }
        }
        None
    }
}

/// One successful mapping installation: `frame` came out of one allocator
/// step and the table gained exactly the entry `page -> (frame, flags)`.
pub open spec fn map_step(
    pre_pt: PageTable,
    pre_alloc: AreaFrameAllocator,
    post_pt: PageTable,
    post_alloc: AreaFrameAllocator,
    page: Page,
    flags: PageFlags,
    frame: Frame,
) -> bool {
    &&& allocate_step(pre_alloc, post_alloc, frame.number as int)
    &&& post_pt.entries_seq() == pre_pt.entries_seq().push(
        Mapping { page, frame, flags },
    )
}

/// Installs a mapping for `page` with the requested flags, taking one frame
/// from the frame allocator; flushes the translation cache entry for the
/// page, so on return the mapping is visible.  Fails exactly when the page
/// is already mapped (the existing mapping and the allocator are left
/// untouched) or, the page being free, when the allocator is exhausted.
pub fn map_page(
    page: Page,
    flags: PageFlags,
    page_table: &mut PageTable,
    frame_allocator: &mut AreaFrameAllocator,
) -> (r: Result<Frame, MapError>)
    requires
        old(page_table).wf(),
        old(frame_allocator).wf(),
    ensures
        final(page_table).wf(),
        final(frame_allocator).wf(),
        match r {
            Ok(frame) => {
                &&& !old(page_table).maps(page)
                &&& map_step(
                    *old(page_table),
                    *old(frame_allocator),
                    *final(page_table),
                    *final(frame_allocator),
                    page,
                    flags,
                    frame,
                )
                &&& remaining_contains(*old(frame_allocator), frame.number as int)
                &&& final(page_table).maps(page)
                &&& final(page_table).view_map()[page.number as int] == (frame, flags)
                &&& forall|q: Page|
                    q != page ==> (final(page_table).maps(q) <==> #[trigger] old(page_table).maps(q))
                &&& forall|q: Page|
                    q != page && #[trigger] old(page_table).maps(q)
                        ==> final(page_table).view_map()[q.number as int]
                            == old(page_table).view_map()[q.number as int]
            },
            Err(MapError::PageAlreadyMapped) => {
                &&& old(page_table).maps(page)
                &&& *final(page_table) == *old(page_table)
                &&& *final(frame_allocator) == *old(frame_allocator)
            },
            Err(MapError::FrameAllocationFailed) => {
                &&& !old(page_table).maps(page)
                &&& total_usable_frames(old(frame_allocator).regions()) == 0
                &&& *final(page_table) == *old(page_table)
                &&& *final(frame_allocator) == *old(frame_allocator)
            },
        },
        r is Err <==> (old(page_table).maps(page)
            || total_usable_frames(old(frame_allocator).regions()) == 0),
{
    if page_table.translate_page(page).is_some() {
        return Err(MapError::PageAlreadyMapped);
    }
    let frame = match frame_allocator.allocate_frame() {
        Some(frame) => frame,
        None => {
            return Err(MapError::FrameAllocationFailed);
        },
    };
    let ghost pre = page_table.entries_seq();
    page_table.entries.push(Mapping { page, frame, flags });
    proof {
        let post = page_table.entries_seq();
        assert(post == pre.push(Mapping { page, frame, flags }));
        assert forall|k1: int, k2: int|
            0 <= k1 < post.len() && 0 <= k2 < post.len() && k1 != k2
                implies (#[trigger] post[k1]).page != (#[trigger] post[k2]).page by {
            if k1 < post.len() - 1 && k2 < post.len() - 1 {
                assert(pre[k1] == post[k1] && pre[k2] == post[k2]);
            } else if k1 == post.len() - 1 {
                assert(post[k2].page != page) by {
                    if post[k2].page == page {
                        assert(old(page_table).maps(page));
                    }
                }
            } else {
                assert(post[k1].page != page) by {
                    if post[k1].page == page {
                        assert(old(page_table).maps(page));
                    }
                }
            }
        }
        assert(page_table.maps(page)) by {
            assert(post[post.len() - 1].page == page);
        }
        lemma_push_translation(*old(page_table), *page_table, page, frame, flags);
    }
    Ok(frame)
}

/// Pushing one fresh entry adds exactly that translation and keeps all
/// others.
proof fn lemma_push_translation(
    pre: PageTable,
    post: PageTable,
    page: Page,
    frame: Frame,
    flags: PageFlags,
)
    requires
        pre.wf(),
        post.wf(),
        !pre.maps(page),
        post.entries_seq() == pre.entries_seq().push(Mapping { page, frame, flags }),
    ensures
        post.view_map()[page.number as int] == (frame, flags),
        forall|q: Page| q != page ==> (post.maps(q) <==> #[trigger] pre.maps(q)),
        forall|q: Page|
            q != page && #[trigger] pre.maps(q)
                ==> post.view_map()[q.number as int] == pre.view_map()[q.number as int],
{
    let pres = pre.entries_seq();
    let posts = post.entries_seq();
    let last = posts.len() - 1;
    assert(posts[last] == Mapping { page, frame, flags });
    assert(post.view_map()[page.number as int] == (frame, flags)) by {
        assert(posts[last].page.number == page.number);
        let k = choose|k: int|
            0 <= k < posts.len() && (#[trigger] posts[k]).page.number == page.number;
        if k != last {
            assert(posts[k] == pres[k]);
            assert(pre.maps(page)) by {
                assert(pres[k].page.number == page.number);
                assert(pres[k].page == page);
            }
        }
    }
    assert forall|q: Page| q != page implies (post.maps(q) <==> #[trigger] pre.maps(q)) by {
        if post.maps(q) {
            let k = choose|k: int| 0 <= k < posts.len() && (#[trigger] posts[k]).page == q;
            if k != last {
                assert(pres[k] == posts[k]);
            }
        }
        if pre.maps(q) {
            let k = choose|k: int| 0 <= k < pres.len() && (#[trigger] pres[k]).page == q;
            assert(posts[k] == pres[k]);
        }
    }
    assert forall|q: Page|
        q != page && #[trigger] pre.maps(q)
            implies post.view_map()[q.number as int] == pre.view_map()[q.number as int] by {
        let k1 = choose|k: int| 0 <= k < pres.len() && (#[trigger] pres[k]).page == q;
        assert(posts[k1] == pres[k1]);
        assert(posts[k1].page.number == q.number);
        assert(post.maps(q));
        let k2 = choose|k: int|
            0 <= k < posts.len() && (#[trigger] posts[k]).page.number == q.number;
        assert(posts[k2].page.number == q.number);
        if k2 == last {
            assert(posts[k2].page == page);
            assert(page.number == q.number);
            assert(page == q);
        } else {
            assert(posts[k2] == pres[k2]);
            assert(pres[k2].page == Page { number: q.number });
            assert(pres[k2].page == q);
            assert(k1 == k2 || pres[k1].page != pres[k2].page);
        }
        let k3 = choose|k: int|
            0 <= k < pres.len() && (#[trigger] pres[k]).page.number == q.number;
        assert(pres[k3].page == q);
        assert(k1 == k3 || pres[k1].page != pres[k3].page);
    }
}

/// After a successful mapping installation, translating the page yields
/// exactly the frame that was allocated for it and the flags that were
/// requested.
pub proof fn lemma_map_then_translate(
    pre_pt: PageTable,
    pre_alloc: AreaFrameAllocator,
    post_pt: PageTable,
    post_alloc: AreaFrameAllocator,
    page: Page,
    flags: PageFlags,
    frame: Frame,
)
    requires
        pre_pt.wf(),
        !pre_pt.maps(page),
        map_step(pre_pt, pre_alloc, post_pt, post_alloc, page, flags, frame),
    ensures
        post_pt.maps(page),
        post_pt.view_map()[page.number as int] == (frame, flags),
{
    let posts = post_pt.entries_seq();
    let pres = pre_pt.entries_seq();
    assert(posts[posts.len() - 1] == Mapping { page, frame, flags });
    assert(post_pt.maps(page));
    assert(post_pt.wf()) by {
        assert forall|k1: int, k2: int|
            0 <= k1 < posts.len() && 0 <= k2 < posts.len() && k1 != k2
                implies (#[trigger] posts[k1]).page != (#[trigger] posts[k2]).page by {
            if k1 < posts.len() - 1 && k2 < posts.len() - 1 {
                assert(pres[k1] == posts[k1] && pres[k2] == posts[k2]);
            } else if k1 == posts.len() - 1 {
                if posts[k2].page == page {
                    assert(pres[k2] == posts[k2]);
                    assert(pre_pt.maps(page));
                }
            } else {
                if posts[k1].page == page {
                    assert(pres[k1] == posts[k1]);
                    assert(pre_pt.maps(page));
                }
            }
        }
    }
    lemma_push_translation(pre_pt, post_pt, page, frame, flags);
}

} // verus!
