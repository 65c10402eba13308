//! Physical frame allocation from the boot-provided memory map.
//!
//! The bootloader hands the kernel a list of physical memory regions, each a
//! frame range with a usable / reserved classification.  The kernel copies it
//! once at init; the copy is the allocator's only state.  Allocation is a
//! monotonic bump per region: the first usable region with a frame left gives
//! up its lowest frame and its start boundary moves one frame up.  Frames are
//! never reclaimed at this boot stage; `deallocate_frame` fails loudly.
use vstd::prelude::*;

verus! {

/// Size of a physical frame and of a virtual page, in bytes.
pub const PAGE_SIZE: u64 = 4096;

/// A physical page frame, identified by its frame number; the frame covers
/// physical addresses `number * PAGE_SIZE` up to the next frame boundary.
#[derive(Clone, Copy, Debug, PartialEq, Eq, Structural)]
pub struct Frame {
    pub number: u64,
}

impl Frame {
    /// The physical address of the frame's first byte.
    pub open spec fn spec_start_address(self) -> int {
        self.number * PAGE_SIZE
    }

    /// The physical address of the frame's first byte.
    pub fn start_address(self) -> (r: u64)
        requires
            self.number * PAGE_SIZE <= u64::MAX,
        ensures
            r == self.spec_start_address(),
    {
        self.number * PAGE_SIZE
    }
}

/// A contiguous physical region of the boot memory map: the frames numbered
/// `start_frame_number` up to, excluding, `end_frame_number`, classified as
/// usable for allocation or not (reserved, or already in use).
#[derive(Clone, Copy, Debug, PartialEq, Eq, Structural)]
pub struct MemoryRegion {
    pub start_frame_number: u64,
    pub end_frame_number: u64,
    pub usable: bool,
}

impl MemoryRegion {
    /// A well-shaped region: its range is not inverted.
    pub open spec fn wf(self) -> bool {
        self.start_frame_number <= self.end_frame_number
    }

    /// The number of frames the region still holds.
    pub open spec fn frames_left(self) -> int {
        self.end_frame_number - self.start_frame_number
    }

    /// Whether the region is usable and still holds a frame.
    pub open spec fn has_free_frame(self) -> bool {
        self.usable && self.start_frame_number < self.end_frame_number
    }
}

/// Two regions describe disjoint frame ranges.
pub open spec fn regions_disjoint(a: MemoryRegion, b: MemoryRegion) -> bool {
    a.end_frame_number <= b.start_frame_number || b.end_frame_number <= a.start_frame_number
}

/// Every region of the list is well shaped and no two overlap.
pub open spec fn region_seq_wf(rs: Seq<MemoryRegion>) -> bool {
    &&& forall|i: int| 0 <= i < rs.len() ==> (#[trigger] rs[i]).wf()
    &&& forall|i: int, j: int|
        0 <= i < rs.len() && 0 <= j < rs.len() && i != j
            ==> regions_disjoint(#[trigger] rs[i], #[trigger] rs[j])
}

/// The boot-time memory map: the kernel-owned copy of the region list.
/// Regions never overlap; the allocator consumes only from regions marked
/// usable.
pub struct MemoryMap {
    regions: Vec<MemoryRegion>,
}

impl MemoryMap {
    pub closed spec fn spec_regions(self) -> Seq<MemoryRegion> {
        self.regions@
    }

    pub open spec fn regions(self) -> Seq<MemoryRegion> {
        self.spec_regions()
    }

    /// Map invariant: every region is well shaped and no two overlap.
    pub open spec fn wf(self) -> bool {
        region_seq_wf(self.regions())
    }

    /// Validated parse of the raw boot-handoff region list, the single trust
    /// boundary for boot-provided memory: a region triple is
    /// `(start frame, end frame, usable)`.  Rejects an inverted range or two
    /// overlapping regions instead of letting a malformed map reach the
    /// allocator.
    pub fn from_raw(raw: &Vec<(u64, u64, bool)>) -> (r: Result<MemoryMap, BootInfoError>)
        ensures
            match r {
                Ok(m) => {
                    &&& m.wf()
                    &&& m.regions().len() == raw@.len()
                    &&& forall|i: int|
                        0 <= i < raw@.len() ==> (#[trigger] m.regions()[i]) == (MemoryRegion {
                            start_frame_number: raw@[i].0,
                            end_frame_number: raw@[i].1,
                            usable: raw@[i].2,
                        })
                },
                Err(BootInfoError::InvertedRegion) => exists|i: int|
                    0 <= i < raw@.len() && (#[trigger] raw@[i]).0 > raw@[i].1,
                Err(BootInfoError::OverlappingRegions) => {
                    &&& forall|i: int| 0 <= i < raw@.len() ==> (#[trigger] raw@[i]).0 <= raw@[i].1
                    &&& exists|i: int, j: int|
                        0 <= i < raw@.len() && 0 <= j < raw@.len() && i != j
                            && !regions_disjoint(region_of(#[trigger] raw@[i]), region_of(#[trigger] raw@[j]))
                },
            },
    {
        let mut regions: Vec<MemoryRegion> = Vec::new();
        let mut i: usize = 0;
        while i < raw.len()
            invariant
                i <= raw@.len(),
                regions@.len() == i,
                forall|k: int|
                    0 <= k < i ==> (#[trigger] regions@[k]) == region_of(raw@[k]),
                forall|k: int| 0 <= k < i ==> (#[trigger] regions@[k]).wf(),
            decreases raw@.len() - i,
        {
            let (start, end, usable) = raw[i];
            if start > end {
                return Err(BootInfoError::InvertedRegion);
            }
            regions.push(MemoryRegion { start_frame_number: start, end_frame_number: end, usable });
            i += 1;
        }
        let mut a: usize = 0;
        while a < regions.len()
            invariant
                a <= regions@.len(),
                regions@.len() == raw@.len(),
                forall|k: int| 0 <= k < regions@.len() ==> (#[trigger] regions@[k]) == region_of(raw@[k]),
                forall|k: int| 0 <= k < regions@.len() ==> (#[trigger] regions@[k]).wf(),
                forall|i: int, j: int|
                    0 <= i < a && 0 <= j < regions@.len() && i != j
                        ==> regions_disjoint(#[trigger] regions@[i], #[trigger] regions@[j]),
            decreases regions@.len() - a,
        {
            let mut b: usize = a + 1;
            while b < regions.len()
                invariant
                    a < regions@.len(),
                    b >= a + 1,
                    b <= regions@.len(),
                    regions@.len() == raw@.len(),
                    forall|k: int| 0 <= k < regions@.len() ==> (#[trigger] regions@[k]) == region_of(raw@[k]),
                    forall|k: int| 0 <= k < regions@.len() ==> (#[trigger] regions@[k]).wf(),
                    forall|j: int|
                        a < j < b ==> regions_disjoint(regions@[a as int], #[trigger] regions@[j]),
                decreases regions@.len() - b,
            {
                let ra = regions[a];
                let rb = regions[b];
                if !(ra.end_frame_number <= rb.start_frame_number
                    || rb.end_frame_number <= ra.start_frame_number) {
                    proof {
                        assert(!regions_disjoint(region_of(raw@[a as int]), region_of(raw@[b as int])));
                        assert forall|k: int|
                            0 <= k < raw@.len() implies (#[trigger] raw@[k]).0 <= raw@[k].1 by {
                            assert(regions@[k] == region_of(raw@[k]));
                            assert(regions@[k].wf());
                        }
                    }
                    return Err(BootInfoError::OverlappingRegions);
                }
                b += 1;
            }
            a += 1;
        }
        Ok(MemoryMap { regions })
    }
}

/// The region a raw boot-handoff triple describes.
pub open spec fn region_of(raw: (u64, u64, bool)) -> MemoryRegion {
    MemoryRegion { start_frame_number: raw.0, end_frame_number: raw.1, usable: raw.2 }
}

/// A malformed boot-information structure; fatal, detected before any memory
/// operation depends on it.
#[derive(Clone, Copy, Debug, PartialEq, Eq, Structural)]
pub enum BootInfoError {
    InvertedRegion,
    OverlappingRegions,
}

/// Frame reclaim is unsupported in the bump-only design; the error keeps the
/// refusal loud instead of letting a caller believe memory was returned.
#[derive(Clone, Copy, Debug, PartialEq, Eq, Structural)]
pub enum FrameAllocError {
    DeallocateUnsupported,
}

/// The physical frame allocator: bump allocation over the copied memory map.
pub struct AreaFrameAllocator {
    memory_map: MemoryMap,
}

impl AreaFrameAllocator {
    pub closed spec fn spec_map(self) -> MemoryMap {
        self.memory_map
    }
}

/// Whether frame `f` lies in the part of a usable region that allocator
/// state `a` has not yet handed out.
pub open spec fn remaining_contains(a: AreaFrameAllocator, f: int) -> bool {
    exists|i: int|
        0 <= i < a.regions().len() && (#[trigger] a.regions()[i]).usable
            && a.regions()[i].start_frame_number <= f < a.regions()[i].end_frame_number
}

/// The sum of the frames left in the usable regions of `rs`.
pub open spec fn total_usable_frames(rs: Seq<MemoryRegion>) -> int
    decreases rs.len(),
{
    if rs.len() == 0 {
        0
    } else {
        total_usable_frames(rs.drop_last())
            + if rs.last().usable { rs.last().frames_left() } else { 0 }
    }
}

/// Region `i` is the first that can give up a frame.
pub open spec fn is_first_free_region(rs: Seq<MemoryRegion>, i: int) -> bool {
    &&& 0 <= i < rs.len()
    &&& rs[i].has_free_frame()
    &&& forall|j: int| 0 <= j < i ==> !(#[trigger] rs[j]).has_free_frame()
}

/// One successful allocation: frame `f` is the lowest frame of the first
/// usable region with a frame left, and that region's start boundary moves
/// one frame up.
pub open spec fn allocate_step(pre: AreaFrameAllocator, post: AreaFrameAllocator, f: int) -> bool {
    exists|i: int|
        {
            &&& is_first_free_region(pre.regions(), i)
            &&& f == pre.regions()[i].start_frame_number
            &&& post.regions() == pre.regions().update(
                i,
                MemoryRegion {
                    start_frame_number: (pre.regions()[i].start_frame_number + 1) as u64,
                    ..pre.regions()[i]
                },
            )
        }
}

impl AreaFrameAllocator {
    pub open spec fn regions(self) -> Seq<MemoryRegion> {
        self.spec_map().regions()
    }

    pub open spec fn wf(self) -> bool {
        self.spec_map().wf()
    }

    /// Builds the allocator over its own copy of the boot memory map;
    /// ownership of the region list passes fully to the kernel.
    pub fn new(memory_map: &MemoryMap) -> (r: AreaFrameAllocator)
        ensures
            r.regions() == memory_map.regions(),
            memory_map.wf() ==> r.wf(),
    {
        let mut regions: Vec<MemoryRegion> = Vec::new();
        let mut i: usize = 0;
        while i < memory_map.regions.len()
            invariant
                i <= memory_map.regions@.len(),
                regions@ == memory_map.regions@.take(i as int),
            decreases memory_map.regions@.len() - i,
        {
            regions.push(memory_map.regions[i]);
            i += 1;
        }
        proof {
            assert(regions@ =~= memory_map.regions@);
        }
        AreaFrameAllocator { memory_map: MemoryMap { regions } }
    }

    /// Hands out an unused physical frame, or reports exhaustion: the result
    /// is `None` exactly when no usable region has a frame left, that is,
    /// when the sum of remaining usable frames is zero.
    pub fn allocate_frame(&mut self) -> (r: Option<Frame>)
        requires
            old(self).wf(),
        ensures
            final(self).wf(),
            match r {
                Some(frame) => {
                    &&& allocate_step(*old(self), *final(self), frame.number as int)
                    &&& remaining_contains(*old(self), frame.number as int)
                    &&& !remaining_contains(*final(self), frame.number as int)
                    &&& forall|f: int|
                        remaining_contains(*final(self), f) ==> remaining_contains(*old(self), f)
                },
                None => *final(self) == *old(self),
            },
            r is None <==> total_usable_frames(old(self).regions()) == 0,
    {
        let regions_len = self.memory_map.regions.len();
        let mut i: usize = 0;
        while i < regions_len
            invariant
                self == old(self),
                regions_len == self.regions().len(),
                i <= regions_len,
                old(self).wf(),
                forall|j: int| 0 <= j < i ==> !(#[trigger] self.regions()[j]).has_free_frame(),
            decreases regions_len - i,
        {
            let region = self.memory_map.regions[i];
            if region.usable && region.start_frame_number < region.end_frame_number {
                let frame = Frame { number: region.start_frame_number };
                self.memory_map.regions[i] = MemoryRegion {
                    start_frame_number: region.start_frame_number + 1,
                    end_frame_number: region.end_frame_number,
                    usable: region.usable,
                };
                proof {
                    let rs0 = old(self).regions();
                    let rs1 = self.regions();
                    assert(is_first_free_region(rs0, i as int));
                    assert(rs1 == rs0.update(
                        i as int,
                        MemoryRegion {
                            start_frame_number: (rs0[i as int].start_frame_number + 1) as u64,
                            ..rs0[i as int]
                        },
                    ));
                    lemma_allocate_step_remaining(*old(self), *self, frame.number as int, i as int);
                    lemma_some_free_region_total_positive(rs0, i as int);
                }
                return Some(frame);
            }
            i += 1;
        }
        proof {
            lemma_no_free_region_total_zero(self.regions());
        }
        None
    }

    /// Declared-but-unsupported reclaim: always refuses, loudly, and leaves
    /// the allocator untouched.  A silent no-op would let callers believe
    /// memory was returned.
    pub fn deallocate_frame(&mut self, _frame: Frame) -> (r: Result<(), FrameAllocError>)
        ensures
            r == Result::<(), FrameAllocError>::Err(FrameAllocError::DeallocateUnsupported),
            *final(self) == *old(self),
    {
        Err(FrameAllocError::DeallocateUnsupported)
    }
}

/// After one allocation step the handed-out frame is gone from the remaining
/// frames, and no new frames appear.
proof fn lemma_allocate_step_remaining(
    pre: AreaFrameAllocator,
    post: AreaFrameAllocator,
    f: int,
    i: int,
)
    requires
        pre.wf(),
        is_first_free_region(pre.regions(), i),
        f == pre.regions()[i].start_frame_number,
        post.regions() == pre.regions().update(
            i,
            MemoryRegion {
                start_frame_number: (pre.regions()[i].start_frame_number + 1) as u64,
                ..pre.regions()[i]
            },
        ),
    ensures
        post.wf(),
        remaining_contains(pre, f),
        !remaining_contains(post, f),
        forall|g: int| remaining_contains(post, g) ==> remaining_contains(pre, g),
{
    let rs0 = pre.regions();
    let rs1 = post.regions();
    assert(remaining_contains(pre, f));
    assert forall|g: int| remaining_contains(post, g) implies remaining_contains(pre, g) by {
        let j = choose|j: int|
            0 <= j < rs1.len() && (#[trigger] rs1[j]).usable
                && rs1[j].start_frame_number <= g < rs1[j].end_frame_number;
        assert(rs0[j].usable && rs0[j].start_frame_number <= g < rs0[j].end_frame_number);
    }
    assert(!remaining_contains(post, f)) by {
        if remaining_contains(post, f) {
            let j = choose|j: int|
                0 <= j < rs1.len() && (#[trigger] rs1[j]).usable
                    && rs1[j].start_frame_number <= f < rs1[j].end_frame_number;
            if j == i {
                assert(rs1[j].start_frame_number == f + 1);
            } else {
                assert(regions_disjoint(rs0[i], rs0[j]));
            }
        }
    }
}

/// If some region still has a free frame, the usable total is positive.
proof fn lemma_some_free_region_total_positive(rs: Seq<MemoryRegion>, i: int)
    requires
        0 <= i < rs.len(),
        rs[i].has_free_frame(),
        forall|j: int| 0 <= j < rs.len() ==> (#[trigger] rs[j]).wf(),
    ensures
        total_usable_frames(rs) > 0,
    decreases rs.len(),
{
    lemma_total_usable_frames_nonneg(rs);
    if i == rs.len() - 1 {
        lemma_total_usable_frames_nonneg(rs.drop_last());
    } else {
        lemma_some_free_region_total_positive(rs.drop_last(), i);
    }
}

/// With every region either unusable or exhausted, the usable total is zero.
proof fn lemma_no_free_region_total_zero(rs: Seq<MemoryRegion>)
    requires
        forall|j: int| 0 <= j < rs.len() ==> !(#[trigger] rs[j]).has_free_frame(),
        forall|j: int| 0 <= j < rs.len() ==> (#[trigger] rs[j]).wf(),
    ensures
        total_usable_frames(rs) == 0,
    decreases rs.len(),
{
    if rs.len() > 0 {
        lemma_no_free_region_total_zero(rs.drop_last());
    }
}

/// The usable total never goes negative on a well-shaped map.
pub proof fn lemma_total_usable_frames_nonneg(rs: Seq<MemoryRegion>)
    requires
        forall|j: int| 0 <= j < rs.len() ==> (#[trigger] rs[j]).wf(),
    ensures
        total_usable_frames(rs) >= 0,
    decreases rs.len(),
{
    if rs.len() > 0 {
        lemma_total_usable_frames_nonneg(rs.drop_last());
    }
}

/// A prefix never holds more usable frames than the whole list.
proof fn lemma_total_usable_frames_take_le(rs: Seq<MemoryRegion>, i: int)
    requires
        0 <= i <= rs.len(),
        forall|j: int| 0 <= j < rs.len() ==> (#[trigger] rs[j]).wf(),
    ensures
        total_usable_frames(rs.take(i)) <= total_usable_frames(rs),
    decreases rs.len(),
{
    if i == rs.len() {
        assert(rs.take(i) =~= rs);
    } else {
        assert(rs.drop_last().take(i) =~= rs.take(i));
        lemma_total_usable_frames_take_le(rs.drop_last(), i);
    }
}

/// One more region adds exactly its contribution to the prefix total.
proof fn lemma_total_usable_frames_take_step(rs: Seq<MemoryRegion>, i: int)
    requires
        0 <= i < rs.len(),
    ensures
        total_usable_frames(rs.take(i + 1)) == total_usable_frames(rs.take(i)) + (
        if rs[i].usable {
            rs[i].frames_left()
        } else {
            0
        }),
{
    assert(rs.take(i + 1).drop_last() =~= rs.take(i));
    assert(rs.take(i + 1).last() == rs[i]);
}

impl MemoryMap {
    /// Whether the map still holds at least `needed` usable frames.
    pub fn has_usable_frames(&self, needed: u64) -> (r: bool)
        requires
            self.wf(),
        ensures
            r == (total_usable_frames(self.regions()) >= needed),
    {
        if needed == 0 {
            proof {
                lemma_total_usable_frames_nonneg(self.regions());
            }
            return true;
        }
        let mut acc: u64 = 0;
        let mut i: usize = 0;
        let n = self.regions.len();
        while i < n
            invariant
                self.wf(),
                n == self.regions().len(),
                i <= n,
                acc == total_usable_frames(self.regions().take(i as int)),
                acc < needed,
            decreases n - i,
        {
            let region = self.regions[i];
            let contribution: u64 = if region.usable {
                region.end_frame_number - region.start_frame_number
            } else {
                0
            };
            proof {
                lemma_total_usable_frames_take_step(self.regions(), i as int);
            }
            if contribution >= needed - acc {
                proof {
                    lemma_total_usable_frames_take_le(self.regions(), i as int + 1);
                }
                return true;
            }
            acc = acc + contribution;
            i += 1;
        }
        proof {
            assert(self.regions().take(n as int) =~= self.regions());
        }
        false
    }
}

/// Replacing one region changes the usable total by the difference of the
/// region contributions.
proof fn lemma_total_usable_frames_update(rs: Seq<MemoryRegion>, i: int, r: MemoryRegion)
    requires
        0 <= i < rs.len(),
    ensures
        total_usable_frames(rs.update(i, r)) == total_usable_frames(rs) - (
        if rs[i].usable {
            rs[i].frames_left()
        } else {
            0
        }) + (
        if r.usable {
            r.frames_left()
        } else {
            0
        }),
    decreases rs.len(),
{
    let updated = rs.update(i, r);
    if i == rs.len() - 1 {
        assert(updated.drop_last() =~= rs.drop_last());
        assert(updated.last() == r);
    } else {
        assert(updated.drop_last() =~= rs.drop_last().update(i, r));
        assert(updated.last() == rs.last());
        lemma_total_usable_frames_update(rs.drop_last(), i, r);
    }
}

/// One allocation step takes exactly one frame off the usable total.
pub proof fn lemma_allocate_step_total(pre: AreaFrameAllocator, post: AreaFrameAllocator, f: int)
    requires
        pre.wf(),
        allocate_step(pre, post, f),
    ensures
        total_usable_frames(post.regions()) == total_usable_frames(pre.regions()) - 1,
{
    let i = choose|i: int|
        {
            &&& is_first_free_region(pre.regions(), i)
            &&& f == pre.regions()[i].start_frame_number
            &&& post.regions() == pre.regions().update(
                i,
                MemoryRegion {
                    start_frame_number: (pre.regions()[i].start_frame_number + 1) as u64,
                    ..pre.regions()[i]
                },
            )
        };
    lemma_total_usable_frames_update(
        pre.regions(),
        i,
        MemoryRegion {
            start_frame_number: (pre.regions()[i].start_frame_number + 1) as u64,
            ..pre.regions()[i]
        },
    );
}

/// A run of the allocator: starting from `s`, the frame numbers in `fs` are
/// handed out one after the other, ending in state `t`.
pub open spec fn alloc_run(s: AreaFrameAllocator, fs: Seq<int>, t: AreaFrameAllocator) -> bool
    decreases fs.len(),
{
    if fs.len() == 0 {
        t == s
    } else {
        exists|mid: AreaFrameAllocator|
            #[trigger] allocate_step(s, mid, fs[0]) && alloc_run(mid, fs.drop_first(), t)
    }
}

/// Every frame a run hands out is unique and lies in the not-yet-consumed
/// part of a region marked usable in the map the run started from.
pub proof fn lemma_alloc_run_frames_unique(s: AreaFrameAllocator, fs: Seq<int>, t: AreaFrameAllocator)
    requires
        s.wf(),
        alloc_run(s, fs, t),
    ensures
        forall|k: int| 0 <= k < fs.len() ==> remaining_contains(s, #[trigger] fs[k]),
        forall|k: int| 0 <= k < fs.len() ==> !remaining_contains(t, #[trigger] fs[k]),
        forall|k1: int, k2: int| 0 <= k1 < k2 < fs.len() ==> #[trigger] fs[k1] != #[trigger] fs[k2],
    decreases fs.len(),
{
    if fs.len() > 0 {
        let mid = choose|mid: AreaFrameAllocator|
            #[trigger] allocate_step(s, mid, fs[0]) && alloc_run(mid, fs.drop_first(), t);
        let i = choose|i: int|
            {
                &&& is_first_free_region(s.regions(), i)
                &&& fs[0] == s.regions()[i].start_frame_number
                &&& mid.regions() == s.regions().update(
                    i,
                    MemoryRegion {
                        start_frame_number: (s.regions()[i].start_frame_number + 1) as u64,
                        ..s.regions()[i]
                    },
                )
            };
        lemma_allocate_step_remaining(s, mid, fs[0], i);
        lemma_alloc_run_frames_unique(mid, fs.drop_first(), t);
        lemma_alloc_run_remaining_shrinks(mid, fs.drop_first(), t);
        assert forall|k: int| 0 <= k < fs.len() implies remaining_contains(s, #[trigger] fs[k]) by {
            if k > 0 {
                assert(fs.drop_first()[k - 1] == fs[k]);
                assert(remaining_contains(mid, fs[k]));
            }
        }
        assert forall|k: int| 0 <= k < fs.len() implies !remaining_contains(t, #[trigger] fs[k]) by {
            if k == 0 {
                assert(!remaining_contains(mid, fs[0]));
            } else {
                assert(fs.drop_first()[k - 1] == fs[k]);
            }
        }
        assert forall|k1: int, k2: int| 0 <= k1 < k2 < fs.len() implies #[trigger] fs[k1] != #[trigger] fs[k2] by {
            if k1 == 0 {
                assert(fs.drop_first()[k2 - 1] == fs[k2]);
                assert(remaining_contains(mid, fs[k2]));
                assert(!remaining_contains(mid, fs[0]));
            } else {
                assert(fs.drop_first()[k1 - 1] == fs[k1]);
                assert(fs.drop_first()[k2 - 1] == fs[k2]);
            }
        }
    }
}

/// Along a run the remaining frames only shrink.
proof fn lemma_alloc_run_remaining_shrinks(s: AreaFrameAllocator, fs: Seq<int>, t: AreaFrameAllocator)
    requires
        s.wf(),
        alloc_run(s, fs, t),
    ensures
        forall|g: int| remaining_contains(t, g) ==> remaining_contains(s, g),
    decreases fs.len(),
{
    if fs.len() > 0 {
        let mid = choose|mid: AreaFrameAllocator|
            #[trigger] allocate_step(s, mid, fs[0]) && alloc_run(mid, fs.drop_first(), t);
        let i = choose|i: int|
            {
                &&& is_first_free_region(s.regions(), i)
                &&& fs[0] == s.regions()[i].start_frame_number
                &&& mid.regions() == s.regions().update(
                    i,
                    MemoryRegion {
                        start_frame_number: (s.regions()[i].start_frame_number + 1) as u64,
                        ..s.regions()[i]
                    },
                )
            };
        lemma_allocate_step_remaining(s, mid, fs[0], i);
        lemma_alloc_run_remaining_shrinks(mid, fs.drop_first(), t);
    }
}

} // verus!
