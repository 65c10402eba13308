//! The kernel heap allocator: a first-fit free-list allocator over the
//! mapped heap region.
//!
//! The allocator starts uninitialized and fails every request fast until
//! `init` hands it the heap range exactly once.  Allocation finds the first
//! free block with room for the aligned request, splits off the unused front
//! and tail back into the free list, and returns the aligned front.
//! Deallocation merges the freed block with its adjacent free neighbors, so
//! a freed block is immediately reusable as one contiguous block.  The
//! free-list state is plain data; callers guard it with the IRQ-safe lock
//! when interrupt handlers may also allocate.
use vstd::prelude::*;

verus! {

/// One block of the free list: the byte range `[addr, addr + size)`.
#[derive(Clone, Copy, Debug, PartialEq, Eq, Structural)]
pub struct FreeBlock {
    pub addr: usize,
    pub size: usize,
}

impl FreeBlock {
    /// First byte past the block.
    pub open spec fn end(self) -> int {
        self.addr + self.size
    }

    /// Whether byte `x` lies in the block.
    pub open spec fn covers(self, x: int) -> bool {
        self.addr <= x < self.end()
    }
}

/// The blocks neither overlap nor touch: a strict gap separates them.
pub open spec fn separated(a: FreeBlock, b: FreeBlock) -> bool {
    a.end() < b.addr || b.end() < a.addr
}

/// Whether some block of `s` covers byte `x`.
pub open spec fn covers_seq(s: Seq<FreeBlock>, x: int) -> bool {
    exists|k: int| 0 <= k < s.len() && (#[trigger] s[k]).covers(x)
}

/// The byte ranges `[a1, a1 + s1)` and `[a2, a2 + s2)` do not overlap.
pub open spec fn ranges_disjoint(a1: int, s1: int, a2: int, s2: int) -> bool {
    a1 + s1 <= a2 || a2 + s2 <= a1
}

/// `addr` rounded up to the next multiple of `align`.
pub open spec fn spec_round_up(addr: int, align: int) -> int {
    if addr % align == 0 {
        addr
    } else {
        addr + align - addr % align
    }
}

/// Whether block `b` has room for `size` bytes at alignment `align`.
pub open spec fn fits(b: FreeBlock, size: int, align: int) -> bool {
    spec_round_up(b.addr as int, align) + size <= b.end()
}

/// Whether some block of `s` has room for the request.
pub open spec fn can_allocate(s: Seq<FreeBlock>, size: int, align: int) -> bool {
    exists|k: int| 0 <= k < s.len() && fits(#[trigger] s[k], size, align)
}

/// Block `i` is the first of `s` with room for the request.
pub open spec fn is_first_fit(s: Seq<FreeBlock>, i: int, size: int, align: int) -> bool {
    &&& 0 <= i < s.len()
    &&& fits(s[i], size, align)
    &&& forall|j: int| 0 <= j < i ==> !fits(#[trigger] s[j], size, align)
}

/// The general-purpose allocator for the kernel's dynamic memory.
pub struct HeapAllocator {
    initialized: bool,
    heap_start: usize,
    heap_size: usize,
    free_list: Vec<FreeBlock>,
    live: Ghost<Map<int, int>>,
}

impl HeapAllocator {
    /// Whether `init` has run; before that every request fails fast.
    pub closed spec fn is_initialized(self) -> bool {
        self.initialized
    }

    /// First byte of the heap region.
    pub closed spec fn start(self) -> int {
        self.heap_start as int
    }

    /// Length of the heap region in bytes.
    pub closed spec fn size(self) -> int {
        self.heap_size as int
    }

    /// The free list.
    pub closed spec fn blocks(self) -> Seq<FreeBlock> {
        self.free_list@
    }

    /// The outstanding allocations: start address to size.
    pub closed spec fn live(self) -> Map<int, int> {
        self.live@
    }

    /// First byte past the heap region.
    pub open spec fn end(self) -> int {
        self.start() + self.size()
    }

    /// Allocator invariant.  The free blocks lie inside the heap, are
    /// nonempty, and are pairwise separated (maximally coalesced); the live
    /// allocations lie inside the heap, are pairwise disjoint, and are
    /// disjoint from every free block.  Before `init` there is nothing.
    pub open spec fn wf(self) -> bool {
        &&& self.end() <= usize::MAX
        &&& !self.is_initialized() ==> {
            &&& self.blocks().len() == 0
            &&& self.live() == Map::<int, int>::empty()
        }
        &&& forall|k: int|
            0 <= k < self.blocks().len() ==> {
                &&& (#[trigger] self.blocks()[k]).size >= 1
                &&& self.start() <= self.blocks()[k].addr
                &&& self.blocks()[k].end() <= self.end()
            }
        &&& forall|k1: int, k2: int|
            0 <= k1 < self.blocks().len() && 0 <= k2 < self.blocks().len() && k1 != k2
                ==> separated(#[trigger] self.blocks()[k1], #[trigger] self.blocks()[k2])
        &&& forall|p: int|
            #[trigger] self.live().dom().contains(p) ==> {
                &&& self.live()[p] >= 1
                &&& self.start() <= p
                &&& p + self.live()[p] <= self.end()
            }
        &&& forall|p1: int, p2: int|
            self.live().dom().contains(p1) && self.live().dom().contains(p2) && p1 != p2
                ==> ranges_disjoint(p1, #[trigger] self.live()[p1], p2, #[trigger] self.live()[p2])
        &&& forall|k: int, p: int|
            0 <= k < self.blocks().len() && self.live().dom().contains(p)
                ==> ranges_disjoint(
                    (#[trigger] self.blocks()[k]).addr as int,
                    self.blocks()[k].size as int,
                    p,
                    #[trigger] self.live()[p],
                )
    }

    /// Creates the allocator in its uninitialized state: every allocation
    /// request fails until `init` runs.
    pub fn new() -> (r: HeapAllocator)
        ensures
            r.wf(),
            !r.is_initialized(),
            r.blocks().len() == 0,
            r.live() == Map::<int, int>::empty(),
    {
        HeapAllocator {
            initialized: false,
            heap_start: 0,
            heap_size: 0,
            free_list: Vec::new(),
            live: Ghost(Map::empty()),
        }
    }

    /// Whether the allocator is ready; diagnostic code queries this flag.
    pub fn get_status(&self) -> (r: bool)
        ensures
            r == self.is_initialized(),
    {
        self.initialized
    }

    /// Hands the allocator the mapped heap range, exactly once: transitions
    /// it from uninitialized to ready.  A second call is a programming
    /// error; it is rejected and changes nothing.
    pub fn init(&mut self, heap_bottom: usize, heap_size: usize) -> (r: Result<(), HeapInitError>)
        requires
            old(self).wf(),
            heap_bottom + heap_size <= usize::MAX,
        ensures
            final(self).wf(),
            match r {
                Ok(()) => {
                    &&& !old(self).is_initialized()
                    &&& final(self).is_initialized()
                    &&& final(self).start() == heap_bottom
                    &&& final(self).size() == heap_size
                    &&& final(self).live() == Map::<int, int>::empty()
                    &&& heap_size > 0 ==> final(self).blocks() == seq![
                        FreeBlock { addr: heap_bottom, size: heap_size },
                    ]
                    &&& heap_size == 0 ==> final(self).blocks().len() == 0
                    &&& forall|x: int|
                        covers_seq(final(self).blocks(), x)
                            <==> heap_bottom <= x < heap_bottom + heap_size
                },
                Err(HeapInitError::AlreadyInitialized) => {
                    &&& old(self).is_initialized()
                    &&& *final(self) == *old(self)
                },
            },
            r is Err <==> old(self).is_initialized(),
    {
        if self.initialized {
            return Err(HeapInitError::AlreadyInitialized);
        }
        self.heap_start = heap_bottom;
        self.heap_size = heap_size;
        self.initialized = true;
        if heap_size > 0 {
            self.free_list.push(FreeBlock { addr: heap_bottom, size: heap_size });
        }
        proof {
            if heap_size > 0 {
                assert(self.blocks() =~= seq![FreeBlock { addr: heap_bottom, size: heap_size }]);
            }
            assert forall|x: int|
                covers_seq(self.blocks(), x) <==> heap_bottom <= x < heap_bottom + heap_size by {
                if heap_bottom <= x < heap_bottom + heap_size {
                    assert(self.blocks()[0].covers(x));
                }
            }
        }
        Ok(())
    }

    /// Serves an allocation request of `size` bytes at alignment `align`:
    /// first fit, split, return the aligned front.  Fails exactly when the
    /// allocator is uninitialized or no free block has room.
    pub fn allocate(&mut self, size: usize, align: usize) -> (r: Option<usize>)
        requires
            old(self).wf(),
            size >= 1,
            align >= 1,
        ensures
            final(self).wf(),
            final(self).is_initialized() == old(self).is_initialized(),
            final(self).start() == old(self).start(),
            final(self).size() == old(self).size(),
            r is Some <==> (old(self).is_initialized() && can_allocate(
                old(self).blocks(),
                size as int,
                align as int,
            )),
            r is None ==> *final(self) == *old(self),
            match r {
                Some(a) => {
                    &&& a as int % align as int == 0
                    &&& old(self).start() <= a
                    &&& a + size <= old(self).end()
                    &&& exists|i: int|
                        is_first_fit(old(self).blocks(), i, size as int, align as int)
                            && a == spec_round_up(
                            (#[trigger] old(self).blocks()[i]).addr as int,
                            align as int,
                        )
                    &&& forall|x: int|
                        covers_seq(final(self).blocks(), x)
                            <==> (covers_seq(old(self).blocks(), x) && !(a <= x < a + size))
                    &&& final(self).live() == old(self).live().insert(a as int, size as int)
                    &&& forall|p: int|
                        #[trigger] old(self).live().dom().contains(p)
                            ==> ranges_disjoint(a as int, size as int, p, old(self).live()[p])
                },
                None => true,
            },
    {
        if !self.initialized {
            return None;
        }
        let n = self.free_list.len();
        let mut i: usize = 0;
        while i < n
            invariant
                *self == *old(self),
                old(self).wf(),
                old(self).is_initialized(),
                n == self.blocks().len(),
                i <= n,
                size >= 1,
                align >= 1,
                forall|j: int| 0 <= j < i ==> !fits(#[trigger] self.blocks()[j], size as int, align as int),
            decreases n - i,
        {
            let b = self.free_list[i];
            proof {
                assert(b == self.blocks()[i as int]);
                assert(b.size >= 1 && self.start() <= b.addr && b.end() <= self.end());
            }
            let rem = b.addr % align;
            let pad = if rem == 0 { 0usize } else { align - rem };
            if pad <= b.size && size <= b.size - pad {
                let a = b.addr + pad;
                let tail_size = b.size - pad - size;
                let ghost olds = self.blocks();
                let ghost oldlive = self.live@;
                self.free_list.remove(i);
                if pad > 0 {
                    self.free_list.push(FreeBlock { addr: b.addr, size: pad });
                }
                if tail_size > 0 {
                    self.free_list.push(FreeBlock { addr: a + size, size: tail_size });
                }
                self.live = Ghost(self.live@.insert(a as int, size as int));
                proof {
                    lemma_allocate_update(
                        *old(self),
                        *self,
                        olds,
                        oldlive,
                        i as int,
                        b,
                        a as int,
                        size as int,
                        align as int,
                        pad as int,
                        tail_size as int,
                    );
                    assert(fits(b, size as int, align as int));
                    assert(is_first_fit(olds, i as int, size as int, align as int));
                }
                return Some(a);
            }
            proof {
                assert(spec_round_up(b.addr as int, align as int) == b.addr + pad);
                assert(!fits(b, size as int, align as int));
            }
            i += 1;
        }
        proof {
            assert(!can_allocate(self.blocks(), size as int, align as int)) by {
                if can_allocate(self.blocks(), size as int, align as int) {
                    let k = choose|k: int|
                        0 <= k < self.blocks().len() && fits(
                            #[trigger] self.blocks()[k],
                            size as int,
                            align as int,
                        );
                }
            }
        }
        None
    }

    /// Returns the block `[addr, addr + size)` of an outstanding allocation
    /// to the free list, merging it with its adjacent free neighbors: the
    /// freed bytes end up inside one contiguous free block, immediately
    /// reusable for any request of equal or smaller size.
    pub fn deallocate(&mut self, addr: usize, size: usize, _align: usize)
        requires
            old(self).wf(),
            old(self).is_initialized(),
            old(self).live().dom().contains(addr as int),
            old(self).live()[addr as int] == size as int,
        ensures
            final(self).wf(),
            final(self).is_initialized(),
            final(self).start() == old(self).start(),
            final(self).size() == old(self).size(),
            final(self).live() == old(self).live().remove(addr as int),
            forall|x: int|
                covers_seq(final(self).blocks(), x)
                    <==> (covers_seq(old(self).blocks(), x) || addr <= x < addr + size),
            exists|k: int|
                0 <= k < final(self).blocks().len()
                    && (#[trigger] final(self).blocks()[k]).addr <= addr
                    && addr + size <= final(self).blocks()[k].end(),
    {
        proof {
            assert(size >= 1 && addr + size <= self.end());
        }
        let ghost olds = self.blocks();
        let ghost oldlive = self.live@;
        let n = self.free_list.len();
        let mut out: Vec<FreeBlock> = Vec::new();
        let ghost mut srcs: Seq<int> = Seq::empty();
        let mut new_addr: usize = addr;
        let mut new_end: usize = addr + size;
        let mut i: usize = 0;
        while i < n
            invariant
                *old(self) == *self,
                old(self).wf(),
                old(self).is_initialized(),
                oldlive == self.live(),
                oldlive.dom().contains(addr as int),
                oldlive[addr as int] == size as int,
                size >= 1,
                addr + size <= self.end(),
                olds == self.blocks(),
                n == olds.len(),
                i <= n,
                srcs.len() == out@.len(),
                forall|k1: int, k2: int| 0 <= k1 < k2 < srcs.len() ==> #[trigger] srcs[k1] < #[trigger] srcs[k2],
                forall|k: int|
                    0 <= k < srcs.len() ==> {
                        &&& 0 <= #[trigger] srcs[k] < i
                        &&& out@[k] == olds[srcs[k]]
                        &&& olds[srcs[k]].end() != addr as int
                        &&& olds[srcs[k]].addr as int != addr + size
                    },
                new_addr <= addr,
                addr + size <= new_end,
                self.start() <= new_addr,
                new_end <= self.end(),
                new_addr < addr ==> (exists|j: int|
                    0 <= j < i && (#[trigger] olds[j]).addr == new_addr && olds[j].end() == addr as int),
                new_end > addr + size ==> (exists|j: int|
                    0 <= j < i && (#[trigger] olds[j]).addr == addr + size && olds[j].end() == new_end as int),
                forall|x: int|
                    (covers_seq(out@, x) || new_addr <= x < new_end)
                        <==> (covers_prefix(olds, i as int, x) || addr <= x < addr + size),
            decreases n - i,
        {
            let b = self.free_list[i];
            let ghost pre_addr = new_addr as int;
            let ghost pre_end = new_end as int;
            let ghost pre_out = out@;
            proof {
                assert(b == olds[i as int]);
                assert(b.size >= 1 && self.start() <= b.addr && b.end() <= self.end());
                assert(ranges_disjoint(b.addr as int, b.size as int, addr as int, size as int));
            }
            if b.addr + b.size == addr {
                proof {
                    lemma_unique_neighbor(olds, i as int);
                    assert(new_addr == addr) by {
                        if new_addr < addr {
                            let j = choose|j: int|
                                0 <= j < i && (#[trigger] olds[j]).addr == new_addr
                                    && olds[j].end() == addr as int;
                            assert(separated(olds[j], olds[i as int]));
                        }
                    }
                }
                new_addr = b.addr;
                proof {
                    assert forall|x: int|
                        (covers_seq(out@, x) || new_addr <= x < new_end)
                            <==> (covers_prefix(olds, i as int + 1, x) || addr <= x < addr + size) by {
                        lemma_covers_prefix_step(olds, i as int, x);
                        assert((covers_seq(out@, x) || pre_addr <= x < pre_end)
                            <==> (covers_prefix(olds, i as int, x) || addr <= x < addr + size));
                        if b.covers(x) {
                            assert(new_addr <= x < new_end);
                        }
                        if new_addr <= x < new_end && !(pre_addr <= x < pre_end) {
                            assert(b.covers(x));
                        }
                    }
                }
            } else if b.addr == addr + size {
                proof {
                    lemma_unique_neighbor(olds, i as int);
                    assert(new_end == addr + size) by {
                        if new_end > addr + size {
                            let j = choose|j: int|
                                0 <= j < i && (#[trigger] olds[j]).addr == addr + size
                                    && olds[j].end() == new_end as int;
                            assert(separated(olds[j], olds[i as int]));
                        }
                    }
                }
                new_end = b.addr + b.size;
                proof {
                    assert forall|x: int|
                        (covers_seq(out@, x) || new_addr <= x < new_end)
                            <==> (covers_prefix(olds, i as int + 1, x) || addr <= x < addr + size) by {
                        lemma_covers_prefix_step(olds, i as int, x);
                        assert((covers_seq(out@, x) || pre_addr <= x < pre_end)
                            <==> (covers_prefix(olds, i as int, x) || addr <= x < addr + size));
                        if b.covers(x) {
                            assert(new_addr <= x < new_end);
                        }
                        if new_addr <= x < new_end && !(pre_addr <= x < pre_end) {
                            assert(b.covers(x));
                        }
                    }
                }
            } else {
                out.push(b);
                proof {
                    srcs = srcs.push(i as int);
                    assert(out@ == pre_out.push(b));
                    assert forall|x: int|
                        (covers_seq(out@, x) || new_addr <= x < new_end)
                            <==> (covers_prefix(olds, i as int + 1, x) || addr <= x < addr + size) by {
                        lemma_covers_prefix_step(olds, i as int, x);
                        lemma_covers_push(pre_out, b, x);
                        assert((covers_seq(pre_out, x) || pre_addr <= x < pre_end)
                            <==> (covers_prefix(olds, i as int, x) || addr <= x < addr + size));
                    }
                }
            }
            i += 1;
        }
        let merged = FreeBlock { addr: new_addr, size: new_end - new_addr };
        let ghost pre_push = out@;
        out.push(merged);
        let ghost outs = out@;
        proof {
            assert(outs.drop_last() =~= pre_push);
        }
        self.free_list = out;
        self.live = Ghost(self.live@.remove(addr as int));
        proof {
            lemma_deallocate_update(
                *old(self),
                *self,
                olds,
                oldlive,
                srcs,
                outs,
                merged,
                addr as int,
                size as int,
            );
        }
    }
}

/// Whether some of the first `i` blocks of `s` covers byte `x`.
pub open spec fn covers_prefix(s: Seq<FreeBlock>, i: int, x: int) -> bool {
    exists|k: int| 0 <= k < i && k < s.len() && (#[trigger] s[k]).covers(x)
}

/// Extending the prefix by one block extends its coverage by that block.
proof fn lemma_covers_prefix_step(s: Seq<FreeBlock>, i: int, x: int)
    requires
        0 <= i < s.len(),
    ensures
        covers_prefix(s, i + 1, x) <==> (covers_prefix(s, i, x) || s[i].covers(x)),
{
    if covers_prefix(s, i + 1, x) {
        let k = choose|k: int| 0 <= k < i + 1 && k < s.len() && (#[trigger] s[k]).covers(x);
        if k < i {
            assert(covers_prefix(s, i, x));
        }
    }
}

/// Pushing a block extends coverage by that block.
proof fn lemma_covers_push(s: Seq<FreeBlock>, b: FreeBlock, x: int)
    ensures
        covers_seq(s.push(b), x) <==> (covers_seq(s, x) || b.covers(x)),
{
    let t = s.push(b);
    if covers_seq(t, x) {
        let k = choose|k: int| 0 <= k < t.len() && (#[trigger] t[k]).covers(x);
        if k < s.len() {
            assert(s[k] == t[k]);
            assert(covers_seq(s, x));
        }
    }
    if covers_seq(s, x) {
        let k = choose|k: int| 0 <= k < s.len() && (#[trigger] s[k]).covers(x);
        assert(t[k] == s[k]);
    }
    if b.covers(x) {
        assert(t[t.len() - 1] == b);
    }
}

/// In a separated block list, at most one block ends at a given byte and at
/// most one starts at it: block `i`'s boundaries are its own.
proof fn lemma_unique_neighbor(s: Seq<FreeBlock>, i: int)
    requires
        0 <= i < s.len(),
        forall|k: int| 0 <= k < s.len() ==> (#[trigger] s[k]).size >= 1,
        forall|k1: int, k2: int|
            0 <= k1 < s.len() && 0 <= k2 < s.len() && k1 != k2
                ==> separated(#[trigger] s[k1], #[trigger] s[k2]),
    ensures
        forall|k: int|
            0 <= k < s.len() && k != i ==> (#[trigger] s[k]).end() != s[i].end()
                && s[k].addr != s[i].addr,
{
    assert forall|k: int|
        0 <= k < s.len() && k != i implies (#[trigger] s[k]).end() != s[i].end()
            && s[k].addr != s[i].addr by {
        assert(separated(s[k], s[i]));
    }
}

/// The free-list surgery of one allocation keeps the allocator invariant
/// and removes exactly the returned range from the free space.
#[verifier::spinoff_prover]
proof fn lemma_allocate_update(
    pre: HeapAllocator,
    post: HeapAllocator,
    olds: Seq<FreeBlock>,
    oldlive: Map<int, int>,
    i: int,
    b: FreeBlock,
    a: int,
    size: int,
    align: int,
    pad: int,
    tail_size: int,
)
    requires
        pre.wf(),
        pre.is_initialized(),
        olds == pre.blocks(),
        oldlive == pre.live(),
        0 <= i < olds.len(),
        b == olds[i],
        pad == if b.addr as int % align == 0 { 0int } else { align - b.addr as int % align },
        align >= 1,
        size >= 1,
        pad >= 0,
        tail_size >= 0,
        a == b.addr + pad,
        pad + size + tail_size == b.size,
        post.is_initialized() == pre.is_initialized(),
        post.start() == pre.start(),
        post.size() == pre.size(),
        post.live() == oldlive.insert(a, size),
        post.blocks() == if pad > 0 && tail_size > 0 {
            olds.remove(i).push(FreeBlock { addr: b.addr, size: pad as usize }).push(
                FreeBlock { addr: (a + size) as usize, size: tail_size as usize },
            )
        } else if pad > 0 {
            olds.remove(i).push(FreeBlock { addr: b.addr, size: pad as usize })
        } else if tail_size > 0 {
            olds.remove(i).push(FreeBlock { addr: (a + size) as usize, size: tail_size as usize })
        } else {
            olds.remove(i)
        },
    ensures
        post.wf(),
        a % align == 0,
        pre.start() <= a,
        a + size <= pre.end(),
        forall|x: int|
            covers_seq(post.blocks(), x) <==> (covers_seq(olds, x) && !(a <= x < a + size)),
        forall|p: int|
            #[trigger] oldlive.dom().contains(p) ==> ranges_disjoint(a, size, p, oldlive[p]),
{
    let news = post.blocks();
    let removed = olds.remove(i);
    olds.remove_ensures(i);
    assert(b.size >= 1 && pre.start() <= b.addr && b.end() <= pre.end());
    assert(0 <= pad < align) by {
        assert(b.addr as int % align >= 0);
        assert(b.addr as int % align < align);
    }
    assert(a % align == 0) by {
        let x = b.addr as int;
        let q = x / align;
        vstd::arithmetic::div_mod::lemma_fundamental_div_mod(x, align);
        if x % align == 0 {
            assert(a == align * q);
            assert((align * q) % align == 0) by (nonlinear_arith)
                requires align >= 1;
        } else {
            assert(a == align * q + align);
            assert(align * (q + 1) == align * q + align) by (nonlinear_arith);
            assert((align * (q + 1)) % align == 0) by (nonlinear_arith)
                requires align >= 1;
        }
    }
    // every new block sits inside an old one
    let front = FreeBlock { addr: b.addr, size: pad as usize };
    let tail = FreeBlock { addr: (a + size) as usize, size: tail_size as usize };
    assert(forall|k: int|
        0 <= k < removed.len() ==> #[trigger] removed[k] == olds[if k < i { k } else { k + 1 }]);
    // blocks of the new list, by index
    assert forall|k: int| 0 <= k < news.len() implies {
        &&& (#[trigger] news[k]).size >= 1
        &&& post.start() <= news[k].addr
        &&& news[k].end() <= post.end()
    } by {
        if k < removed.len() {
            assert(news[k] == removed[k]);
        } else {
            assert(news[k] == front || news[k] == tail);
        }
    }
    // pairwise separation
    assert forall|k1: int, k2: int|
        0 <= k1 < news.len() && 0 <= k2 < news.len() && k1 != k2
            implies separated(#[trigger] news[k1], #[trigger] news[k2]) by {
        lemma_split_separated(olds, removed, i, b, front, tail, pad, size, tail_size, news, k1, k2);
    }
    // coverage: exactly the old space minus the returned range
    assert forall|x: int|
        covers_seq(news, x) <==> (covers_seq(olds, x) && !(a <= x < a + size)) by {
        if covers_seq(news, x) {
            let k = choose|k: int| 0 <= k < news.len() && (#[trigger] news[k]).covers(x);
            if k < removed.len() {
                let j: int = if k < i { k } else { k + 1 };
                assert(olds[j].covers(x));
                assert(covers_seq(olds, x));
                assert(separated(olds[j], olds[i]));
                assert(!(a <= x < a + size));
            } else {
                assert(news[k] == front || news[k] == tail);
                assert(b.covers(x));
                assert(covers_seq(olds, x));
                assert(!(a <= x < a + size));
            }
        }
        if covers_seq(olds, x) && !(a <= x < a + size) {
            let j = choose|j: int| 0 <= j < olds.len() && (#[trigger] olds[j]).covers(x);
            if j != i {
                let k: int = if j < i { j } else { j - 1 };
                assert(news[k] == removed[k] && removed[k] == olds[j]);
                assert(news[k].covers(x));
            } else {
                if x < a {
                    assert(pad > 0);
                    assert(front.covers(x));
                    assert(news[removed.len() as int] == front);
                } else {
                    assert(x >= a + size);
                    assert(tail_size > 0);
                    assert(tail.covers(x));
                    assert(news[news.len() - 1] == tail);
                }
            }
        }
    }
    // the returned range was free, so it is disjoint from every live range
    assert forall|p: int|
        #[trigger] oldlive.dom().contains(p) implies ranges_disjoint(a, size, p, oldlive[p]) by {
        assert(ranges_disjoint(b.addr as int, b.size as int, p, oldlive[p]));
    }
    // live-map invariants of the new state
    let newlive = post.live();
    assert(!oldlive.dom().contains(a)) by {
        if oldlive.dom().contains(a) {
            assert(ranges_disjoint(b.addr as int, b.size as int, a, oldlive[a]));
        }
    }
    assert forall|p1: int, p2: int|
        newlive.dom().contains(p1) && newlive.dom().contains(p2) && p1 != p2
            implies ranges_disjoint(p1, #[trigger] newlive[p1], p2, #[trigger] newlive[p2]) by {
        if p1 == a {
            assert(ranges_disjoint(a, size, p2, oldlive[p2]));
        } else if p2 == a {
            assert(ranges_disjoint(a, size, p1, oldlive[p1]));
        }
    }
    assert forall|k: int, p: int|
        0 <= k < news.len() && newlive.dom().contains(p)
            implies ranges_disjoint(
                (#[trigger] news[k]).addr as int,
                news[k].size as int,
                p,
                #[trigger] newlive[p],
            ) by {
        if k < removed.len() {
            let j: int = if k < i { k } else { k + 1 };
            assert(news[k] == olds[j]);
            if p == a {
                assert(separated(olds[j], olds[i]));
            } else {
                assert(ranges_disjoint(olds[j].addr as int, olds[j].size as int, p, oldlive[p]));
            }
        } else {
            assert(news[k] == front || news[k] == tail);
            if p == a {
            } else {
                assert(ranges_disjoint(b.addr as int, b.size as int, p, oldlive[p]));
            }
        }
    }
}

/// Separation of the post-allocation free list, pair by pair.
proof fn lemma_split_separated(
    olds: Seq<FreeBlock>,
    removed: Seq<FreeBlock>,
    i: int,
    b: FreeBlock,
    front: FreeBlock,
    tail: FreeBlock,
    pad: int,
    size: int,
    tail_size: int,
    news: Seq<FreeBlock>,
    k1: int,
    k2: int,
)
    requires
        0 <= i < olds.len(),
        b == olds[i],
        forall|k: int| 0 <= k < olds.len() ==> (#[trigger] olds[k]).size >= 1,
        forall|j1: int, j2: int|
            0 <= j1 < olds.len() && 0 <= j2 < olds.len() && j1 != j2
                ==> separated(#[trigger] olds[j1], #[trigger] olds[j2]),
        removed == olds.remove(i),
        front.addr == b.addr && front.size == pad,
        tail.addr as int == b.addr + pad + size && tail.size == tail_size,
        pad >= 0,
        size >= 1,
        tail_size >= 0,
        pad + size + tail_size == b.size,
        news == if pad > 0 && tail_size > 0 {
            removed.push(front).push(tail)
        } else if pad > 0 {
            removed.push(front)
        } else if tail_size > 0 {
            removed.push(tail)
        } else {
            removed
        },
        0 <= k1 < news.len(),
        0 <= k2 < news.len(),
        k1 != k2,
    ensures
        separated(news[k1], news[k2]),
{
    olds.remove_ensures(i);
    let n1 = news[k1];
    let n2 = news[k2];
    if k1 < removed.len() && k2 < removed.len() {
        let j1: int = if k1 < i { k1 } else { k1 + 1 };
        let j2: int = if k2 < i { k2 } else { k2 + 1 };
        assert(n1 == olds[j1] && n2 == olds[j2]);
        assert(separated(olds[j1], olds[j2]));
    } else if k1 < removed.len() {
        let j1: int = if k1 < i { k1 } else { k1 + 1 };
        assert(n1 == olds[j1]);
        assert(n2 == front || n2 == tail);
        assert(separated(olds[j1], olds[i]));
    } else if k2 < removed.len() {
        let j2: int = if k2 < i { k2 } else { k2 + 1 };
        assert(n2 == olds[j2]);
        assert(n1 == front || n1 == tail);
        assert(separated(olds[j2], olds[i]));
    } else {
        assert((n1 == front && n2 == tail) || (n1 == tail && n2 == front));
    }
}

/// The free-list surgery of one deallocation keeps the allocator invariant
/// and adds exactly the freed range, inside one contiguous block.
#[verifier::spinoff_prover]
proof fn lemma_deallocate_update(
    pre: HeapAllocator,
    post: HeapAllocator,
    olds: Seq<FreeBlock>,
    oldlive: Map<int, int>,
    srcs: Seq<int>,
    outs: Seq<FreeBlock>,
    merged: FreeBlock,
    addr: int,
    size: int,
)
    requires
        pre.wf(),
        pre.is_initialized(),
        olds == pre.blocks(),
        oldlive == pre.live(),
        oldlive.dom().contains(addr),
        oldlive[addr] == size,
        size >= 1,
        post.is_initialized() == pre.is_initialized(),
        post.start() == pre.start(),
        post.size() == pre.size(),
        post.live() == oldlive.remove(addr),
        outs.len() == srcs.len() + 1,
        outs[outs.len() - 1] == merged,
        post.blocks() == outs,
        forall|k1: int, k2: int| 0 <= k1 < k2 < srcs.len() ==> #[trigger] srcs[k1] < #[trigger] srcs[k2],
        forall|k: int|
            0 <= k < srcs.len() ==> {
                &&& 0 <= #[trigger] srcs[k] < olds.len()
                &&& outs[k] == olds[srcs[k]]
                &&& olds[srcs[k]].end() != addr
                &&& olds[srcs[k]].addr as int != addr + size
            },
        merged.addr <= addr,
        addr + size <= merged.end(),
        pre.start() <= merged.addr,
        merged.end() <= pre.end(),
        (merged.addr as int) < addr ==> (exists|j: int|
            0 <= j < olds.len() && (#[trigger] olds[j]).addr == merged.addr
                && olds[j].end() == addr),
        merged.end() > addr + size ==> (exists|j: int|
            0 <= j < olds.len() && (#[trigger] olds[j]).addr as int == addr + size
                && olds[j].end() == merged.end()),
        forall|x: int|
            (covers_seq(outs.drop_last(), x) || merged.addr <= x < merged.end())
                <==> (covers_seq(olds, x) || addr <= x < addr + size),
    ensures
        post.wf(),
        forall|x: int|
            covers_seq(post.blocks(), x) <==> (covers_seq(olds, x) || addr <= x < addr + size),
        post.blocks()[post.blocks().len() - 1].addr <= addr,
        addr + size <= post.blocks()[post.blocks().len() - 1].end(),
{
    let newlive = post.live();
    let last = outs.len() - 1;
    assert(merged.size >= 1);
    // coverage of the final list equals prefix coverage plus the merged block
    assert forall|x: int|
        covers_seq(outs, x) <==> (covers_seq(olds, x) || addr <= x < addr + size) by {
        if covers_seq(outs, x) {
            let k = choose|k: int| 0 <= k < outs.len() && (#[trigger] outs[k]).covers(x);
            if k < last {
                assert(covers_seq(outs.drop_last(), x)) by {
                    assert(outs.drop_last()[k] == outs[k]);
                }
            } else {
                assert(merged.covers(x));
            }
        }
        if covers_seq(olds, x) || addr <= x < addr + size {
            if covers_seq(outs.drop_last(), x) {
                let k = choose|k: int|
                    0 <= k < outs.drop_last().len() && (#[trigger] outs.drop_last()[k]).covers(x);
                assert(outs[k] == outs.drop_last()[k]);
            } else {
                assert(merged.covers(x));
                assert(outs[last] == merged);
            }
        }
    }
    // block bounds
    assert forall|k: int| 0 <= k < outs.len() implies {
        &&& (#[trigger] outs[k]).size >= 1
        &&& post.start() <= outs[k].addr
        &&& outs[k].end() <= post.end()
    } by {
        if k < last {
            assert(outs[k] == olds[srcs[k]]);
        }
    }
    // the merged block is separated from every kept block
    assert forall|k: int| 0 <= k < last implies separated(#[trigger] outs[k], merged) by {
        let bj = olds[srcs[k]];
        assert(outs[k] == bj);
        assert(ranges_disjoint(bj.addr as int, bj.size as int, addr, size));
        assert(bj.end() != addr && bj.addr as int != addr + size);
        if bj.end() < addr {
            // left of the freed range; show it is also left of the merged block
            if (merged.addr as int) < addr {
                let j = choose|j: int|
                    0 <= j < olds.len() && (#[trigger] olds[j]).addr == merged.addr
                        && olds[j].end() == addr;
                if j == srcs[k] {
                    assert(bj.end() == addr);
                } else {
                    assert(separated(bj, olds[j]));
                }
            }
        } else {
            assert(bj.addr as int > addr + size);
            if merged.end() > addr + size {
                let j = choose|j: int|
                    0 <= j < olds.len() && (#[trigger] olds[j]).addr as int == addr + size
                        && olds[j].end() == merged.end();
                if j == srcs[k] {
                    assert(bj.addr as int == addr + size);
                } else {
                    assert(separated(bj, olds[j]));
                }
            }
        }
    }
    // pairwise separation of the final list
    assert forall|k1: int, k2: int|
        0 <= k1 < outs.len() && 0 <= k2 < outs.len() && k1 != k2
            implies separated(#[trigger] outs[k1], #[trigger] outs[k2]) by {
        if k1 < last && k2 < last {
            assert(outs[k1] == olds[srcs[k1]] && outs[k2] == olds[srcs[k2]]);
            assert(srcs[k1] != srcs[k2]) by {
                if k1 < k2 {
                    assert(srcs[k1] < srcs[k2]);
                } else {
                    assert(srcs[k2] < srcs[k1]);
                }
            }
            assert(separated(olds[srcs[k1]], olds[srcs[k2]]));
        }
    }
    // live ranges of the new state keep their invariants
    assert forall|k: int, p: int|
        0 <= k < outs.len() && newlive.dom().contains(p)
            implies ranges_disjoint(
                (#[trigger] outs[k]).addr as int,
                outs[k].size as int,
                p,
                #[trigger] newlive[p],
            ) by {
        assert(p != addr);
        assert(oldlive.dom().contains(p) && oldlive[p] == newlive[p]);
        if k < last {
            assert(outs[k] == olds[srcs[k]]);
            assert(ranges_disjoint(outs[k].addr as int, outs[k].size as int, p, oldlive[p]));
        } else {
            // pointwise: the merged block is old free space plus the freed
            // live range, both disjoint from the live range at p
            assert(outs[k] == merged);
            if !ranges_disjoint(merged.addr as int, merged.size as int, p, oldlive[p]) {
                let x: int = if merged.addr as int >= p { merged.addr as int } else { p };
                assert(merged.covers(x));
                assert(p <= x < p + oldlive[p]);
                assert(covers_seq(olds, x) || addr <= x < addr + size) by {
                    assert(covers_seq(outs, x));
                }
                if addr <= x < addr + size {
                    assert(ranges_disjoint(addr, size, p, oldlive[p]));
                } else {
                    let j = choose|j: int| 0 <= j < olds.len() && (#[trigger] olds[j]).covers(x);
                    assert(ranges_disjoint(olds[j].addr as int, olds[j].size as int, p, oldlive[p]));
                }
            }
        }
    }
}

/// Double initialization is rejected; the first `init` wins.
#[derive(Clone, Copy, Debug, PartialEq, Eq, Structural)]
pub enum HeapInitError {
    AlreadyInitialized,
}

/// No two outstanding allocations overlap: live ranges are pairwise
/// disjoint in every reachable allocator state.
pub proof fn lemma_live_allocations_disjoint(h: HeapAllocator, p1: int, p2: int)
    requires
        h.wf(),
        h.live().dom().contains(p1),
        h.live().dom().contains(p2),
        p1 != p2,
    ensures
        ranges_disjoint(p1, h.live()[p1], p2, h.live()[p2]),
{
}

/// Reuse: once a freed range sits inside one free block, any request of
/// equal or smaller size (at alignment one) can be served again.
pub proof fn lemma_freed_block_reusable(h: HeapAllocator, k: int, addr: int, size: int, request: int)
    requires
        h.wf(),
        0 <= k < h.blocks().len(),
        h.blocks()[k].addr <= addr,
        addr + size <= h.blocks()[k].end(),
        1 <= request <= size,
    ensures
        can_allocate(h.blocks(), request, 1),
{
    let b = h.blocks()[k];
    assert(b.addr as int % 1 == 0);
    assert(spec_round_up(b.addr as int, 1) == b.addr);
    assert(fits(b, request, 1));
}

} // verus!
