//! The architecture init sequence: from the bootloader's handoff to a
//! running kernel.
//!
//! The bootloader leaves the kernel a memory map and a page table.  This
//! sequence validates the handoff, builds the frame allocator, maps the
//! heap and reserves the stack region, initializes the heap allocator and
//! publishes it behind the IRQ-safe lock, installs the descriptor tables
//! with the dedicated fault stack, remaps the interrupt controllers, and
//! finally enables interrupts.  Every fatal condition is detected before
//! any memory operation depends on it.
use vstd::prelude::*;

use crate::frame_alloc::BootInfoError;
use crate::frame_alloc::MemoryMap;
use crate::frame_alloc::region_of;
use crate::frame_alloc::regions_disjoint;
use crate::frame_alloc::total_usable_frames;
use crate::gdt::FAULT_STACK_SIZE;
use crate::gdt::FaultStack;
use crate::gdt::Gdt;
use crate::heap::HeapAllocator;
use crate::heap::covers_seq;
use crate::idt::Idt;
use crate::interrupts::InterruptFlags;
use crate::irq_lock::IrqLock;
use crate::keyboard::Keyboard;
use crate::keycodes::ModifierState;
use crate::memory::HEAP_SIZE;
use crate::memory::HEAP_START;
use crate::memory::InitOnce;
use crate::memory::MemoryController;
use crate::memory::STACK_REGION_PAGES;
use crate::memory::heap_end_page;
use crate::memory::heap_page_count;
use crate::memory::heap_start_page;
use crate::paging::Page;
use crate::paging::PageFlags;
use crate::paging::PageTable;
use crate::pic8259::ChainedPics;
use crate::pic8259::PIC_1_OFFSET;
use crate::pic8259::PIC_2_OFFSET;
use crate::time::Time;

verus! {

/// Why the boot sequence aborted.  Every case is fatal: before the heap
/// exists there is no recovery path, the embedding reports and halts.
#[derive(Clone, Copy, Debug, PartialEq, Eq, Structural)]
pub enum BootError {
    /// The one-time initialization already ran.
    AlreadyInitialized,
    /// The boot-information structure is malformed.
    BadBootInfo(BootInfoError),
    /// The machine word is too small to address the configured heap.
    AddressSpaceTooSmall,
    /// The static fault-stack buffer does not fit in the address space.
    FaultStackOutOfRange,
    /// The memory map has fewer usable frames than the heap needs.
    OutOfFrames,
    /// The handed-over page table already maps part of the heap or stack
    /// region.
    RegionAlreadyMapped,
}

/// The kernel's process-wide state after a successful boot.
pub struct Kernel {
    /// Owns the page table, frame allocator and stack allocator.
    pub controller: MemoryController,
    /// The dynamic allocator, behind the IRQ-safe lock because interrupt
    /// handlers may also allocate.
    pub heap: IrqLock<HeapAllocator>,
    /// The loaded descriptor tables with the fault stack installed.
    pub gdt: Gdt,
    /// The loaded interrupt dispatch table.
    pub idt: Idt,
    /// The remapped interrupt controllers.
    pub pics: ChainedPics,
    /// The tick counter the timer interrupt advances, behind the IRQ-safe
    /// lock because readers race the timer interrupt.
    pub time: IrqLock<Time>,
    /// The scan-code queue, behind the IRQ-safe lock because the keyboard
    /// interrupt fills it.
    pub keyboard: IrqLock<Keyboard>,
    /// The modifier-key state of the keyboard.
    pub modifiers: ModifierState,
}

/// A raw boot-handoff region list is valid when no range is inverted and
/// no two regions overlap.
pub open spec fn raw_regions_valid(raw: Seq<(u64, u64, bool)>) -> bool {
    &&& forall|i: int| 0 <= i < raw.len() ==> (#[trigger] raw[i]).0 <= raw[i].1
    &&& forall|i: int, j: int|
        0 <= i < raw.len() && 0 <= j < raw.len() && i != j
            ==> regions_disjoint(region_of(#[trigger] raw[i]), region_of(#[trigger] raw[j]))
}

/// The usable frames a raw region list offers.
pub open spec fn raw_usable_frames(raw: Seq<(u64, u64, bool)>) -> int {
    total_usable_frames(raw.map(|i: int, t: (u64, u64, bool)| region_of(t)))
}

/// The boot sequence.  `raw_regions` is the bootloader's memory map as
/// `(start frame, end frame, usable)` triples, `page_table` the page table
/// it handed over, `fault_stack_base` the address of the statically
/// reserved fault-stack buffer.  On success the kernel state is fully
/// initialized and interrupts are enabled; on failure nothing of the
/// machine state changes and the error names the first fatal condition in
/// boot order.
pub fn init(
    once: &mut InitOnce,
    raw_regions: &Vec<(u64, u64, bool)>,
    page_table: PageTable,
    fault_stack_base: u64,
    flags: &mut InterruptFlags,
) -> (r: Result<Kernel, BootError>)
    requires
        !old(once).is_done(),
        page_table.wf(),
    ensures
        match r {
            Ok(k) => {
                &&& final(once).is_done()
                &&& k.controller.wf()
                // the whole heap range is mapped writable, no-execute
                &&& forall|p: u64|
                    heap_start_page() <= p <= heap_end_page() ==> {
                        &&& #[trigger] k.controller.spec_page_table().maps(Page { number: p })
                        &&& k.controller.spec_page_table().view_map()[p as int].1 == (PageFlags {
                            writable: true,
                            no_execute: true,
                        })
                    }
                // the stack region sits directly after the heap
                &&& k.controller.spec_stack_next_page() == heap_end_page() + 1
                &&& k.controller.spec_stack_range_end() == heap_end_page() + 1
                    + STACK_REGION_PAGES
                // the heap allocator is ready over exactly the heap range
                &&& k.heap.value().wf()
                &&& k.heap.value().is_initialized()
                &&& k.heap.value().start() == HEAP_START
                &&& k.heap.value().size() == HEAP_SIZE
                &&& k.heap.value().live() == Map::<int, int>::empty()
                &&& forall|x: int|
                    covers_seq(k.heap.value().blocks(), x) <==> HEAP_START <= x < HEAP_START
                        + HEAP_SIZE
                // the fault stack is installed in the double-fault slot
                &&& k.gdt.wf()
                &&& k.gdt.ist_top(crate::gdt::DOUBLE_FAULT_IST_INDEX as int) == Some(
                    (fault_stack_base + FAULT_STACK_SIZE) as u64,
                )
                // the dispatch table holds the double-fault handler on that
                // slot
                &&& k.idt.wf()
                &&& k.idt.entry(crate::idt::DOUBLE_FAULT_VECTOR as int) == Some(
                    crate::idt::IdtEntry {
                        handler: crate::idt::HandlerKind::DoubleFault,
                        ist_index: Some(crate::gdt::DOUBLE_FAULT_IST_INDEX),
                    },
                )
                &&& k.idt.entry(crate::idt::BREAKPOINT_VECTOR as int) == Some(
                    crate::idt::IdtEntry {
                        handler: crate::idt::HandlerKind::Breakpoint,
                        ist_index: None,
                    },
                )
                // controllers remapped past the exception vectors
                &&& k.pics.spec_offset1() == PIC_1_OFFSET
                &&& k.pics.spec_offset2() == PIC_2_OFFSET
                // fresh tick counter, empty scan-code queue, idle modifiers
                &&& k.time.value().spec_ticks() == 0
                &&& k.keyboard.value().buffer().len() == 0
                &&& k.modifiers == (ModifierState {
                    alt: crate::keycodes::KeyPair { left: false, right: false },
                    caps_lock: false,
                    control: crate::keycodes::KeyPair { left: false, right: false },
                    num_lock: false,
                    scroll_lock: false,
                    shift: crate::keycodes::KeyPair { left: false, right: false },
                })
                // interrupts are enabled only now, at the end of the boot
                &&& final(flags).is_enabled()
            },
            Err(BootError::AlreadyInitialized) => false,
            Err(BootError::BadBootInfo(_)) => {
                &&& !raw_regions_valid(raw_regions@)
                &&& *final(flags) == *old(flags)
            },
            Err(BootError::AddressSpaceTooSmall) => {
                &&& raw_regions_valid(raw_regions@)
                &&& HEAP_START + HEAP_SIZE > usize::MAX
                &&& *final(flags) == *old(flags)
            },
            Err(BootError::FaultStackOutOfRange) => {
                &&& raw_regions_valid(raw_regions@)
                &&& HEAP_START + HEAP_SIZE <= usize::MAX
                &&& fault_stack_base + FAULT_STACK_SIZE > u64::MAX
                &&& *final(flags) == *old(flags)
            },
            Err(BootError::OutOfFrames) => {
                &&& raw_regions_valid(raw_regions@)
                &&& HEAP_START + HEAP_SIZE <= usize::MAX
                &&& fault_stack_base + FAULT_STACK_SIZE <= u64::MAX
                &&& raw_usable_frames(raw_regions@) < heap_page_count()
                &&& *final(flags) == *old(flags)
            },
            Err(BootError::RegionAlreadyMapped) => {
                &&& raw_regions_valid(raw_regions@)
                &&& HEAP_START + HEAP_SIZE <= usize::MAX
                &&& fault_stack_base + FAULT_STACK_SIZE <= u64::MAX
                &&& raw_usable_frames(raw_regions@) >= heap_page_count()
                &&& exists|p: u64|
                    heap_start_page() <= p <= heap_end_page() + STACK_REGION_PAGES
                        && #[trigger] page_table.maps(Page { number: p })
                &&& *final(flags) == *old(flags)
            },
        },
{
    let memory_map = match MemoryMap::from_raw(raw_regions) {
        Ok(m) => m,
        Err(e) => {
            return Err(BootError::BadBootInfo(e));
        },
    };
    proof {
        assert(raw_regions_valid(raw_regions@)) by {
            assert forall|i: int| 0 <= i < raw_regions@.len() implies (#[trigger] raw_regions@[i]).0
                <= raw_regions@[i].1 by {
                assert(memory_map.regions()[i] == region_of(raw_regions@[i]));
                assert(memory_map.regions()[i].wf());
            }
            assert forall|i: int, j: int|
                0 <= i < raw_regions@.len() && 0 <= j < raw_regions@.len() && i != j
                    implies regions_disjoint(
                    region_of(#[trigger] raw_regions@[i]),
                    region_of(#[trigger] raw_regions@[j]),
                ) by {
                assert(memory_map.regions()[i] == region_of(raw_regions@[i]));
                assert(memory_map.regions()[j] == region_of(raw_regions@[j]));
            }
        }
        assert(memory_map.regions() =~= raw_regions@.map(
            |i: int, t: (u64, u64, bool)| region_of(t),
        ));
    }
    if HEAP_START > u64::MAX - HEAP_SIZE || HEAP_START + HEAP_SIZE > usize::MAX as u64 {
        return Err(BootError::AddressSpaceTooSmall);
    }
    if fault_stack_base > u64::MAX - FAULT_STACK_SIZE {
        return Err(BootError::FaultStackOutOfRange);
    }
    let needed: u64 = {
        let heap_start_page_num: u64 = HEAP_START / crate::frame_alloc::PAGE_SIZE;
        let heap_end_page_num: u64 = (HEAP_START + HEAP_SIZE - 1) / crate::frame_alloc::PAGE_SIZE;
        heap_end_page_num - heap_start_page_num + 1
    };
    if !memory_map.has_usable_frames(needed) {
        return Err(BootError::OutOfFrames);
    }
    // the heap and stack region must be free in the handed-over table
    let first_page: u64 = HEAP_START / crate::frame_alloc::PAGE_SIZE;
    let last_page: u64 = (HEAP_START + HEAP_SIZE - 1) / crate::frame_alloc::PAGE_SIZE
        + STACK_REGION_PAGES;
    let mut p: u64 = first_page;
    while p <= last_page
        invariant
            page_table.wf(),
            first_page == heap_start_page(),
            last_page == heap_end_page() + STACK_REGION_PAGES,
            first_page <= p <= last_page + 1,
            raw_regions_valid(raw_regions@),
            HEAP_START + HEAP_SIZE <= usize::MAX,
            fault_stack_base + FAULT_STACK_SIZE <= u64::MAX,
            raw_usable_frames(raw_regions@) >= heap_page_count(),
            *flags == *old(flags),
            *once == *old(once),
            forall|q: u64|
                first_page <= q < p ==> !(#[trigger] page_table.maps(Page { number: q })),
        decreases last_page + 1 - p,
    {
        if page_table.translate_page(Page { number: p }).is_some() {
            proof {
                assert(page_table.maps(Page { number: p }));
            }
            return Err(BootError::RegionAlreadyMapped);
        }
        p += 1;
    }
    let controller = match crate::memory::init(once, &memory_map, page_table) {
        Ok(c) => c,
        Err(_) => {
            // unreachable: the once token was still fresh here
            proof {
                assert(false);
            }
            return Err(BootError::AlreadyInitialized);
        },
    };
    let mut heap_allocator = HeapAllocator::new();
    let init_result = heap_allocator.init(HEAP_START as usize, HEAP_SIZE as usize);
    proof {
        assert(init_result is Ok);
    }
    let heap = IrqLock::new(heap_allocator);
    let fault_stack = FaultStack::new(fault_stack_base);
    let gdt = crate::gdt::init(&fault_stack);
    let idt = crate::idt::init();
    let time = IrqLock::new(Time::new());
    let keyboard = IrqLock::new(Keyboard::new());
    let modifiers = ModifierState::new();
    // devices are up; hardware interrupt delivery starts only now
    let pics = crate::pic8259::init(flags);
    Ok(
        Kernel {
            controller,
            heap,
            gdt,
            idt,
            pics,
            time,
            keyboard,
            modifiers,
        },
    )
}

/// A kernel stack overflow ends in a report from the dedicated fault
/// stack, never in a silent reset: with the boot-installed tables, a double
/// fault always finds the fault stack.
pub proof fn lemma_double_fault_isolated(k: Kernel, fault_stack_base: u64)
    requires
        k.gdt.wf(),
        k.idt.wf(),
        k.gdt.ist_top(crate::gdt::DOUBLE_FAULT_IST_INDEX as int) == Some(
            (fault_stack_base + FAULT_STACK_SIZE) as u64,
        ),
        k.idt.entry(crate::idt::DOUBLE_FAULT_VECTOR as int) == Some(
            crate::idt::IdtEntry {
                handler: crate::idt::HandlerKind::DoubleFault,
                ist_index: Some(crate::gdt::DOUBLE_FAULT_IST_INDEX),
            },
        ),
    ensures
        exists|slot: u16|
            0 <= slot < crate::gdt::IST_SLOTS && k.idt.entry(crate::idt::DOUBLE_FAULT_VECTOR as int)
                == Some(
                crate::idt::IdtEntry {
                    handler: crate::idt::HandlerKind::DoubleFault,
                    ist_index: Some(slot),
                },
            ) && #[trigger] k.gdt.ist_top(slot as int) is Some,
{
    assert(k.gdt.ist_top(crate::gdt::DOUBLE_FAULT_IST_INDEX as int) is Some);
}

} // verus!
