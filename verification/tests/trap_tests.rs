use rust_kernel::exceptions::CpuState;
use rust_kernel::exceptions::Execution;
use rust_kernel::exceptions::FaultOutcome;
use rust_kernel::exceptions::breakpoint_handler;
use rust_kernel::exceptions::dispatch_double_fault;
use rust_kernel::gdt;
use rust_kernel::gdt::DOUBLE_FAULT_IST_INDEX;
use rust_kernel::gdt::FAULT_STACK_SIZE;
use rust_kernel::gdt::FaultStack;
use rust_kernel::idt;
use rust_kernel::idt::BREAKPOINT_VECTOR;
use rust_kernel::idt::DOUBLE_FAULT_VECTOR;
use rust_kernel::idt::HandlerKind;
use rust_kernel::idt::IdtEntry;
use rust_kernel::interrupts::InterruptFlags;
use rust_kernel::interrupts::interrupts_enabled;
use rust_kernel::irq::keyboard_interrupt_handler;
use rust_kernel::irq::timer_interrupt_handler;
use rust_kernel::irq_lock::IrqLock;
use rust_kernel::keyboard::Keyboard;
use rust_kernel::pic8259::ChainedPics;
use rust_kernel::pic8259::KEYBOARD_INTERRUPT_ID;
use rust_kernel::pic8259::PIC_1_OFFSET;
use rust_kernel::pic8259::PIC_2_OFFSET;
use rust_kernel::pic8259::TIMER_INTERRUPT_ID;
use rust_kernel::time::Time;

#[test]
fn idt_installs_expected_handlers() {
    let table = idt::init();
    assert_eq!(
        table.lookup(BREAKPOINT_VECTOR),
        Some(IdtEntry { handler: HandlerKind::Breakpoint, ist_index: None })
    );
    assert_eq!(
        table.lookup(DOUBLE_FAULT_VECTOR),
        Some(IdtEntry {
            handler: HandlerKind::DoubleFault,
            ist_index: Some(DOUBLE_FAULT_IST_INDEX)
        })
    );
    assert_eq!(
        table.lookup(TIMER_INTERRUPT_ID),
        Some(IdtEntry { handler: HandlerKind::Timer, ist_index: None })
    );
    assert_eq!(
        table.lookup(KEYBOARD_INTERRUPT_ID),
        Some(IdtEntry { handler: HandlerKind::Keyboard, ist_index: None })
    );
    assert_eq!(table.lookup(0), None);
    assert_eq!(table.lookup(255), None);
}

#[test]
fn gdt_installs_fault_stack() {
    let fault_stack = FaultStack::new(0x8000);
    let tables = gdt::init(&fault_stack);
    assert_eq!(
        tables.lookup_ist(DOUBLE_FAULT_IST_INDEX as usize),
        Some(0x8000 + FAULT_STACK_SIZE)
    );
    for slot in 1..7 {
        assert_eq!(tables.lookup_ist(slot), None);
    }
}

// A simulated kernel stack overflow: the double fault runs its handler on
// the dedicated fault stack, writes the report marker, and halts instead of
// resetting the CPU.
#[test]
fn stack_overflow_double_fault_reports() {
    let fault_stack = FaultStack::new(0x8000);
    let tables = gdt::init(&fault_stack);
    let table = idt::init();
    // the kernel stack has overflowed; the CPU still points at it
    let mut cpu = CpuState::running(0xdead_0000);
    let outcome = dispatch_double_fault(&table, &tables, &mut cpu);
    assert_eq!(outcome, FaultOutcome::Reported);
    assert!(cpu.fault_reported);
    assert_eq!(cpu.mode, Execution::Halted);
    // the handler ran on the dedicated stack, not the overflowed one
    assert_eq!(cpu.stack_top, 0x8000 + FAULT_STACK_SIZE);
}

// The breakpoint handler runs once and execution resumes.
#[test]
fn breakpoint_handled_once() {
    let mut cpu = CpuState::running(0x1000);
    breakpoint_handler(&mut cpu);
    assert_eq!(cpu.breakpoints_handled, 1);
    assert_eq!(cpu.mode, Execution::Normal);
    assert!(!cpu.fault_reported);
}

#[test]
fn timer_handler_ticks_and_acknowledges() {
    let mut time = Time::new();
    let mut pics = ChainedPics::new(PIC_1_OFFSET, PIC_2_OFFSET);
    timer_interrupt_handler(&mut time, &mut pics);
    timer_interrupt_handler(&mut time, &mut pics);
    assert_eq!(time.ticks(), 2);
}

#[test]
fn keyboard_handler_queues_and_acknowledges() {
    let mut keyboard = Keyboard::new();
    let mut pics = ChainedPics::new(PIC_1_OFFSET, PIC_2_OFFSET);
    keyboard_interrupt_handler(0x1E, &mut keyboard, &mut pics);
    let mut state = rust_kernel::keycodes::ModifierState::new();
    let package = keyboard.process_scancode(&mut state).expect("one code queued");
    assert_eq!(package.character, Some('a'));
}

// Given interrupts enabled, taking a guard observably disables them at
// once; a nested acquire and release of an unrelated lock keeps them
// disabled for the whole outer scope; only dropping the outer guard
// re-enables them.
#[test]
fn irq_lock_nesting_restores_interrupts() {
    let mut flags = InterruptFlags::booted();
    rust_kernel::interrupts::interrupts_enable(&mut flags);
    assert!(interrupts_enabled(&flags));

    let outer_lock = IrqLock::new(1u64);
    let inner_lock = IrqLock::new(2u64);

    let outer = outer_lock.lock(&mut flags);
    assert!(!interrupts_enabled(&flags));

    let inner = inner_lock.lock(&mut flags);
    assert!(!interrupts_enabled(&flags));
    assert_eq!(*inner_lock.borrow(&inner), 2);
    inner_lock.unlock(inner, &mut flags);
    assert!(!interrupts_enabled(&flags));

    assert_eq!(*outer_lock.borrow(&outer), 1);
    outer_lock.unlock(outer, &mut flags);
    assert!(interrupts_enabled(&flags));
}

#[test]
fn irq_lock_replace_and_borrow_mut() {
    let mut flags = InterruptFlags::booted();
    let mut lock = IrqLock::new(10u32);
    let guard = lock.lock(&mut flags);
    // interrupts were off already, so the guard restores "off"
    assert!(!interrupts_enabled(&flags));
    let previous = lock.replace(&guard, 11);
    assert_eq!(previous, 10);
    *lock.borrow_mut(&guard) += 1;
    assert_eq!(*lock.borrow(&guard), 12);
    lock.unlock(guard, &mut flags);
    assert!(!interrupts_enabled(&flags));
}

#[test]
fn pic_offsets_past_exceptions() {
    assert_eq!(PIC_1_OFFSET, 32);
    assert_eq!(PIC_2_OFFSET, 40);
    assert_eq!(TIMER_INTERRUPT_ID, 32);
    assert_eq!(KEYBOARD_INTERRUPT_ID, 33);
}
