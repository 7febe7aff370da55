use pc_keyboard::KeyCode;
use rudos::interrupts::{
    breakpoint_handler, dispatch, double_fault_handler, init_idt, key_actions,
    keyboard_interrupt_handler, page_fault_handler, timer_interrupt_handler, Action, Capture,
    ControllerBridge, DispatchTable, Entry,
    Handler, InitError, InterruptIndex, InterruptStackFrame, Key, Message, Outcome, RunState,
    ScancodeDecoder, BREAKPOINT_VECTOR, DOUBLE_FAULT_VECTOR, PAGE_FAULT_VECTOR, PIC_1_OFFSET,
    PIC_2_OFFSET,
};
use rudos::{init, InitStep, System};

fn frame() -> InterruptStackFrame {
    InterruptStackFrame {
        instruction_pointer: 0x20_1234,
        code_segment: 8,
        cpu_flags: 0x202,
        stack_pointer: 0x5000_0ff8,
        stack_segment: 0,
    }
}

fn keys(decoder: &mut ScancodeDecoder, scancodes: &[u8]) -> Vec<Key> {
    let mut keys = Vec::new();
    for &scancode in scancodes {
        let handled = keyboard_interrupt_handler(decoder, scancode);
        assert_eq!(handled.outcome, Outcome::Resume);
        assert_eq!(handled.actions.last(), Some(&Action::EndOfInterrupt(33)));
        match handled.actions.as_slice() {
            [Action::Print(Message::Key(key)), Action::EndOfInterrupt(33)] => keys.push(*key),
            [Action::EndOfInterrupt(33)] => {}
            other => panic!("unexpected actions {:?}", other),
        }
    }
    keys
}

#[test]
fn hardware_vectors_follow_the_exception_vectors() {
    assert_eq!(PIC_1_OFFSET, 32);
    assert_eq!(PIC_2_OFFSET, 33);
    assert_eq!(InterruptIndex::Timer.as_u8(), 32);
    assert_eq!(InterruptIndex::Keyboard.as_u8(), 33);
    assert_eq!(InterruptIndex::Timer.as_usize(), 32);
    assert_eq!(InterruptIndex::Keyboard.as_usize(), 33);
}

#[test]
fn kernel_table_has_its_five_handlers_and_no_other() {
    let table = DispatchTable::kernel(0);
    for vector in 0..=255u8 {
        let expected = match vector {
            3 => Some(Entry { handler: Handler::Breakpoint, stack_index: None }),
            8 => Some(Entry { handler: Handler::DoubleFault, stack_index: Some(0) }),
            14 => Some(Entry { handler: Handler::PageFault, stack_index: None }),
            32 => Some(Entry { handler: Handler::Timer, stack_index: None }),
            33 => Some(Entry { handler: Handler::Keyboard, stack_index: None }),
            _ => None,
        };
        assert_eq!(table.get(vector), expected, "vector {}", vector);
    }
}

#[test]
fn double_fault_runs_on_the_stack_it_is_given() {
    let table = DispatchTable::kernel(5);
    assert_eq!(
        table.get(DOUBLE_FAULT_VECTOR),
        Some(Entry { handler: Handler::DoubleFault, stack_index: Some(5) })
    );
    assert_eq!(table.get(BREAKPOINT_VECTOR).unwrap().stack_index, None);
    assert_eq!(table.get(PAGE_FAULT_VECTOR).unwrap().stack_index, None);
}

#[test]
fn empty_table_and_single_slots() {
    let table = DispatchTable::new();
    for vector in 0..=255u8 {
        assert_eq!(table.get(vector), None);
    }
    let table = table.set_stack_index(8, 1);
    assert_eq!(table.get(8), None);
    let table = table.set_handler(255, Handler::Timer).set_handler(0, Handler::Keyboard);
    assert_eq!(table.get(255), Some(Entry { handler: Handler::Timer, stack_index: None }));
    assert_eq!(table.get(0), Some(Entry { handler: Handler::Keyboard, stack_index: None }));
    assert_eq!(table.get(1), None);
    let table = table.set_stack_index(255, 6);
    assert_eq!(table.get(255), Some(Entry { handler: Handler::Timer, stack_index: Some(6) }));
    let table = table.set_handler(255, Handler::PageFault);
    assert_eq!(table.get(255), Some(Entry { handler: Handler::PageFault, stack_index: None }));
}

#[test]
fn table_is_installed_once() {
    let mut slot = None;
    assert_eq!(init_idt(&mut slot, 0), Ok(()));
    let installed = slot.as_ref().expect("a table is installed");
    assert_eq!(
        installed.get(8),
        Some(Entry { handler: Handler::DoubleFault, stack_index: Some(0) })
    );
    assert_eq!(init_idt(&mut slot, 3), Err(InitError::TableInstalled));
    assert_eq!(
        slot.as_ref().unwrap().get(8),
        Some(Entry { handler: Handler::DoubleFault, stack_index: Some(0) })
    );
}

#[test]
fn breakpoint_is_reported_and_execution_resumes() {
    let handled = breakpoint_handler(frame());
    assert_eq!(handled.actions, vec![Action::Print(Message::Breakpoint(frame()))]);
    assert_eq!(handled.outcome, Outcome::Resume);
    assert_eq!(RunState::Running.after(handled.outcome), RunState::Running);
}

#[test]
fn double_fault_is_reported_and_the_kernel_stops() {
    let handled = double_fault_handler(frame(), 0);
    assert_eq!(handled.actions, vec![Action::Print(Message::DoubleFault(frame()))]);
    assert_eq!(handled.outcome, Outcome::Abort);
    let stopped = RunState::Running.after(handled.outcome);
    assert_eq!(stopped, RunState::Aborted);
    // No handler that runs afterwards brings the kernel back.
    assert_eq!(stopped.after(Outcome::Resume), RunState::Aborted);
    assert_eq!(stopped.after(double_fault_handler(frame(), 0).outcome), RunState::Aborted);
}

#[test]
fn page_fault_is_reported_with_its_address_and_the_processor_idles() {
    let handled = page_fault_handler(frame(), 2, 0xdead_beaf);
    assert_eq!(
        handled.actions,
        vec![Action::Print(Message::PageFault {
            accessed_address: 0xdead_beaf,
            error_code: 2,
            stack_frame: frame(),
        })]
    );
    assert_eq!(handled.outcome, Outcome::Halt);
    assert_eq!(RunState::Running.after(handled.outcome), RunState::Halted);
    assert_eq!(RunState::Halted.after(Outcome::Resume), RunState::Halted);
    assert_eq!(RunState::Halted.after(Outcome::Abort), RunState::Halted);
}

#[test]
fn timer_ticks_then_acknowledges() {
    let handled = timer_interrupt_handler();
    assert_eq!(handled.actions, vec![Action::Print(Message::Tick), Action::EndOfInterrupt(32)]);
    assert_eq!(handled.outcome, Outcome::Resume);
}

#[test]
fn key_actions_end_with_the_acknowledgment() {
    let none = key_actions(None);
    assert_eq!(none.actions, vec![Action::EndOfInterrupt(33)]);
    assert_eq!(none.outcome, Outcome::Resume);
    let letter = key_actions(Some(Key::Unicode('x')));
    assert_eq!(
        letter.actions,
        vec![Action::Print(Message::Key(Key::Unicode('x'))), Action::EndOfInterrupt(33)]
    );
    assert_eq!(letter.outcome, Outcome::Resume);
    let raw = key_actions(Some(Key::RawKey(KeyCode::F1)));
    assert_eq!(
        raw.actions,
        vec![Action::Print(Message::Key(Key::RawKey(KeyCode::F1))), Action::EndOfInterrupt(33)]
    );
}

#[test]
fn pressed_letter_is_shown_and_its_release_is_not() {
    let mut decoder = ScancodeDecoder::new();
    let pressed = keyboard_interrupt_handler(&mut decoder, 0x1e);
    assert_eq!(
        pressed.actions,
        vec![Action::Print(Message::Key(Key::Unicode('a'))), Action::EndOfInterrupt(33)]
    );
    assert_eq!(pressed.outcome, Outcome::Resume);
    let released = keyboard_interrupt_handler(&mut decoder, 0x9e);
    assert_eq!(released.actions, vec![Action::EndOfInterrupt(33)]);
    assert_eq!(released.outcome, Outcome::Resume);
}

#[test]
fn decoder_keeps_its_state_across_interrupts() {
    let mut decoder = ScancodeDecoder::new();
    // Left shift down, h, left shift up, i.
    assert_eq!(
        keys(&mut decoder, &[0x2a, 0x23, 0xa3, 0xaa, 0x17, 0x97]),
        vec![Key::Unicode('H'), Key::Unicode('i')]
    );
    // Caps lock stays on after its key is released.
    assert_eq!(keys(&mut decoder, &[0x3a, 0xba, 0x1e]), vec![Key::Unicode('A')]);
}

#[test]
fn key_without_a_character_is_shown_by_its_name() {
    let mut decoder = ScancodeDecoder::new();
    assert_eq!(keys(&mut decoder, &[0x3b]), vec![Key::RawKey(KeyCode::F1)]);
    // An extended scancode takes two interrupts: the prefix completes no key.
    assert_eq!(keys(&mut decoder, &[0xe0]), vec![]);
    assert_eq!(keys(&mut decoder, &[0x48]), vec![Key::RawKey(KeyCode::ArrowUp)]);
}

#[test]
fn digits_and_punctuation() {
    let mut decoder = ScancodeDecoder::new();
    assert_eq!(
        keys(&mut decoder, &[0x02, 0x82, 0x39, 0xb9, 0x1c]),
        vec![Key::Unicode('1'), Key::Unicode(' '), Key::Unicode('\n')]
    );
}

#[test]
fn fresh_decoders_are_independent() {
    let mut first = ScancodeDecoder::new();
    let mut second = ScancodeDecoder::new();
    assert_eq!(keys(&mut first, &[0x2a]), vec![]);
    assert_eq!(keys(&mut second, &[0x1e]), vec![Key::Unicode('a')]);
    assert_eq!(keys(&mut first, &[0x1e]), vec![Key::Unicode('A')]);
}

#[test]
fn controllers_deliver_nothing_before_they_are_initialized() {
    let mut pics = ControllerBridge::new(32, 33);
    assert!(!pics.is_initialized());
    for line in 0..16 {
        assert!(!pics.is_live(line));
        assert_eq!(pics.raise(line), None);
    }
}

#[test]
fn controllers_are_initialized_once_and_in_their_place() {
    let mut pics = ControllerBridge::new(32, 33);
    assert_eq!(pics.initialize(&None, false), Err(InitError::TableMissing));
    assert_eq!(pics.initialize(&None, true), Err(InitError::TableMissing));
    assert!(!pics.is_initialized());
    let idt = Some(DispatchTable::kernel(0));
    assert_eq!(pics.initialize(&idt, true), Err(InitError::InterruptsEnabled));
    assert!(!pics.is_initialized());
    assert_eq!(pics.initialize(&idt, false), Ok(()));
    assert!(pics.is_initialized());
    assert_eq!(pics.initialize(&idt, false), Err(InitError::ControllersInitialized));
    assert_eq!(pics.initialize(&idt, true), Err(InitError::ControllersInitialized));
    assert_eq!(pics.initialize(&None, false), Err(InitError::TableMissing));
    assert!(pics.is_initialized());
}

fn initialized(primary: u8, secondary: u8) -> ControllerBridge {
    let mut pics = ControllerBridge::new(primary, secondary);
    assert_eq!(pics.initialize(&Some(DispatchTable::kernel(0)), false), Ok(()));
    pics
}

#[test]
fn each_line_interrupts_on_its_vector() {
    let mut pics = initialized(32, 40);
    for line in 0..16 {
        assert!(pics.is_live(line));
        assert_eq!(pics.raise(line), Some(32 + line));
        assert!(!pics.is_live(line));
    }
    let mut pics = initialized(32, 33);
    for line in 0..8 {
        assert_eq!(pics.raise(line), Some(32 + line));
        assert_eq!(pics.raise(line + 8), Some(33 + line));
    }
    let mut pics = initialized(248, 100);
    assert_eq!(pics.raise(7), Some(255));
    assert_eq!(pics.raise(15), Some(107));
}

#[test]
fn acknowledged_line_stays_live() {
    let mut pics = initialized(PIC_1_OFFSET, PIC_2_OFFSET);
    for _ in 0..100 {
        assert!(pics.is_live(0));
        assert_eq!(pics.raise(0), Some(32));
        assert!(!pics.is_live(0));
        pics.carry_out(&timer_interrupt_handler().actions);
    }
    assert!(pics.is_live(0));
    let mut decoder = ScancodeDecoder::new();
    for round in 0..=255u8 {
        assert_eq!(pics.raise(1), Some(33));
        assert!(!pics.is_live(1));
        pics.carry_out(&keyboard_interrupt_handler(&mut decoder, round).actions);
    }
    assert!(pics.is_live(1));
}

#[test]
fn carrying_out_actions_acknowledges_and_nothing_else() {
    let mut pics = initialized(32, 40);
    for line in 0..16 {
        assert_eq!(pics.raise(line), Some(32 + line));
    }
    pics.carry_out(&vec![]);
    pics.carry_out(&vec![Action::Print(Message::Tick), Action::Print(Message::Tick)]);
    for line in 0..16 {
        assert!(!pics.is_live(line));
    }
    pics.carry_out(&vec![
        Action::EndOfInterrupt(35),
        Action::Print(Message::Tick),
        Action::EndOfInterrupt(44),
        Action::EndOfInterrupt(200),
    ]);
    for line in 0..16 {
        assert_eq!(pics.is_live(line), line == 3 || line == 12);
    }
    // A handler that does not acknowledge leaves its line starved.
    pics.carry_out(&breakpoint_handler(frame()).actions);
    assert!(!pics.is_live(0));
}

#[test]
fn unacknowledged_line_is_starved() {
    let mut pics = initialized(32, 40);
    assert_eq!(pics.raise(1), Some(33));
    assert!(!pics.is_live(1));
    assert_eq!(pics.raise(1), None);
    // Other lines and other acknowledgments do not help it.
    assert_eq!(pics.raise(0), Some(32));
    pics.notify_end_of_interrupt(32);
    pics.notify_end_of_interrupt(34);
    pics.notify_end_of_interrupt(41);
    pics.notify_end_of_interrupt(3);
    assert_eq!(pics.raise(1), None);
    assert!(pics.is_live(0));
    // Its own acknowledgment does.
    pics.notify_end_of_interrupt(33);
    assert!(pics.is_live(1));
    assert_eq!(pics.raise(1), Some(33));
}

#[test]
fn acknowledgment_reaches_the_lines_of_its_vector_only() {
    let mut pics = initialized(32, 40);
    for line in 0..16 {
        assert_eq!(pics.raise(line), Some(32 + line));
    }
    pics.notify_end_of_interrupt(47);
    for line in 0..15 {
        assert!(!pics.is_live(line));
    }
    assert!(pics.is_live(15));
    pics.notify_end_of_interrupt(32);
    assert!(pics.is_live(0));
    assert!(!pics.is_live(1));
    assert!(!pics.is_live(8));
    // With the second controller one vector after the first, line 1 and
    // line 8 share vector 33, and one acknowledgment reaches both.
    let mut pics = initialized(32, 33);
    assert_eq!(pics.raise(1), Some(33));
    assert_eq!(pics.raise(8), Some(33));
    assert_eq!(pics.raise(9), Some(34));
    pics.notify_end_of_interrupt(33);
    assert!(pics.is_live(1));
    assert!(pics.is_live(8));
    assert!(!pics.is_live(9));
}

#[test]
fn vectors_that_the_controllers_handle() {
    let pics = ControllerBridge::new(32, 40);
    for vector in 0..=255u8 {
        assert_eq!(pics.handles_interrupt(vector), (32..48).contains(&vector));
    }
    let pics = ControllerBridge::new(32, 33);
    for vector in 0..=255u8 {
        assert_eq!(pics.handles_interrupt(vector), (32..41).contains(&vector));
    }
    let pics = ControllerBridge::new(248, 100);
    assert!(pics.handles_interrupt(255));
    assert!(pics.handles_interrupt(248));
    assert!(!pics.handles_interrupt(247));
    assert!(pics.handles_interrupt(107));
    assert!(!pics.handles_interrupt(108));
}

#[test]
fn startup_takes_its_three_steps_in_order() {
    let mut system = System::new();
    assert!(system.idt.is_none());
    assert!(!system.pics.is_initialized());
    assert!(!system.interrupts_enabled);
    assert_eq!(
        init(&mut system, 0),
        Ok(vec![
            InitStep::LoadDispatchTable,
            InitStep::InitializeControllers,
            InitStep::EnableInterrupts,
        ])
    );
    assert!(system.pics.is_initialized());
    assert!(system.interrupts_enabled);
    let table = system.idt.as_ref().expect("the table is installed");
    assert_eq!(table.get(8), Some(Entry { handler: Handler::DoubleFault, stack_index: Some(0) }));
    assert_eq!(table.get(32).map(|entry| entry.handler), Some(Handler::Timer));
    // The controllers deliver on the vectors that the table has handlers for.
    assert_eq!(system.pics.raise(0), Some(InterruptIndex::Timer.as_u8()));
    assert_eq!(system.pics.raise(1), Some(InterruptIndex::Keyboard.as_u8()));
}

#[test]
fn startup_happens_once() {
    let mut system = System::new();
    assert!(init(&mut system, 0).is_ok());
    assert_eq!(init(&mut system, 0), Err(InitError::TableInstalled));
    assert_eq!(init(&mut system, 1), Err(InitError::TableInstalled));
    assert_eq!(
        system.idt.as_ref().unwrap().get(8),
        Some(Entry { handler: Handler::DoubleFault, stack_index: Some(0) })
    );
}

#[test]
fn startup_refuses_a_machine_that_is_partly_up() {
    let mut system = System::new();
    system.interrupts_enabled = true;
    assert_eq!(init(&mut system, 0), Err(InitError::InterruptsEnabled));
    assert!(system.idt.is_none());
    assert!(!system.pics.is_initialized());

    let mut system = System::new();
    assert_eq!(system.pics.initialize(&Some(DispatchTable::new()), false), Ok(()));
    assert_eq!(init(&mut system, 0), Err(InitError::ControllersInitialized));
    assert!(system.idt.is_none());
    assert!(!system.interrupts_enabled);
    system.interrupts_enabled = true;
    assert_eq!(init(&mut system, 0), Err(InitError::ControllersInitialized));

    let mut system = System::new();
    assert_eq!(init_idt(&mut system.idt, 2), Ok(()));
    system.interrupts_enabled = true;
    assert_eq!(init(&mut system, 0), Err(InitError::TableInstalled));
    assert!(!system.pics.is_initialized());
}

fn capture() -> Capture {
    Capture { stack_frame: frame(), error_code: 2, accessed_address: 0xdead_beaf, scancode: 0x1e }
}

#[test]
fn dispatch_runs_the_handler_of_the_vector() {
    let table = DispatchTable::kernel(0);
    let mut decoder = ScancodeDecoder::new();
    let handled = dispatch(&table, &mut decoder, 3, capture()).expect("a handler for vector 3");
    assert_eq!(handled, breakpoint_handler(frame()));
    assert_eq!(handled.outcome, Outcome::Resume);
    let handled = dispatch(&table, &mut decoder, 8, capture()).expect("a handler for vector 8");
    assert_eq!(handled, double_fault_handler(frame(), 2));
    assert_eq!(handled.outcome, Outcome::Abort);
    let handled = dispatch(&table, &mut decoder, 14, capture()).expect("a handler for vector 14");
    assert_eq!(handled, page_fault_handler(frame(), 2, 0xdead_beaf));
    let handled = dispatch(&table, &mut decoder, 32, capture()).expect("a handler for vector 32");
    assert_eq!(handled, timer_interrupt_handler());
    let handled = dispatch(&table, &mut decoder, 33, capture()).expect("a handler for vector 33");
    assert_eq!(
        handled.actions,
        vec![Action::Print(Message::Key(Key::Unicode('a'))), Action::EndOfInterrupt(33)]
    );
}

#[test]
fn dispatch_has_nothing_for_a_vector_without_handler() {
    let table = DispatchTable::kernel(0);
    let mut decoder = ScancodeDecoder::new();
    for vector in 0..=255u8 {
        let handled = dispatch(&table, &mut decoder, vector, capture());
        assert_eq!(handled.is_some(), [3, 8, 14, 32, 33].contains(&vector));
    }
    let empty = DispatchTable::new();
    for vector in 0..=255u8 {
        assert_eq!(dispatch(&empty, &mut decoder, vector, capture()), None);
    }
}

#[test]
fn dispatch_goes_by_the_table_and_not_by_the_vector() {
    let table = DispatchTable::new().set_handler(200, Handler::Keyboard).set_handler(
        33,
        Handler::Breakpoint,
    );
    let mut decoder = ScancodeDecoder::new();
    // Shift goes down through vector 200, so the letter after it is a capital.
    let shift = Capture { scancode: 0x2a, ..capture() };
    assert_eq!(
        dispatch(&table, &mut decoder, 200, shift).unwrap().actions,
        vec![Action::EndOfInterrupt(33)]
    );
    // Vector 33 has the breakpoint handler here: the decoder is not fed.
    assert_eq!(dispatch(&table, &mut decoder, 33, capture()), Some(breakpoint_handler(frame())));
    assert_eq!(
        dispatch(&table, &mut decoder, 200, capture()).unwrap().actions,
        vec![Action::Print(Message::Key(Key::Unicode('A'))), Action::EndOfInterrupt(33)]
    );
}
