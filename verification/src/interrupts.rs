//! The dispatch table and the handlers behind it.
//!
//! A handler here is a function from what the hardware captured to what has
//! to happen: the messages for the console, the acknowledgment for the
//! interrupt controllers, and whether the interrupted code goes on. The
//! caller carries the actions out in their order.

use pc_keyboard::layouts::Us104Key;
use pc_keyboard::{DecodedKey, Error, HandleControl, KeyCode, KeyEvent, Keyboard, ScancodeSet1};
use vstd::prelude::*;

verus! {

/// First vector of the primary interrupt controller: the first one after the
/// 32 vectors that the processor keeps for its exceptions.
pub const PIC_1_OFFSET: u8 = 32;

/// First vector of the secondary interrupt controller.
pub const PIC_2_OFFSET: u8 = PIC_1_OFFSET + 1;

/// Vector of the breakpoint trap.
pub const BREAKPOINT_VECTOR: u8 = 3;

/// Vector of the double fault.
pub const DOUBLE_FAULT_VECTOR: u8 = 8;

/// Vector of the page fault.
pub const PAGE_FAULT_VECTOR: u8 = 14;

/// Number of vectors, and of slots in a dispatch table.
pub const VECTORS: usize = 256;

/// I/O port from which the keyboard handler's scancode is read.
pub const KEYBOARD_DATA_PORT: u16 = 0x60;

/// The hardware interrupts that have a handler.
#[derive(Debug, Clone, Copy, PartialEq, Eq, Structural)]
pub enum InterruptIndex {
    /// The periodic timer, on the first line of the primary controller.
    Timer,
    /// The keyboard, on the line after it.
    Keyboard,
}

impl InterruptIndex {
    /// The vector of this interrupt.
    pub open spec fn spec_as_u8(self) -> u8 {
        match self {
            InterruptIndex::Timer => PIC_1_OFFSET,
            InterruptIndex::Keyboard => (PIC_1_OFFSET + 1) as u8,
        }
    }

    /// The vector of this interrupt.
    #[verifier::when_used_as_spec(spec_as_u8)]
    pub fn as_u8(self) -> (vector: u8)
        ensures
            vector == self.spec_as_u8(),
    {
        match self {
            InterruptIndex::Timer => PIC_1_OFFSET,
            InterruptIndex::Keyboard => PIC_1_OFFSET + 1,
        }
    }

    /// The vector of this interrupt, as an index into a dispatch table.
    pub fn as_usize(self) -> (index: usize)
        ensures
            index == self.spec_as_u8(),
            index < VECTORS,
    {
        self.as_u8() as usize
    }
}

/// The execution state that the processor saved when it entered a handler.
#[derive(Debug, Clone, Copy, PartialEq, Eq, Structural)]
pub struct InterruptStackFrame {
    pub instruction_pointer: u64,
    pub code_segment: u64,
    pub cpu_flags: u64,
    pub stack_pointer: u64,
    pub stack_segment: u64,
}

/// The handlers that a dispatch table can name.
#[derive(Debug, Clone, Copy, PartialEq, Eq, Structural)]
pub enum Handler {
    Breakpoint,
    DoubleFault,
    PageFault,
    Timer,
    Keyboard,
}

/// One slot of a dispatch table that is in use.
#[derive(Debug, Clone, Copy, PartialEq, Eq, Structural)]
pub struct Entry {
    /// The handler that runs for the vector.
    pub handler: Handler,
    /// The dedicated stack that the processor switches to before the handler
    /// runs, if any.
    pub stack_index: Option<u16>,
}

/// The entry that the kernel's table holds for `vector`: the breakpoint, the
/// double fault on its dedicated stack, the page fault, the timer and the
/// keyboard have one, no other vector has.
pub open spec fn spec_entry_for(vector: int, double_fault_stack: u16) -> Option<Entry> {
    if vector == BREAKPOINT_VECTOR {
        Some(Entry { handler: Handler::Breakpoint, stack_index: None })
    } else if vector == DOUBLE_FAULT_VECTOR {
        Some(Entry { handler: Handler::DoubleFault, stack_index: Some(double_fault_stack) })
    } else if vector == PAGE_FAULT_VECTOR {
        Some(Entry { handler: Handler::PageFault, stack_index: None })
    } else if vector == InterruptIndex::Timer.spec_as_u8() {
        Some(Entry { handler: Handler::Timer, stack_index: None })
    } else if vector == InterruptIndex::Keyboard.spec_as_u8() {
        Some(Entry { handler: Handler::Keyboard, stack_index: None })
    } else {
        None
    }
}

/// The kernel's table: 256 slots, filled as [`spec_entry_for`] says.
pub open spec fn spec_kernel_table(double_fault_stack: u16) -> Seq<Option<Entry>> {
    Seq::new(VECTORS as nat, |vector: int| spec_entry_for(vector, double_fault_stack))
}

/// For each of the 256 vectors, the handler that runs when it fires, if any.
pub struct DispatchTable {
    entries: Vec<Option<Entry>>,
}

impl View for DispatchTable {
    type V = Seq<Option<Entry>>;

    closed spec fn view(&self) -> Seq<Option<Entry>> {
        self.entries@
    }
}

impl DispatchTable {
    #[verifier::type_invariant]
    spec fn well_formed(&self) -> bool {
        self.entries@.len() == VECTORS
    }

    /// A table without any handler.
    pub fn new() -> (table: DispatchTable)
        ensures
            table@ == Seq::new(VECTORS as nat, |vector: int| None::<Entry>),
    {
        let mut entries: Vec<Option<Entry>> = Vec::new();
        while entries.len() < VECTORS
            invariant
                entries@.len() <= VECTORS,
                forall|vector: int| 0 <= vector < entries@.len() ==> entries@[vector] == None::<Entry>,
            decreases VECTORS - entries@.len(),
        {
            entries.push(None);
        }
        assert(entries@ =~= Seq::new(VECTORS as nat, |vector: int| None::<Entry>));
        DispatchTable { entries }
    }

    /// This table with `handler` in the slot of `vector`, to run on the stack
    /// that the vector's code was on.
    pub fn set_handler(self, vector: u8, handler: Handler) -> (table: DispatchTable)
        ensures
            self@.len() == VECTORS,
            table@ == self@.update(vector as int, Some(Entry { handler, stack_index: None })),
    {
        proof {
            use_type_invariant(&self);
        }
        let mut entries = self.entries;
        entries.set(vector as usize, Some(Entry { handler, stack_index: None }));
        DispatchTable { entries }
    }

    /// This table with the dedicated stack `stack_index` for `vector`. A slot
    /// without a handler stays empty.
    pub fn set_stack_index(self, vector: u8, stack_index: u16) -> (table: DispatchTable)
        ensures
            self@.len() == VECTORS,
            table@ == match self@[vector as int] {
                Some(entry) => self@.update(
                    vector as int,
                    Some(Entry { handler: entry.handler, stack_index: Some(stack_index) }),
                ),
                None => self@,
            },
    {
        proof {
            use_type_invariant(&self);
        }
        let mut entries = self.entries;
        match entries[vector as usize] {
            Some(entry) => {
                entries.set(
                    vector as usize,
                    Some(Entry { handler: entry.handler, stack_index: Some(stack_index) }),
                );
            },
            None => {},
        }
        DispatchTable { entries }
    }

    /// The entry in the slot of `vector`.
    pub fn get(&self, vector: u8) -> (entry: Option<Entry>)
        ensures
            self@.len() == VECTORS,
            entry == self@[vector as int],
    {
        proof {
            use_type_invariant(self);
        }
        self.entries[vector as usize]
    }

    /// The kernel's table. The double fault gets the dedicated stack
    /// `double_fault_stack`, so that it can be handled when the stack of the
    /// faulting code is unusable.
    pub fn kernel(double_fault_stack: u16) -> (table: DispatchTable)
        ensures
            table@ == spec_kernel_table(double_fault_stack),
    {
        let table = DispatchTable::new();
        let table = table.set_handler(BREAKPOINT_VECTOR, Handler::Breakpoint);
        let table = table.set_handler(DOUBLE_FAULT_VECTOR, Handler::DoubleFault);
        let table = table.set_stack_index(DOUBLE_FAULT_VECTOR, double_fault_stack);
        let table = table.set_handler(PAGE_FAULT_VECTOR, Handler::PageFault);
        let table = table.set_handler(InterruptIndex::Timer.as_u8(), Handler::Timer);
        let table = table.set_handler(InterruptIndex::Keyboard.as_u8(), Handler::Keyboard);
        assert(table@ =~= spec_kernel_table(double_fault_stack));
        table
    }
}

/// Why a step of startup was not taken. Each step is taken once, and in its
/// place: the table is installed, then the controllers are initialized, then
/// interrupts are enabled.
#[derive(Debug, Clone, Copy, PartialEq, Eq, Structural)]
pub enum InitError {
    /// A dispatch table is installed already.
    TableInstalled,
    /// No dispatch table is installed yet.
    TableMissing,
    /// The interrupt controllers are initialized already.
    ControllersInitialized,
    /// Hardware interrupts are enabled already.
    InterruptsEnabled,
}

/// Installs the kernel's dispatch table in `slot`, which stands for the
/// processor's table register: empty until a table is installed. A slot that
/// holds a table is left as it is.
pub fn init_idt(slot: &mut Option<DispatchTable>, double_fault_stack: u16) -> (result: Result<
    (),
    InitError,
>)
    ensures
        match result {
            Ok(_) => *old(slot) is None && (*final(slot) matches Some(table) && table@
                == spec_kernel_table(double_fault_stack)),
            Err(error) => error == InitError::TableInstalled && *old(slot) is Some && *final(slot)
                == *old(slot),
        },
{
    if slot.is_some() {
        return Err(InitError::TableInstalled);
    }
    *slot = Some(DispatchTable::kernel(double_fault_stack));
    Ok(())
}

/// In the kernel's table the double fault has the double-fault handler, on
/// the dedicated stack that the table was made with: the handler can run when
/// the stack of the faulting code cannot be used. No other vector switches
/// stacks.
pub proof fn lemma_double_fault_has_dedicated_stack(double_fault_stack: u16)
    ensures
        spec_kernel_table(double_fault_stack)[DOUBLE_FAULT_VECTOR as int] == Some(
            Entry { handler: Handler::DoubleFault, stack_index: Some(double_fault_stack) },
        ),
        forall|vector: int|
            0 <= vector < VECTORS && vector != DOUBLE_FAULT_VECTOR ==> match (
            #[trigger] spec_kernel_table(double_fault_stack)[vector]) {
                Some(entry) => entry.stack_index is None,
                None => true,
            },
{
}

/// One event of the keyboard, as the scancode decoder reports it.
#[verifier::external_type_specification]
#[verifier::external_body]
pub struct ExKeyEvent(KeyEvent);

/// The name of a key.
#[verifier::external_type_specification]
#[verifier::external_body]
pub struct ExKeyCode(KeyCode);

/// What the scancode decoder rejects a byte with.
#[verifier::external_type_specification]
#[verifier::external_body]
pub struct ExKeyboardError(Error);

/// A key as the keyboard handler passes it on: a character where the layout
/// has one for it, the key's name where it has none.
#[derive(Debug, Clone, Copy, PartialEq, Eq)]
pub enum Key {
    Unicode(char),
    RawKey(KeyCode),
}

/// The scancode decoder that lives across keyboard interrupts: a
/// `pc_keyboard::Keyboard` for the US 104-key layout and scancode set 1,
/// with its state of half-read scancodes and held modifier keys. The verifier
/// is told nothing of what is inside.
#[verifier::external_body]
pub struct ScancodeDecoder {
    keyboard: Keyboard<Us104Key, ScancodeSet1>,
}

/// `pc_keyboard::Keyboard::new` with the US 104-key layout, scancode set 1
/// and control-key combinations passed through as they are. Nothing is
/// claimed of the result.
#[verifier::external_body]
fn keyboard_new() -> (decoder: ScancodeDecoder) {
    ScancodeDecoder { keyboard: Keyboard::new(Us104Key, ScancodeSet1, HandleControl::Ignore) }
}

/// What `pc_keyboard::Keyboard::add_byte` does with a byte: the decoder as it
/// is afterwards, and what the call returns. Both depend on the decoder and
/// the byte alone.
pub uninterp spec fn decoder_add_byte(decoder: ScancodeDecoder, byte: u8) -> (
    ScancodeDecoder,
    Result<Option<KeyEvent>, Error>,
);

/// What `pc_keyboard::Keyboard::process_keyevent` does with an event: the
/// decoder as it is afterwards, and the key that the call returns, handed on
/// as a [`Key`]. Both depend on the decoder and the event alone.
pub uninterp spec fn decoder_process_keyevent(decoder: ScancodeDecoder, event: KeyEvent) -> (
    ScancodeDecoder,
    Option<Key>,
);

/// `pc_keyboard::Keyboard::add_byte`. The decoder afterwards and the result
/// are what [`decoder_add_byte`] names for the decoder before and the byte.
#[verifier::external_body]
fn keyboard_add_byte(decoder: &mut ScancodeDecoder, byte: u8) -> (event: Result<
    Option<KeyEvent>,
    Error,
>)
    ensures
        (*final(decoder), event) == decoder_add_byte(*old(decoder), byte),
{
    decoder.keyboard.add_byte(byte)
}

/// `pc_keyboard::Keyboard::process_keyevent`, its `DecodedKey` handed on as a
/// [`Key`], variant by variant. The decoder afterwards and the key are what
/// [`decoder_process_keyevent`] names for the decoder before and the event.
#[verifier::external_body]
fn keyboard_process_keyevent(decoder: &mut ScancodeDecoder, event: KeyEvent) -> (key: Option<Key>)
    ensures
        (*final(decoder), key) == decoder_process_keyevent(*old(decoder), event),
{
    match decoder.keyboard.process_keyevent(event) {
        Some(DecodedKey::Unicode(character)) => Some(Key::Unicode(character)),
        Some(DecodedKey::RawKey(code)) => Some(Key::RawKey(code)),
        None => None,
    }
}

/// The key that a decoder completes with `scancode`: the byte goes to the
/// decoder once, and where that gives an event, the event goes to the decoder
/// as it then is. No key where the byte is rejected or completes no event.
pub open spec fn spec_decoded_key(decoder: ScancodeDecoder, scancode: u8) -> Option<Key> {
    match decoder_add_byte(decoder, scancode).1 {
        Ok(Some(event)) => decoder_process_keyevent(decoder_add_byte(decoder, scancode).0, event).1,
        _ => None,
    }
}

/// The decoder after it has had `scancode`, and the event that the byte
/// completed, if any.
pub open spec fn spec_decoder_after(decoder: ScancodeDecoder, scancode: u8) -> ScancodeDecoder {
    match decoder_add_byte(decoder, scancode).1 {
        Ok(Some(event)) => decoder_process_keyevent(decoder_add_byte(decoder, scancode).0, event).0,
        _ => decoder_add_byte(decoder, scancode).0,
    }
}

impl ScancodeDecoder {
    /// A decoder that has seen no byte yet.
    pub fn new() -> (decoder: ScancodeDecoder) {
        keyboard_new()
    }
}

/// What a handler has to say on the console.
#[derive(Debug, Clone, Copy, PartialEq, Eq)]
pub enum Message {
    /// A breakpoint trap, with the state at the trap.
    Breakpoint(InterruptStackFrame),
    /// A double fault, with the state at the fault.
    DoubleFault(InterruptStackFrame),
    /// A page fault: the address whose access faulted, the reason that the
    /// processor gave, and the state at the fault.
    PageFault { accessed_address: u64, error_code: u64, stack_frame: InterruptStackFrame },
    /// One tick of the timer.
    Tick,
    /// A key that was pressed.
    Key(Key),
}

/// One thing that has to happen on behalf of a handler.
#[derive(Debug, Clone, Copy, PartialEq, Eq)]
pub enum Action {
    /// Write the message to the console.
    Print(Message),
    /// Tell the interrupt controllers that the interrupt with this vector has
    /// been serviced.
    EndOfInterrupt(u8),
}

/// How execution goes on after a handler.
#[derive(Debug, Clone, Copy, PartialEq, Eq, Structural)]
pub enum Outcome {
    /// The interrupted code resumes.
    Resume,
    /// The processor idles; the interrupted code does not resume.
    Halt,
    /// The kernel stops for good.
    Abort,
}

/// Whether the kernel's code is running.
#[derive(Debug, Clone, Copy, PartialEq, Eq, Structural)]
pub enum RunState {
    /// The kernel runs, or is about to resume after a handler.
    Running,
    /// The processor idles after a fault that nothing recovers from.
    Halted,
    /// The kernel has stopped for good.
    Aborted,
}

impl RunState {
    /// The state after a handler has ended with `outcome`: a running kernel
    /// goes on, idles or stops as the outcome says; one that does not run
    /// stays as it is.
    pub open spec fn spec_after(self, outcome: Outcome) -> RunState {
        match self {
            RunState::Running => match outcome {
                Outcome::Resume => RunState::Running,
                Outcome::Halt => RunState::Halted,
                Outcome::Abort => RunState::Aborted,
            },
            RunState::Halted => RunState::Halted,
            RunState::Aborted => RunState::Aborted,
        }
    }

    /// The state after a handler has ended with `outcome`.
    #[verifier::when_used_as_spec(spec_after)]
    pub fn after(self, outcome: Outcome) -> (state: RunState)
        ensures
            state == self.spec_after(outcome),
    {
        match self {
            RunState::Running => match outcome {
                Outcome::Resume => RunState::Running,
                Outcome::Halt => RunState::Halted,
                Outcome::Abort => RunState::Aborted,
            },
            RunState::Halted => RunState::Halted,
            RunState::Aborted => RunState::Aborted,
        }
    }

    /// The state after handlers have ended with `outcomes`, one after the
    /// other.
    pub open spec fn after_all(self, outcomes: Seq<Outcome>) -> RunState
        decreases outcomes.len(),
    {
        if outcomes.len() == 0 {
            self
        } else {
            self.after_all(outcomes.drop_last()).spec_after(outcomes.last())
        }
    }
}

/// A kernel that has stopped running does not run again, whatever handlers
/// end with afterwards; and one that runs keeps running as long as every
/// handler lets the interrupted code resume.
pub proof fn lemma_stop_is_final(state: RunState, outcomes: Seq<Outcome>)
    ensures
        state != RunState::Running ==> state.after_all(outcomes) == state,
        state == RunState::Running && (forall|i: int|
            0 <= i < outcomes.len() ==> outcomes[i] == Outcome::Resume) ==> state.after_all(
            outcomes,
        ) == RunState::Running,
    decreases outcomes.len(),
{
    if outcomes.len() > 0 {
        lemma_stop_is_final(state, outcomes.drop_last());
    }
}

/// What a handler asks for: its actions in the order in which they are due,
/// then the outcome.
#[derive(Debug, PartialEq, Eq)]
pub struct Handled {
    pub actions: Vec<Action>,
    pub outcome: Outcome,
}

/// The actions of the keyboard handler for what the decoder made of the
/// scancode: the key on the console if a key came out, then the
/// acknowledgment.
pub open spec fn spec_key_actions(key: Option<Key>) -> Seq<Action> {
    match key {
        Some(key) => seq![
            Action::Print(Message::Key(key)),
            Action::EndOfInterrupt(InterruptIndex::Keyboard.spec_as_u8()),
        ],
        None => seq![Action::EndOfInterrupt(InterruptIndex::Keyboard.spec_as_u8())],
    }
}

/// Handles the breakpoint trap: reports it, and the trapped code resumes.
pub fn breakpoint_handler(stack_frame: InterruptStackFrame) -> (handled: Handled)
    ensures
        handled.actions@ == seq![Action::Print(Message::Breakpoint(stack_frame))],
        handled.outcome == Outcome::Resume,
{
    let mut actions = Vec::new();
    actions.push(Action::Print(Message::Breakpoint(stack_frame)));
    assert(actions@ =~= seq![Action::Print(Message::Breakpoint(stack_frame))]);
    Handled { actions, outcome: Outcome::Resume }
}

/// Handles the double fault: reports it, and the kernel stops. There is no
/// way back into the code that faulted.
pub fn double_fault_handler(stack_frame: InterruptStackFrame, error_code: u64) -> (handled: Handled)
    ensures
        handled.actions@ == seq![Action::Print(Message::DoubleFault(stack_frame))],
        handled.outcome == Outcome::Abort,
{
    let mut actions = Vec::new();
    actions.push(Action::Print(Message::DoubleFault(stack_frame)));
    assert(actions@ =~= seq![Action::Print(Message::DoubleFault(stack_frame))]);
    Handled { actions, outcome: Outcome::Abort }
}

/// Handles the page fault: reports the address that was accessed, which the
/// caller read from the fault-address register, with the processor's reason
/// and the state at the fault; then the processor idles. Nothing is recovered.
pub fn page_fault_handler(
    stack_frame: InterruptStackFrame,
    error_code: u64,
    accessed_address: u64,
) -> (handled: Handled)
    ensures
        handled.actions@ == seq![
            Action::Print(Message::PageFault { accessed_address, error_code, stack_frame }),
        ],
        handled.outcome == Outcome::Halt,
{
    let mut actions = Vec::new();
    let message = Message::PageFault { accessed_address, error_code, stack_frame };
    actions.push(Action::Print(message));
    assert(actions@ =~= seq![Action::Print(message)]);
    Handled { actions, outcome: Outcome::Halt }
}

/// Handles the timer interrupt: shows the tick, then acknowledges the
/// interrupt, once and last.
pub fn timer_interrupt_handler() -> (handled: Handled)
    ensures
        handled.actions@ == seq![
            Action::Print(Message::Tick),
            Action::EndOfInterrupt(InterruptIndex::Timer.spec_as_u8()),
        ],
        handled.outcome == Outcome::Resume,
{
    let mut actions = Vec::new();
    actions.push(Action::Print(Message::Tick));
    actions.push(Action::EndOfInterrupt(InterruptIndex::Timer.as_u8()));
    assert(actions@ =~= seq![
        Action::Print(Message::Tick),
        Action::EndOfInterrupt(InterruptIndex::Timer.spec_as_u8()),
    ]);
    Handled { actions, outcome: Outcome::Resume }
}

/// The keyboard handler's actions once the decoder has had the scancode:
/// the key on the console if one came out, then the acknowledgment, once and
/// last.
pub fn key_actions(key: Option<Key>) -> (handled: Handled)
    ensures
        handled.actions@ == spec_key_actions(key),
        handled.outcome == Outcome::Resume,
{
    let mut actions = Vec::new();
    match key {
        Some(key) => {
            actions.push(Action::Print(Message::Key(key)));
        },
        None => {},
    }
    actions.push(Action::EndOfInterrupt(InterruptIndex::Keyboard.as_u8()));
    assert(actions@ =~= spec_key_actions(key));
    Handled { actions, outcome: Outcome::Resume }
}

/// Handles the keyboard interrupt for the scancode that the caller read from
/// the data port: the decoder takes the byte, once; a key that it completes
/// with it is shown; then the interrupt is acknowledged, once and last, and
/// the interrupted code resumes. A byte that the decoder rejects shows
/// nothing.
pub fn keyboard_interrupt_handler(keyboard: &mut ScancodeDecoder, scancode: u8) -> (handled:
    Handled)
    ensures
        handled.actions@ == spec_key_actions(spec_decoded_key(*old(keyboard), scancode)),
        handled.outcome == Outcome::Resume,
        *final(keyboard) == spec_decoder_after(*old(keyboard), scancode),
{
    let key = match keyboard_add_byte(keyboard, scancode) {
        Ok(Some(key_event)) => keyboard_process_keyevent(keyboard, key_event),
        _ => None,
    };
    key_actions(key)
}

/// What there is to read when a vector fires: the state that the processor
/// saved, the error code where the vector has one, the fault-address
/// register, and the byte at the keyboard's data port.
#[derive(Debug, Clone, Copy, PartialEq, Eq, Structural)]
pub struct Capture {
    pub stack_frame: InterruptStackFrame,
    pub error_code: u64,
    pub accessed_address: u64,
    pub scancode: u8,
}

/// What a handler asks for, given what was captured and the keyboard's
/// decoder as it is when the handler begins: its actions and its outcome.
pub open spec fn spec_handled(handler: Handler, capture: Capture, keyboard: ScancodeDecoder) -> (
    Seq<Action>,
    Outcome,
) {
    match handler {
        Handler::Breakpoint => (
            seq![Action::Print(Message::Breakpoint(capture.stack_frame))],
            Outcome::Resume,
        ),
        Handler::DoubleFault => (
            seq![Action::Print(Message::DoubleFault(capture.stack_frame))],
            Outcome::Abort,
        ),
        Handler::PageFault => (
            seq![
                Action::Print(
                    Message::PageFault {
                        accessed_address: capture.accessed_address,
                        error_code: capture.error_code,
                        stack_frame: capture.stack_frame,
                    },
                ),
            ],
            Outcome::Halt,
        ),
        Handler::Timer => (
            seq![
                Action::Print(Message::Tick),
                Action::EndOfInterrupt(InterruptIndex::Timer.spec_as_u8()),
            ],
            Outcome::Resume,
        ),
        Handler::Keyboard => (
            spec_key_actions(spec_decoded_key(keyboard, capture.scancode)),
            Outcome::Resume,
        ),
    }
}

/// Runs the handler that `table` has for `vector` on what was captured. A
/// vector without a handler gets `None`: nothing of the kernel runs for it.
/// Only the keyboard handler touches the decoder, which takes the scancode.
pub fn dispatch(
    table: &DispatchTable,
    keyboard: &mut ScancodeDecoder,
    vector: u8,
    capture: Capture,
) -> (handled: Option<Handled>)
    ensures
        table@.len() == VECTORS,
        match table@[vector as int] {
            None => handled is None && *final(keyboard) == *old(keyboard),
            Some(entry) => {
                &&& handled matches Some(handled) && handled.actions@ == spec_handled(
                    entry.handler,
                    capture,
                    *old(keyboard),
                ).0 && handled.outcome == spec_handled(entry.handler, capture, *old(keyboard)).1
                &&& *final(keyboard) == if entry.handler == Handler::Keyboard {
                    spec_decoder_after(*old(keyboard), capture.scancode)
                } else {
                    *old(keyboard)
                }
            },
        },
{
    match table.get(vector) {
        None => None,
        Some(entry) => Some(
            match entry.handler {
                Handler::Breakpoint => breakpoint_handler(capture.stack_frame),
                Handler::DoubleFault => double_fault_handler(
                    capture.stack_frame,
                    capture.error_code,
                ),
                Handler::PageFault => page_fault_handler(
                    capture.stack_frame,
                    capture.error_code,
                    capture.accessed_address,
                ),
                Handler::Timer => timer_interrupt_handler(),
                Handler::Keyboard => keyboard_interrupt_handler(keyboard, capture.scancode),
            },
        ),
    }
}

/// Number of interrupt lines of the two controllers together: lines 0 to 7
/// are the primary controller's, lines 8 to 15 the secondary's.
pub const LINES: u8 = 16;

/// Number of interrupt lines of one controller.
pub const LINES_PER_CONTROLLER: u8 = 8;

/// The state of the two chained interrupt controllers.
pub ghost struct BridgeState {
    /// First vector of the primary controller.
    pub primary_offset: u8,
    /// First vector of the secondary controller.
    pub secondary_offset: u8,
    /// Whether the controllers have been told their vectors.
    pub initialized: bool,
    /// For each line, whether an interrupt was delivered on it that has not
    /// been acknowledged.
    pub in_service: Seq<bool>,
}

impl BridgeState {
    /// Each controller's eight vectors lie after the processor's 32 exception
    /// vectors and within the 256 that exist; there are 16 lines.
    pub open spec fn wf(self) -> bool {
        &&& self.in_service.len() == LINES
        &&& PIC_1_OFFSET <= self.primary_offset <= 256 - LINES_PER_CONTROLLER
        &&& PIC_1_OFFSET <= self.secondary_offset <= 256 - LINES_PER_CONTROLLER
    }

    /// The vector on which `line` interrupts.
    pub open spec fn vector_of(self, line: int) -> int {
        if line < LINES_PER_CONTROLLER {
            self.primary_offset + line
        } else {
            self.secondary_offset + (line - LINES_PER_CONTROLLER)
        }
    }

    /// Whether one of the controllers has `vector` among its eight.
    pub open spec fn handles_interrupt(self, vector: u8) -> bool {
        ||| self.primary_offset <= vector < self.primary_offset + LINES_PER_CONTROLLER
        ||| self.secondary_offset <= vector < self.secondary_offset + LINES_PER_CONTROLLER
    }

    /// Whether an interrupt on `line` would be delivered: the controllers are
    /// initialized and nothing delivered on the line awaits acknowledgment.
    pub open spec fn is_live(self, line: int) -> bool {
        self.initialized && !self.in_service[line]
    }

    /// The state once the controllers have been told their vectors.
    pub open spec fn initialize(self) -> BridgeState {
        BridgeState { initialized: true, ..self }
    }

    /// The state after an interrupt was delivered on `line`.
    pub open spec fn deliver(self, line: int) -> BridgeState {
        BridgeState { in_service: self.in_service.update(line, true), ..self }
    }

    /// The state after `vector` was acknowledged: no line that interrupts on
    /// that vector is in service any more, every other line is as it was.
    pub open spec fn acknowledge(self, vector: u8) -> BridgeState {
        BridgeState {
            in_service: Seq::new(
                LINES as nat,
                |line: int| self.in_service[line] && self.vector_of(line) != vector,
            ),
            ..self
        }
    }

    /// The state after `count` interrupts on `line`, each delivered and then
    /// acknowledged before the next.
    pub open spec fn serviced(self, line: int, count: nat) -> BridgeState
        decreases count,
    {
        if count == 0 {
            self
        } else {
            self.serviced(line, (count - 1) as nat).deliver(line).acknowledge(
                self.vector_of(line) as u8,
            )
        }
    }

    /// The state after the actions of a handler were carried out: each
    /// acknowledgment among them in its turn. Messages do not concern the
    /// controllers.
    pub open spec fn carry_out(self, actions: Seq<Action>) -> BridgeState
        decreases actions.len(),
    {
        if actions.len() == 0 {
            self
        } else {
            let before = self.carry_out(actions.drop_last());
            match actions.last() {
                Action::EndOfInterrupt(vector) => before.acknowledge(vector),
                Action::Print(_) => before,
            }
        }
    }
}

/// Whether bit `line` of `mask` is set.
pub open spec fn bit_is_set(mask: u16, line: int) -> bool {
    mask & (1u16 << (line as u16)) != 0
}

/// The two chained interrupt controllers as the kernel keeps track of them:
/// where their vectors begin, whether they have been initialized, and which
/// lines await an acknowledgment.
pub struct ControllerBridge {
    primary_offset: u8,
    secondary_offset: u8,
    initialized: bool,
    in_service: u16,
}

impl View for ControllerBridge {
    type V = BridgeState;

    closed spec fn view(&self) -> BridgeState {
        BridgeState {
            primary_offset: self.primary_offset,
            secondary_offset: self.secondary_offset,
            initialized: self.initialized,
            in_service: Seq::new(LINES as nat, |line: int| bit_is_set(self.in_service, line)),
        }
    }
}

impl ControllerBridge {
    #[verifier::type_invariant]
    spec fn well_formed(&self) -> bool {
        &&& PIC_1_OFFSET <= self.primary_offset <= 256 - LINES_PER_CONTROLLER
        &&& PIC_1_OFFSET <= self.secondary_offset <= 256 - LINES_PER_CONTROLLER
    }

    /// The controllers with their vectors from `primary_offset` and from
    /// `secondary_offset` on, not yet initialized and with no line in service.
    pub fn new(primary_offset: u8, secondary_offset: u8) -> (bridge: ControllerBridge)
        requires
            PIC_1_OFFSET <= primary_offset <= 256 - LINES_PER_CONTROLLER,
            PIC_1_OFFSET <= secondary_offset <= 256 - LINES_PER_CONTROLLER,
        ensures
            bridge@ == (BridgeState {
                primary_offset,
                secondary_offset,
                initialized: false,
                in_service: Seq::new(LINES as nat, |line: int| false),
            }),
            bridge@.wf(),
    {
        let bridge = ControllerBridge {
            primary_offset,
            secondary_offset,
            initialized: false,
            in_service: 0,
        };
        proof {
            assert forall|line: int| 0 <= line < LINES implies !bit_is_set(0u16, line) by {
                let shift = line as u16;
                assert(0u16 & (1u16 << shift) == 0) by (bit_vector);
            }
            assert(bridge@.in_service =~= Seq::new(LINES as nat, |line: int| false));
        }
        bridge
    }

    /// Tells the controllers their vectors. It is done once, after the
    /// dispatch table has been installed in `idt` and while interrupts are
    /// still disabled; otherwise nothing changes, and the first of these
    /// three that does not hold is named.
    pub fn initialize(&mut self, idt: &Option<DispatchTable>, interrupts_enabled: bool) -> (result:
        Result<(), InitError>)
        ensures
            final(self)@.wf(),
            match result {
                Ok(_) => {
                    &&& *idt is Some
                    &&& !old(self)@.initialized
                    &&& !interrupts_enabled
                    &&& final(self)@ == old(self)@.initialize()
                },
                Err(error) => {
                    &&& final(self)@ == old(self)@
                    &&& error == if *idt is None {
                        InitError::TableMissing
                    } else if old(self)@.initialized {
                        InitError::ControllersInitialized
                    } else {
                        InitError::InterruptsEnabled
                    }
                    &&& *idt is None || old(self)@.initialized || interrupts_enabled
                },
            },
    {
        proof {
            use_type_invariant(&*self);
        }
        if idt.is_none() {
            Err(InitError::TableMissing)
        } else if self.initialized {
            Err(InitError::ControllersInitialized)
        } else if interrupts_enabled {
            Err(InitError::InterruptsEnabled)
        } else {
            self.initialized = true;
            Ok(())
        }
    }

    /// Whether the controllers have been initialized.
    pub fn is_initialized(&self) -> (initialized: bool)
        ensures
            initialized == self@.initialized,
    {
        self.initialized
    }

    /// Whether one of the controllers has `vector` among its eight.
    pub fn handles_interrupt(&self, vector: u8) -> (handles: bool)
        ensures
            handles == self@.handles_interrupt(vector),
    {
        proof {
            use_type_invariant(self);
        }
        (self.primary_offset <= vector && vector - self.primary_offset < LINES_PER_CONTROLLER) || (
        self.secondary_offset <= vector && vector - self.secondary_offset < LINES_PER_CONTROLLER)
    }

    /// Whether an interrupt on `line` would be delivered.
    pub fn is_live(&self, line: u8) -> (live: bool)
        requires
            line < LINES,
        ensures
            live == self@.is_live(line as int),
    {
        self.initialized && self.in_service & (1u16 << (line as u16)) == 0
    }

    /// An interrupt arrives on `line`. Where the line is live, the interrupt
    /// is delivered: its vector comes back and the line is in service until
    /// the vector is acknowledged. Where it is not, nothing is delivered and
    /// nothing changes.
    pub fn raise(&mut self, line: u8) -> (vector: Option<u8>)
        requires
            line < LINES,
        ensures
            final(self)@.wf(),
            match vector {
                Some(vector) => {
                    &&& old(self)@.is_live(line as int)
                    &&& vector == old(self)@.vector_of(line as int)
                    &&& final(self)@ == old(self)@.deliver(line as int)
                },
                None => !old(self)@.is_live(line as int) && final(self)@ == old(self)@,
            },
    {
        proof {
            use_type_invariant(&*self);
        }
        if !self.is_live(line) {
            return None;
        }
        let mask = self.in_service;
        let shift = line as u16;
        self.in_service = mask | (1u16 << shift);
        proof {
            assert forall|other: int| 0 <= other < LINES implies bit_is_set(
                mask | (1u16 << shift),
                other,
            ) == (other == line || bit_is_set(mask, other)) by {
                let at = other as u16;
                assert((mask | (1u16 << shift)) & (1u16 << at) != 0 <==> (at == shift || mask & (
                1u16 << at) != 0)) by (bit_vector)
                    requires
                        at < 16,
                        shift < 16,
                ;
            }
            assert(self@.in_service =~= old(self)@.in_service.update(line as int, true));
        }
        if line < LINES_PER_CONTROLLER {
            Some(self.primary_offset + line)
        } else {
            Some(self.secondary_offset + (line - LINES_PER_CONTROLLER))
        }
    }

    /// Carries out the acknowledgments among the actions of a handler, in
    /// their order.
    pub fn carry_out(&mut self, actions: &Vec<Action>)
        ensures
            final(self)@ == old(self)@.carry_out(actions@),
            final(self)@.wf(),
    {
        proof {
            use_type_invariant(&*self);
            assert(actions@.take(0) =~= Seq::<Action>::empty());
        }
        let mut i: usize = 0;
        while i < actions.len()
            invariant
                i <= actions@.len(),
                self@ == old(self)@.carry_out(actions@.take(i as int)),
                self@.wf(),
            decreases actions@.len() - i,
        {
            proof {
                assert(actions@.take(i + 1).drop_last() =~= actions@.take(i as int));
                assert(actions@.take(i + 1).last() == actions@[i as int]);
            }
            match actions[i] {
                Action::EndOfInterrupt(vector) => {
                    self.notify_end_of_interrupt(vector);
                },
                Action::Print(_) => {},
            }
            i += 1;
        }
        assert(actions@.take(i as int) =~= actions@);
    }

    /// The interrupt with `vector` has been serviced: each line that
    /// interrupts on that vector is out of service, and live again.
    pub fn notify_end_of_interrupt(&mut self, vector: u8)
        ensures
            final(self)@ == old(self)@.acknowledge(vector),
            final(self)@.wf(),
    {
        proof {
            use_type_invariant(&*self);
        }
        let before = self.in_service;
        let mut mask = before;
        let ghost mut primary_line: int = -1;
        let ghost mut secondary_line: int = -1;
        if self.primary_offset <= vector && vector - self.primary_offset < LINES_PER_CONTROLLER {
            let shift = (vector - self.primary_offset) as u16;
            mask = mask & !(1u16 << shift);
            proof {
                primary_line = shift as int;
            }
        }
        let between = mask;
        if self.secondary_offset <= vector && vector - self.secondary_offset
            < LINES_PER_CONTROLLER {
            let shift = (vector - self.secondary_offset + LINES_PER_CONTROLLER) as u16;
            mask = mask & !(1u16 << shift);
            proof {
                secondary_line = shift as int;
            }
        }
        self.in_service = mask;
        proof {
            assert forall|line: int| 0 <= line < LINES implies bit_is_set(mask, line) == (
            bit_is_set(before, line) && old(self)@.vector_of(line) != vector) by {
                let at = line as u16;
                if primary_line >= 0 {
                    let shift = primary_line as u16;
                    assert((before & !(1u16 << shift)) & (1u16 << at) != 0 <==> (at != shift
                        && before & (1u16 << at) != 0)) by (bit_vector)
                        requires
                            at < 16,
                            shift < 16,
                    ;
                }
                if secondary_line >= 0 {
                    let shift = secondary_line as u16;
                    assert((between & !(1u16 << shift)) & (1u16 << at) != 0 <==> (at != shift
                        && between & (1u16 << at) != 0)) by (bit_vector)
                        requires
                            at < 16,
                            shift < 16,
                    ;
                }
            }
            assert(self@.in_service =~= old(self)@.acknowledge(vector).in_service);
        }
    }
}

/// The kernel's handlers keep their lines live. With the primary controller's
/// vectors where the kernel puts them, the timer on its first line and the
/// keyboard on its second, the line of an interrupt is live again once the
/// actions of its handler have been carried out, whatever was captured and
/// whatever state the keyboard's decoder is in.
pub proof fn lemma_kernel_handlers_keep_their_lines_live(
    state: BridgeState,
    capture: Capture,
    keyboard: ScancodeDecoder,
)
    requires
        state.wf(),
        state.initialized,
        state.primary_offset == PIC_1_OFFSET,
    ensures
        state.vector_of(0) == InterruptIndex::Timer.spec_as_u8(),
        state.vector_of(1) == InterruptIndex::Keyboard.spec_as_u8(),
        state.deliver(0).carry_out(spec_handled(Handler::Timer, capture, keyboard).0).is_live(0),
        state.deliver(1).carry_out(spec_handled(Handler::Keyboard, capture, keyboard).0).is_live(1),
{
    reveal_with_fuel(BridgeState::carry_out, 3);
    let tick = spec_handled(Handler::Timer, capture, keyboard).0;
    assert(tick.drop_last() =~= seq![Action::Print(Message::Tick)]);
    assert(tick.drop_last().drop_last() =~= Seq::<Action>::empty());
    let shown = spec_handled(Handler::Keyboard, capture, keyboard).0;
    match spec_decoded_key(keyboard, capture.scancode) {
        Some(key) => {
            assert(shown.drop_last() =~= seq![Action::Print(Message::Key(key))]);
            assert(shown.drop_last().drop_last() =~= Seq::<Action>::empty());
        },
        None => {
            assert(shown.drop_last() =~= Seq::<Action>::empty());
        },
    }
}

/// Every interrupt on a line that is acknowledged leaves the line live for
/// the next one: after any number of interrupts on a live line, each
/// delivered and then acknowledged, the line is live.
pub proof fn lemma_acknowledged_line_stays_live(state: BridgeState, line: int, count: nat)
    requires
        state.wf(),
        0 <= line < LINES,
        state.is_live(line),
    ensures
        state.serviced(line, count).wf(),
        state.serviced(line, count).is_live(line),
        state.serviced(line, count).vector_of(line) == state.vector_of(line),
    decreases count,
{
    if count > 0 {
        lemma_acknowledged_line_stays_live(state, line, (count - 1) as nat);
    }
}

/// An interrupt that is not acknowledged starves its line: once delivered on
/// a line, the line is not live, and neither the acknowledgment of another
/// vector nor a delivery on another line makes it live again.
pub proof fn lemma_unacknowledged_line_is_starved(state: BridgeState, line: int)
    requires
        state.wf(),
        0 <= line < LINES,
    ensures
        !state.deliver(line).is_live(line),
        forall|vector: u8|
            vector != state.vector_of(line) ==> !(#[trigger] state.deliver(line).acknowledge(
                vector,
            )).is_live(line),
        forall|other: int|
            0 <= other < LINES ==> !(#[trigger] state.deliver(line).deliver(other)).is_live(line),
{
}

} // verus!
