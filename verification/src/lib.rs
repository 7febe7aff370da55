//! Hardware-facing core of a bare-metal x86-64 kernel: interrupt dispatch and
//! virtual-to-physical address translation, as verified logic on plain values.
//!
//! Nothing here touches a port, a register or raw memory. Each function says
//! what has to be done, and the caller, who owns the hardware, does it.

use vstd::prelude::*;

pub mod interrupts;
pub mod memory;
pub mod paging;
pub mod vga_buffer;

use crate::interrupts::{
    breakpoint_handler, init_idt, spec_kernel_table, ControllerBridge, DispatchTable, InitError,
    InterruptStackFrame, Outcome, PIC_1_OFFSET, PIC_2_OFFSET,
};

verus! {

/// I/O port on which a diagnostic build asks the emulator to shut down.
pub const QEMU_EXIT_PORT: u16 = 0xf4;

/// Status that a diagnostic build hands to the emulator when it asks to be
/// shut down: every test passed, or one failed.
#[derive(Debug, Clone, Copy, PartialEq, Eq, Structural)]
pub enum QemuExitCode {
    Success,
    Failed,
}

impl QemuExitCode {
    /// The number that stands for this status on the exit port.
    pub open spec fn spec_code(self) -> u32 {
        match self {
            QemuExitCode::Success => 0x10,
            QemuExitCode::Failed => 0x11,
        }
    }

    /// The number that stands for this status on the exit port.
    #[verifier::when_used_as_spec(spec_code)]
    pub fn code(self) -> (code: u32)
        ensures
            code == self.spec_code(),
    {
        match self {
            QemuExitCode::Success => 0x10,
            QemuExitCode::Failed => 0x11,
        }
    }
}

/// A value to be written to an I/O port.
#[derive(Debug, Clone, Copy, PartialEq, Eq, Structural)]
pub struct PortWrite {
    pub port: u16,
    pub value: u32,
}

/// The port write that asks the emulator to shut down with `exit_code`.
pub fn exit_qemu(exit_code: QemuExitCode) -> (write: PortWrite)
    ensures
        write == (PortWrite { port: QEMU_EXIT_PORT, value: exit_code.spec_code() }),
{
    PortWrite { port: QEMU_EXIT_PORT, value: exit_code.code() }
}

/// A test that a diagnostic build runs.
pub trait Testable {
    /// Whether the test passes.
    spec fn passes(&self) -> bool;

    /// Runs the test and says whether it passed.
    fn run(&self) -> (passed: bool)
        ensures
            passed == self.passes(),
    ;
}

/// The test that a breakpoint trap leaves the trapped code running.
pub struct BreakpointResumes {
    /// The state at the trap.
    pub stack_frame: InterruptStackFrame,
}

impl Testable for BreakpointResumes {
    open spec fn passes(&self) -> bool {
        true
    }

    fn run(&self) -> (passed: bool) {
        let handled = breakpoint_handler(self.stack_frame);
        handled.outcome == Outcome::Resume
    }
}

/// How many of `tests`, from the first on, hold before one fails.
pub open spec fn passing_prefix(tests: Seq<&dyn Testable>) -> nat
    decreases tests.len(),
{
    if tests.len() == 0 {
        0
    } else if tests[0].passes() {
        1 + passing_prefix(tests.skip(1))
    } else {
        0
    }
}

/// What a run of the tests came to.
#[derive(Debug, Clone, Copy, PartialEq, Eq, Structural)]
pub struct TestReport {
    /// How many tests there were to run.
    pub total: usize,
    /// How many were run and held: all of them, or those before the first
    /// that failed.
    pub passed: usize,
    /// The status for the emulator.
    pub exit_code: QemuExitCode,
}

/// Runs the tests in their order, up to the first that fails. The status is
/// `Success` where all of them held and `Failed` where one did not.
pub fn test_runner(tests: &[&dyn Testable]) -> (report: TestReport)
    ensures
        report.total == tests@.len(),
        report.passed == passing_prefix(tests@),
        report.exit_code == if passing_prefix(tests@) == tests@.len() {
            QemuExitCode::Success
        } else {
            QemuExitCode::Failed
        },
{
    let total = tests.len();
    let mut passed: usize = 0;
    assert(tests@.skip(0) =~= tests@);
    while passed < total
        invariant
            total == tests@.len(),
            passed <= total,
            passing_prefix(tests@) == passed + passing_prefix(tests@.skip(passed as int)),
        decreases total - passed,
    {
        proof {
            let rest = tests@.skip(passed as int);
            assert(rest.skip(1) =~= tests@.skip(passed + 1));
        }
        if !tests[passed].run() {
            return TestReport { total, passed, exit_code: QemuExitCode::Failed };
        }
        passed += 1;
    }
    TestReport { total, passed, exit_code: QemuExitCode::Success }
}

/// What is left to do when a diagnostic build has failed.
#[derive(Debug, PartialEq, Eq)]
pub struct FailureReport {
    /// The description of the failure, to be shown after the word that it
    /// failed.
    pub error: String,
    /// The port write that tells the emulator. After it the processor idles.
    pub exit: PortWrite,
}

/// Takes the description of a failure and says what is left to do: show it,
/// and ask the emulator to shut down with the status `Failed`.
pub fn test_panic_handler(info: &str) -> (report: FailureReport)
    ensures
        report.error@ == info@,
        report.exit == (PortWrite {
            port: QEMU_EXIT_PORT,
            value: QemuExitCode::Failed.spec_code(),
        }),
{
    FailureReport { error: info.to_owned(), exit: exit_qemu(QemuExitCode::Failed) }
}

/// The parts of the machine that startup brings up, as the kernel keeps track
/// of them.
pub struct System {
    /// The dispatch table that is installed, if one is.
    pub idt: Option<DispatchTable>,
    /// The interrupt controllers.
    pub pics: ControllerBridge,
    /// Whether the processor accepts hardware interrupts.
    pub interrupts_enabled: bool,
}

/// One step of startup, for the caller to carry out on the hardware.
#[derive(Debug, Clone, Copy, PartialEq, Eq, Structural)]
pub enum InitStep {
    /// Load the dispatch table into the processor.
    LoadDispatchTable,
    /// Tell the interrupt controllers their vectors.
    InitializeControllers,
    /// Let the processor accept hardware interrupts.
    EnableInterrupts,
}

impl System {
    /// Whether nothing has been brought up yet.
    pub open spec fn is_fresh(&self) -> bool {
        self.idt is None && !self.pics@.initialized && !self.interrupts_enabled
    }

    /// The machine before startup: no table installed, the controllers with
    /// their vectors chosen but not initialized, interrupts disabled.
    pub fn new() -> (system: System)
        ensures
            system.is_fresh(),
            system.pics@.wf(),
            system.pics@.primary_offset == PIC_1_OFFSET,
            system.pics@.secondary_offset == PIC_2_OFFSET,
            forall|line: int| 0 <= line < 16 ==> !system.pics@.in_service[line],
    {
        System {
            idt: None,
            pics: ControllerBridge::new(PIC_1_OFFSET, PIC_2_OFFSET),
            interrupts_enabled: false,
        }
    }
}

/// The steps of startup, in their order.
pub open spec fn spec_init_steps() -> Seq<InitStep> {
    seq![InitStep::LoadDispatchTable, InitStep::InitializeControllers, InitStep::EnableInterrupts]
}

/// Brings the machine up: installs the kernel's dispatch table, with the
/// dedicated stack `double_fault_stack` for the double fault, then
/// initializes the interrupt controllers, then enables interrupts. The steps
/// come back in that order for the caller to carry out. It works once, on a
/// machine on which none of this was done; otherwise nothing changes and the
/// first of the three that was done already is named.
pub fn init(system: &mut System, double_fault_stack: u16) -> (result: Result<
    Vec<InitStep>,
    InitError,
>)
    ensures
        match result {
            Ok(steps) => {
                &&& old(system).is_fresh()
                &&& steps@ == spec_init_steps()
                &&& final(system).idt matches Some(table) && table@ == spec_kernel_table(
                    double_fault_stack,
                )
                &&& final(system).pics@ == old(system).pics@.initialize()
                &&& final(system).interrupts_enabled
            },
            Err(error) => {
                &&& *final(system) == *old(system)
                &&& error == if old(system).idt is Some {
                    InitError::TableInstalled
                } else if old(system).pics@.initialized {
                    InitError::ControllersInitialized
                } else {
                    InitError::InterruptsEnabled
                }
                &&& !old(system).is_fresh()
            },
        },
{
    if system.idt.is_some() {
        return Err(InitError::TableInstalled);
    }
    if system.pics.is_initialized() {
        return Err(InitError::ControllersInitialized);
    }
    if system.interrupts_enabled {
        return Err(InitError::InterruptsEnabled);
    }
    let mut steps = Vec::new();
    match init_idt(&mut system.idt, double_fault_stack) {
        Ok(_) => {},
        Err(error) => {
            return Err(error);
        },
    }
    steps.push(InitStep::LoadDispatchTable);
    match system.pics.initialize(&system.idt, system.interrupts_enabled) {
        Ok(_) => {},
        Err(error) => {
            return Err(error);
        },
    }
    steps.push(InitStep::InitializeControllers);
    system.interrupts_enabled = true;
    steps.push(InitStep::EnableInterrupts);
    assert(steps@ =~= spec_init_steps());
    Ok(steps)
}

} // verus!
