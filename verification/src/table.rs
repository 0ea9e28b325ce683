//! The process-wide table cell and the plan that an unrecoverable fault follows.

use vstd::prelude::*;

verus! {

/// Microseconds for which a fault is held on screen through the stall primitive.
pub const FAULT_STALL_MICROSECONDS: u64 = 10_000_000;

/// Iterations of the busy loop that holds a fault on screen without a table.
pub const FAULT_SPIN_ITERATIONS: u64 = 300_000_000;

/// The port on which a harness listens for a fault.
pub const DEBUG_EXIT_PORT: u16 = 0xf4;

/// The value written to the harness port on a fault.
pub const DEBUG_EXIT_CODE: u32 = 42;

/// A reference to the top-level firmware table.
#[derive(Clone, Copy, Debug, PartialEq, Eq, Structural)]
pub struct SystemTable {
    pub address: usize,
}

/// How much the diagnostic sink lets through.
#[derive(Clone, Copy, Debug, PartialEq, Eq, Structural)]
pub enum Verbosity {
    Off,
    Error,
    Warn,
    Info,
    Debug,
    Trace,
}

/// The single-assignment cell for the table reference, with the state of the
/// diagnostic sink that is installed together with it.
#[derive(Clone, Copy, Debug, PartialEq, Eq, Structural)]
pub struct Services {
    pub table: Option<SystemTable>,
    pub sink: Option<Verbosity>,
}

/// One step of the fault path.
#[derive(Clone, Copy, Debug, PartialEq, Eq, Structural)]
pub enum FaultStep {
    /// Report where the fault arose, through the diagnostic sink.
    ReportLocation,
    /// Report the fault's message, through the diagnostic sink.
    ReportMessage,
    /// Hold through the table's stall primitive, for so many microseconds.
    Stall(u64),
    /// Hold in a busy loop of so many iterations.
    Spin(u64),
    /// Write the value to the port, to signal a harness.
    Signal(u16, u32),
    /// Ask the table's reset primitive for a shutdown, with the fault as reason.
    Shutdown,
    /// Report that the system could not be shut down.
    ReportStranded,
    /// Wait at low power, for ever.
    Halt,
}

/// What is known of a fault when its path is planned.
#[derive(Clone, Copy, Debug, PartialEq, Eq, Structural)]
pub struct Fault {
    /// The place of the fault is known.
    pub has_location: bool,
    /// The fault carries a message.
    pub has_message: bool,
    /// The build signals a harness over the debug port.
    pub diagnostics: bool,
}

/// The steps that report a fault: the location where it is known and the
/// sink is installed, and with it the message where there is one.
pub open spec fn report_steps(sink: bool, fault: Fault) -> Seq<FaultStep> {
    if sink && fault.has_location {
        if fault.has_message {
            seq![FaultStep::ReportLocation, FaultStep::ReportMessage]
        } else {
            seq![FaultStep::ReportLocation]
        }
    } else {
        Seq::empty()
    }
}

/// The step that holds the report on screen.
pub open spec fn hold_step(table: bool) -> FaultStep {
    if table {
        FaultStep::Stall(FAULT_STALL_MICROSECONDS)
    } else {
        FaultStep::Spin(FAULT_SPIN_ITERATIONS)
    }
}

/// The steps that end the fault path: the harness signal in a diagnostics
/// build, the shutdown request where a table is installed, the report that it
/// did not come about where the sink is installed, and the final wait.
pub open spec fn closing_steps(table: bool, sink: bool, diagnostics: bool) -> Seq<FaultStep> {
    (if diagnostics {
        seq![FaultStep::Signal(DEBUG_EXIT_PORT, DEBUG_EXIT_CODE)]
    } else {
        Seq::empty()
    }) + (if table {
        seq![FaultStep::Shutdown]
    } else {
        Seq::empty()
    }) + (if sink {
        seq![FaultStep::ReportStranded]
    } else {
        Seq::empty()
    }) + seq![FaultStep::Halt]
}

/// The whole fault path for a cell in the given state.
pub open spec fn fault_path(table: bool, sink: bool, fault: Fault) -> Seq<FaultStep> {
    report_steps(sink, fault) + seq![hold_step(table)] + closing_steps(
        table,
        sink,
        fault.diagnostics,
    )
}

impl Services {
    /// The state after `init(table)`: the first table stays, and the sink is
    /// installed at the baseline verbosity with it.
    pub open spec fn after_init(self, table: SystemTable) -> Services {
        if self.table is Some {
            self
        } else {
            Services { table: Some(table), sink: Some(Verbosity::Info) }
        }
    }

    /// A cell that holds no table and no sink.
    pub fn new() -> (r: Services)
        ensures
            r == (Services { table: None, sink: None }),
    {
        Services { table: None, sink: None }
    }

    /// Whether a table is installed.
    pub fn is_initialized(&self) -> (r: bool)
        ensures
            r == (self.table is Some),
    {
        self.table.is_some()
    }

    /// The installed table, if any.
    pub fn try_system_table(&self) -> (r: Option<SystemTable>)
        ensures
            r == self.table,
    {
        self.table
    }

    /// The ordered steps of the fault path: report through the sink if it is
    /// installed, hold, signal a harness in a diagnostics build, ask for
    /// shutdown if a table is installed, and wait for ever.
    pub fn fault_plan(&self, fault: Fault) -> (plan: Vec<FaultStep>)
        ensures
            plan@ == fault_path(self.table is Some, self.sink is Some, fault),
    {
        let mut plan: Vec<FaultStep> = Vec::new();
        if self.sink.is_some() && fault.has_location {
            plan.push(FaultStep::ReportLocation);
            if fault.has_message {
                plan.push(FaultStep::ReportMessage);
            }
        }
        if self.table.is_some() {
            plan.push(FaultStep::Stall(FAULT_STALL_MICROSECONDS));
        } else {
            plan.push(FaultStep::Spin(FAULT_SPIN_ITERATIONS));
        }
        if fault.diagnostics {
            plan.push(FaultStep::Signal(DEBUG_EXIT_PORT, DEBUG_EXIT_CODE));
        }
        if self.table.is_some() {
            plan.push(FaultStep::Shutdown);
        }
        if self.sink.is_some() {
            plan.push(FaultStep::ReportStranded);
        }
        plan.push(FaultStep::Halt);
        proof {
            assert(plan@ =~= fault_path(self.table is Some, self.sink is Some, fault));
        }
        plan
    }
}

/// Installs `table` and the diagnostic sink in the cell, unless a table is
/// installed already: then nothing changes. Says whether this call installed
/// it.
pub fn init(cell: &mut Services, table: SystemTable) -> (installed: bool)
    ensures
        *final(cell) == old(cell).after_init(table),
        installed == (old(cell).table is None),
{
    if cell.table.is_some() {
        return false;
    }
    cell.table = Some(table);
    cell.sink = Some(Verbosity::Info);
    true
}

/// The table installed in the cell. There must be one.
pub fn system_table(cell: &Services) -> (r: SystemTable)
    requires
        cell.table is Some,
    ensures
        Some(r) == cell.table,
{
    cell.table.unwrap()
}

/// The fault that running out of memory raises: its place is the allocation
/// and its message names the request.
pub fn out_of_memory(diagnostics: bool) -> (fault: Fault)
    ensures
        fault == (Fault { has_location: true, has_message: true, diagnostics }),
{
    Fault { has_location: true, has_message: true, diagnostics }
}

/// The table installed first stays installed: a second `init` changes nothing.
pub proof fn lemma_init_write_once(cell: Services, first: SystemTable, second: SystemTable)
    requires
        cell.table is None,
    ensures
        cell.after_init(first).after_init(second) == cell.after_init(first),
        cell.after_init(first).table == Some(first),
{
}

/// Every fault path ends in the final wait, which occurs nowhere before, and
/// asks for shutdown exactly where a table is installed.
pub proof fn lemma_fault_path_ends_in_halt(table: bool, sink: bool, fault: Fault)
    ensures
        fault_path(table, sink, fault).len() >= 2,
        fault_path(table, sink, fault).last() == FaultStep::Halt,
        forall|i: int|
            0 <= i < fault_path(table, sink, fault).len() - 1 ==> #[trigger] fault_path(
                table,
                sink,
                fault,
            )[i] != FaultStep::Halt,
        fault_path(table, sink, fault).contains(FaultStep::Shutdown) == table,
{
    let path = fault_path(table, sink, fault);
    let reports = report_steps(sink, fault);
    if table {
        let at = reports.len() + 1 + (if fault.diagnostics { 1int } else { 0int });
        assert(path[at] == FaultStep::Shutdown);
    }
}

} // verus!
