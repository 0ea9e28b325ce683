use uefi_layer::table::{
    init, out_of_memory, system_table, Fault, FaultStep, Services, SystemTable, Verbosity, DEBUG_EXIT_CODE,
    DEBUG_EXIT_PORT,
};

#[test]
fn init_installs_table_and_sink() {
    let mut cell = Services::new();
    assert!(!cell.is_initialized());
    assert_eq!(cell.try_system_table(), None);
    assert!(init(&mut cell, SystemTable { address: 0x1000 }));
    assert!(cell.is_initialized());
    assert_eq!(system_table(&cell), SystemTable { address: 0x1000 });
    assert_eq!(cell.sink, Some(Verbosity::Info));
}

#[test]
fn second_init_leaves_first_table() {
    let mut cell = Services::new();
    assert!(init(&mut cell, SystemTable { address: 0x1000 }));
    let before = cell;
    assert!(!init(&mut cell, SystemTable { address: 0x2000 }));
    assert_eq!(cell, before);
    assert_eq!(system_table(&cell), SystemTable { address: 0x1000 });
}

#[test]
fn fault_plan_with_table() {
    let mut cell = Services::new();
    init(&mut cell, SystemTable { address: 0x1000 });
    let plan = cell.fault_plan(Fault { has_location: true, has_message: true, diagnostics: true });
    assert_eq!(
        plan,
        vec![
            FaultStep::ReportLocation,
            FaultStep::ReportMessage,
            FaultStep::Stall(10_000_000),
            FaultStep::Signal(DEBUG_EXIT_PORT, DEBUG_EXIT_CODE),
            FaultStep::Shutdown,
            FaultStep::ReportStranded,
            FaultStep::Halt,
        ]
    );
}

#[test]
fn fault_plan_without_table() {
    let cell = Services::new();
    let plan = cell.fault_plan(Fault { has_location: true, has_message: true, diagnostics: false });
    assert_eq!(plan, vec![FaultStep::Spin(300_000_000), FaultStep::Halt]);
}

#[test]
fn fault_plan_without_location_reports_nothing_first() {
    let mut cell = Services::new();
    init(&mut cell, SystemTable { address: 8 });
    let plan = cell.fault_plan(Fault { has_location: false, has_message: true, diagnostics: false });
    assert_eq!(
        plan,
        vec![
            FaultStep::Stall(10_000_000),
            FaultStep::Shutdown,
            FaultStep::ReportStranded,
            FaultStep::Halt,
        ]
    );
}

#[test]
fn fault_plan_location_without_message() {
    let mut cell = Services::new();
    init(&mut cell, SystemTable { address: 8 });
    let plan = cell.fault_plan(Fault { has_location: true, has_message: false, diagnostics: false });
    assert_eq!(plan[0], FaultStep::ReportLocation);
    assert_eq!(plan[1], FaultStep::Stall(10_000_000));
    assert_eq!(plan.last(), Some(&FaultStep::Halt));
}

#[test]
fn out_of_memory_fault_has_location_and_message() {
    assert_eq!(
        out_of_memory(true),
        Fault { has_location: true, has_message: true, diagnostics: true }
    );
}
