use uefi_layer::dir::Directory;
use uefi_layer::file::{encode_name, FileAttribute, FileInfo, FileMode};
use uefi_layer::node::File;
use uefi_layer::proto::{BootServices, Guid, Handle, Identify, FILE_GUID, TEXT_OUTPUT_GUID};
use uefi_layer::console::Output;
use uefi_layer::status::{Completion, Failure, ACCESS_DENIED, BUFFER_TOO_SMALL, UNSUPPORTED};

fn attr(directory: bool) -> FileAttribute {
    FileAttribute { read_only: false, hidden: false, system: false, directory, archive: false }
}

fn record(s: &str, directory: bool) -> FileInfo {
    FileInfo::new(3, attr(directory), encode_name(s).unwrap()).unwrap()
}

fn directory_of(names: &[&str], mode: FileMode) -> Directory {
    let mut node = File::new(record("root", true), mode);
    for n in names {
        assert!(node.add_entry(record(n, false)));
    }
    Directory::from_file(node)
}

fn read_names(dir: &mut Directory) -> Vec<Vec<u16>> {
    let mut names = Vec::new();
    while let Some(entry) = dir.read_entry(0x2000, 4096).unwrap() {
        names.push(entry.name);
    }
    names
}

#[test]
fn enumeration_ends_with_empty_result() {
    let mut dir = directory_of(&[".", "..", "kernel"], FileMode::Read);
    assert_eq!(dir.read_entry(0, 512).unwrap().unwrap().name, encode_name(".").unwrap());
    assert_eq!(dir.read_entry(0, 512).unwrap().unwrap().name, encode_name("..").unwrap());
    assert_eq!(dir.read_entry(0, 512).unwrap().unwrap().name, encode_name("kernel").unwrap());
    assert!(dir.read_entry(0, 512).unwrap().is_none());
    assert!(dir.read_entry(0, 512).unwrap().is_none());
}

#[test]
fn reset_reproduces_the_enumeration() {
    let mut dir = directory_of(&["a", "bb", "ccc"], FileMode::Read);
    let first = read_names(&mut dir);
    assert_eq!(first.len(), 3);
    assert_eq!(dir.reset_entry_readout(), Ok(Completion::Success(0)));
    let second = read_names(&mut dir);
    assert_eq!(first, second);
}

#[test]
fn reset_in_the_middle_starts_over() {
    let mut dir = directory_of(&["a", "bb", "ccc"], FileMode::Read);
    assert!(dir.read_entry(0, 512).unwrap().is_some());
    assert_eq!(dir.reset_entry_readout(), Ok(Completion::Success(0)));
    assert_eq!(read_names(&mut dir).len(), 3);
}

#[test]
fn empty_directory_reads_nothing() {
    let mut dir = directory_of(&[], FileMode::Read);
    assert!(dir.read_entry(0, 512).unwrap().is_none());
    assert!(dir.read_entry(0, 0).unwrap().is_none());
}

#[test]
fn too_small_buffer_reports_size_and_retry_succeeds() {
    let mut dir = directory_of(&["kernel", "b"], FileMode::Read);
    let failure = dir.read_entry(0x1000, 10).unwrap_err();
    assert_eq!(failure, Failure { kind: BUFFER_TOO_SMALL, payload: Some(94) });
    let entry = dir.read_entry(0x1000, 94).unwrap().unwrap();
    assert_eq!(entry.name, encode_name("kernel").unwrap());
    assert_eq!(entry.size, 3);
    assert_eq!(dir.read_entry(0x1000, 84).unwrap().unwrap().name, encode_name("b").unwrap());
}

#[test]
fn misaligned_buffer_loses_its_padding() {
    let mut dir = directory_of(&["kernel"], FileMode::Read);
    assert_eq!(
        dir.read_entry(0x1003, 94).unwrap_err(),
        Failure { kind: BUFFER_TOO_SMALL, payload: Some(94) }
    );
    assert_eq!(
        dir.read_entry(0x1003, 98).unwrap_err(),
        Failure { kind: BUFFER_TOO_SMALL, payload: Some(94) }
    );
    assert!(dir.read_entry(0x1003, 99).unwrap().is_some());
}

#[test]
fn checked_conversion_refuses_plain_file() {
    let file = File::new(record("data", false), FileMode::Read);
    assert!(Directory::try_from_file(file).is_err());
    let node = File::new(record("root", true), FileMode::Read);
    assert!(Directory::try_from_file(node).is_ok());
}

#[test]
fn directory_forwards_to_its_node() {
    let mut dir = directory_of(&["a"], FileMode::Read);
    assert_eq!(dir.flush(), Err(Failure { kind: ACCESS_DENIED, payload: None }));
    assert_eq!(
        dir.set_info(&record("root2", true)),
        Err(Failure { kind: ACCESS_DENIED, payload: None })
    );
    assert_eq!(dir.get_info(0, 200).unwrap().name, encode_name("root").unwrap());
    assert_eq!(
        dir.get_info(0, 8).unwrap_err(),
        Failure { kind: BUFFER_TOO_SMALL, payload: Some(90) }
    );
    assert!(dir.open("a", FileMode::Read, attr(false)).is_ok());
    assert_eq!(dir.delete().unwrap(), Completion::Warning(0, 2));
    let mut writable = directory_of(&["a"], FileMode::ReadWrite);
    assert_eq!(writable.flush(), Ok(Completion::Success(0)));
    assert_eq!(writable.set_info(&record("root2", true)), Ok(Completion::Success(0)));
    assert_eq!(writable.get_info(0, 200).unwrap().name, encode_name("root2").unwrap());
    assert_eq!(writable.delete().unwrap(), Completion::Success(0));
    directory_of(&[], FileMode::Read).close();
}

#[test]
fn locate_unprovided_capability_is_absent() {
    let mut table = BootServices::new();
    assert!(table.install(Handle { key: 1 }, Guid { value: TEXT_OUTPUT_GUID }));
    assert!(table.locate(Guid { value: 0x1234 }).is_none());
    assert!(table.locate_protocol::<File>().is_none());
    assert!(BootServices::new().locate(Guid { value: TEXT_OUTPUT_GUID }).is_none());
}

#[test]
fn located_capabilities_of_different_types_differ() {
    let mut table = BootServices::new();
    assert!(table.install(Handle { key: 1 }, Guid { value: TEXT_OUTPUT_GUID }));
    assert!(table.install(Handle { key: 1 }, Guid { value: FILE_GUID }));
    assert!(table.install(Handle { key: 2 }, Guid { value: FILE_GUID }));
    let console = table.locate_protocol::<Output>().unwrap();
    let files = table.locate(Guid { value: FILE_GUID }).unwrap();
    assert!(!console.same_as(&files));
    assert_eq!(console.guid(), Guid { value: TEXT_OUTPUT_GUID });
    assert_eq!(files.guid(), Guid { value: FILE_GUID });
    assert_eq!(files.handle(), Handle { key: 1 });
    assert!(files.same_as(&table.locate_protocol::<File>().unwrap()));
}

#[test]
fn open_capability_on_handle() {
    let mut table = BootServices::new();
    assert!(table.install(Handle { key: 1 }, Guid { value: TEXT_OUTPUT_GUID }));
    assert!(table.install(Handle { key: 2 }, Guid { value: FILE_GUID }));
    let bound = table.open(Handle { key: 2 }, Guid { value: FILE_GUID }).ok().unwrap();
    assert_eq!(bound.handle(), Handle { key: 2 });
    assert_eq!(bound.guid(), Guid { value: FILE_GUID });
    assert_eq!(
        table.open(Handle { key: 1 }, Guid { value: FILE_GUID }).err(),
        Some(Failure { kind: UNSUPPORTED, payload: None })
    );
    assert_eq!(table.exit_boot_services(), 2);
}

#[test]
fn install_twice_changes_nothing() {
    let mut table = BootServices::new();
    assert!(table.install(Handle { key: 1 }, Guid { value: FILE_GUID }));
    assert!(!table.install(Handle { key: 1 }, Guid { value: FILE_GUID }));
    assert_eq!(table.exit_boot_services(), 1);
}

#[test]
fn capability_types_name_their_identifiers() {
    assert_eq!(<Output as Identify>::guid(), Guid { value: 0x387477c2_69c7_11d2_8e39_00a0c969723b });
    assert_eq!(<File as Identify>::guid(), Guid { value: 0x964e5b22_6459_11d2_8e39_00a0c969723b });
}
