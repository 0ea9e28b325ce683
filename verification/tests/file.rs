use uefi_layer::dir::Directory;
use uefi_layer::file::{
    copy_units, encode_name, realign_storage, units_equal, FileAttribute, FileInfo, FileMode,
    Span, END_OF_FILE, INVALID_PARAMETER, MAX_NAME_UNITS,
};
use uefi_layer::node::File;
use uefi_layer::status::{
    Completion, Failure, ACCESS_DENIED, BUFFER_TOO_SMALL, DEVICE_ERROR, NOT_FOUND, UNSUPPORTED,
    WARN_DELETE_FAILURE,
};

fn plain_file() -> FileAttribute {
    FileAttribute { read_only: false, hidden: false, system: false, directory: false, archive: false }
}

fn dir_attr() -> FileAttribute {
    FileAttribute { read_only: false, hidden: false, system: false, directory: true, archive: false }
}

fn name(s: &str) -> Vec<u16> {
    encode_name(s).unwrap()
}

fn info(s: &str, size: u64, attribute: FileAttribute) -> FileInfo {
    FileInfo::new(size, attribute, name(s)).unwrap()
}

fn listing(names: &[&str], mode: FileMode) -> File {
    let mut node = File::new(info("root", 0, dir_attr()), mode);
    for n in names {
        assert!(node.add_entry(info(n, 7, plain_file())));
    }
    node
}

#[test]
fn realign_skips_to_next_multiple() {
    assert_eq!(realign_storage(0x1003, 100, 8), Span { offset: 5, len: 95 });
    assert_eq!(realign_storage(0x1007, 100, 8), Span { offset: 1, len: 99 });
    assert_eq!(realign_storage(0x1001, 100, 8), Span { offset: 7, len: 93 });
}

#[test]
fn realign_keeps_aligned_buffer() {
    assert_eq!(realign_storage(0x1000, 100, 8), Span { offset: 0, len: 100 });
    assert_eq!(realign_storage(0, 0, 8), Span { offset: 0, len: 0 });
    assert_eq!(realign_storage(12345, 10, 1), Span { offset: 0, len: 10 });
}

#[test]
fn realign_buffer_shorter_than_padding_is_empty() {
    assert_eq!(realign_storage(0x1001, 3, 8), Span { offset: 3, len: 0 });
    assert_eq!(realign_storage(0x1001, 7, 8), Span { offset: 7, len: 0 });
}

#[test]
fn realign_matches_formula_for_every_misalignment() {
    for k in 0..16usize {
        let span = realign_storage(0x4000 + k, 64, 16);
        let pad = (16 - k) % 16;
        assert_eq!(span.offset, pad);
        assert_eq!(span.len, 64 - pad);
        assert_eq!((0x4000 + k + span.offset) % 16, 0);
        assert!(span.offset + span.len <= 64);
    }
}

#[test]
fn file_info_size_counts_header_name_and_terminator() {
    let record = info("abc", 0, plain_file());
    assert_eq!(record.required_size(), 88);
    assert_eq!(info("", 0, plain_file()).required_size(), 82);
    assert!(!record.is_directory());
    let copy = record.duplicate();
    assert_eq!(copy.name, record.name);
    assert_eq!(copy.size, record.size);
}

#[test]
fn file_info_rejects_too_long_name() {
    assert!(FileInfo::new(0, plain_file(), vec![97u16; MAX_NAME_UNITS + 1]).is_none());
    assert!(FileInfo::new(0, plain_file(), vec![97u16; MAX_NAME_UNITS]).is_some());
}

#[test]
fn encode_name_transcodes_or_fails() {
    assert_eq!(encode_name("a\u{20ac}"), Some(vec![97u16, 0x20ac]));
    assert_eq!(encode_name(""), Some(vec![]));
    assert_eq!(encode_name("a\u{1F600}"), None);
}

#[test]
fn units_compare_and_copy() {
    assert!(units_equal(&vec![1, 2, 3], &vec![1, 2, 3]));
    assert!(!units_equal(&vec![1, 2, 3], &vec![1, 2, 4]));
    assert!(!units_equal(&vec![1, 2, 3], &vec![1, 2]));
    assert!(units_equal(&vec![], &vec![]));
    assert_eq!(copy_units(&vec![9, 8, 7]), vec![9u16, 8, 7]);
}

#[test]
fn file_read_advances_to_end_of_file() {
    let mut node = File::new(info("data", 10, plain_file()), FileMode::Read);
    assert_eq!(node.read(4), Ok(Completion::Success(4)));
    assert_eq!(node.position(), 4);
    assert_eq!(node.read(4), Ok(Completion::Success(4)));
    assert_eq!(node.read(4), Ok(Completion::Success(2)));
    assert_eq!(node.position(), 10);
    assert_eq!(node.read(4), Ok(Completion::Success(0)));
    assert_eq!(node.read(0), Ok(Completion::Success(0)));
}

#[test]
fn file_read_beyond_end_is_device_error() {
    let mut node = File::new(info("data", 10, plain_file()), FileMode::Read);
    assert_eq!(node.set_position(11), Ok(Completion::Success(0)));
    assert_eq!(node.read(4), Err(Failure { kind: DEVICE_ERROR, payload: None }));
    assert_eq!(node.position(), 11);
}

#[test]
fn file_set_position_end_of_file() {
    let mut node = File::new(info("data", 10, plain_file()), FileMode::Read);
    assert_eq!(node.set_position(END_OF_FILE), Ok(Completion::Success(0)));
    assert_eq!(node.position(), 10);
    assert_eq!(node.set_position(3), Ok(Completion::Success(0)));
    assert_eq!(node.position(), 3);
}

#[test]
fn directory_node_only_rewinds() {
    let mut node = listing(&["a"], FileMode::Read);
    assert_eq!(node.set_position(1), Err(Failure { kind: UNSUPPORTED, payload: None }));
    assert_eq!(node.read(1000), Ok(Completion::Success(84)));
    assert_eq!(node.position(), 1);
    assert_eq!(node.set_position(0), Ok(Completion::Success(0)));
    assert_eq!(node.position(), 0);
}

#[test]
fn add_entry_refused_on_plain_file() {
    let mut node = File::new(info("data", 10, plain_file()), FileMode::Read);
    assert!(!node.add_entry(info("x", 0, plain_file())));
    assert!(!node.is_directory());
    assert!(!node.has_entry());
}

#[test]
fn get_info_returns_record_or_required_size() {
    let mut node = File::new(info("data", 10, plain_file()), FileMode::Read);
    let got = node.get_info(0x1000, 90).unwrap();
    assert_eq!(got.name, name("data"));
    assert_eq!(got.size, 10);
    assert_eq!(
        node.get_info(0x1000, 89).unwrap_err(),
        Failure { kind: BUFFER_TOO_SMALL, payload: Some(90) }
    );
    assert_eq!(
        node.get_info(0x1001, 90).unwrap_err(),
        Failure { kind: BUFFER_TOO_SMALL, payload: Some(90) }
    );
    assert!(node.get_info(0x1001, 97).is_ok());
}

#[test]
fn set_info_rules() {
    let mut reader = File::new(info("data", 10, plain_file()), FileMode::Read);
    assert_eq!(
        reader.set_info(&info("other", 1, plain_file())),
        Err(Failure { kind: ACCESS_DENIED, payload: None })
    );
    let mut writer = File::new(info("data", 10, plain_file()), FileMode::ReadWrite);
    assert_eq!(
        writer.set_info(&info("other", 1, dir_attr())),
        Err(Failure { kind: ACCESS_DENIED, payload: None })
    );
    let long = FileInfo { size: 0, attribute: plain_file(), name: vec![97u16; MAX_NAME_UNITS + 1] };
    assert_eq!(writer.set_info(&long), Err(Failure { kind: INVALID_PARAMETER, payload: None }));
    assert_eq!(writer.set_info(&info("other", 1, plain_file())), Ok(Completion::Success(0)));
    assert_eq!(writer.get_info(0, 200).unwrap().name, name("other"));
}

#[test]
fn flush_needs_write_access() {
    let mut reader = File::new(info("data", 10, plain_file()), FileMode::Read);
    assert_eq!(reader.flush(), Err(Failure { kind: ACCESS_DENIED, payload: None }));
    let mut writer = File::new(info("data", 10, plain_file()), FileMode::ReadWrite);
    assert_eq!(writer.flush(), Ok(Completion::Success(0)));
}

#[test]
fn delete_warns_when_node_stays() {
    let reader = File::new(info("data", 10, plain_file()), FileMode::Read);
    assert_eq!(reader.delete(), Ok(Completion::Warning(0, WARN_DELETE_FAILURE)));
    let mut protected = plain_file();
    protected.read_only = true;
    let locked = File::new(info("data", 10, protected), FileMode::ReadWrite);
    assert_eq!(locked.delete(), Ok(Completion::Warning(0, WARN_DELETE_FAILURE)));
    let writer = File::new(info("data", 10, plain_file()), FileMode::ReadWrite);
    assert_eq!(writer.delete(), Ok(Completion::Success(0)));
    File::new(info("data", 10, plain_file()), FileMode::Read).close();
}

#[test]
fn open_finds_first_entry_of_that_name() {
    let mut node = listing(&["a", "b"], FileMode::Read);
    let mut child = node.open("b", FileMode::Read, plain_file()).ok().unwrap();
    assert_eq!(child.position(), 0);
    assert_eq!(child.get_info(0, 200).unwrap().name, name("b"));
    assert_eq!(child.get_info(0, 200).unwrap().size, 7);
}

#[test]
fn open_missing_name_is_not_found() {
    let mut node = listing(&["a", "b"], FileMode::ReadWrite);
    assert_eq!(
        node.open("c", FileMode::ReadWrite, plain_file()).err(),
        Some(Failure { kind: NOT_FOUND, payload: None })
    );
    let mut file = File::new(info("data", 10, plain_file()), FileMode::ReadWrite);
    assert_eq!(
        file.open("c", FileMode::CreateReadWrite, plain_file()).err(),
        Some(Failure { kind: NOT_FOUND, payload: None })
    );
}

#[test]
fn open_unrepresentable_name_is_invalid_parameter() {
    let mut node = listing(&["a"], FileMode::ReadWrite);
    assert_eq!(
        node.open("\u{1F600}", FileMode::Read, plain_file()).err(),
        Some(Failure { kind: INVALID_PARAMETER, payload: None })
    );
}

#[test]
fn open_creates_entry_at_the_end() {
    let mut node = listing(&["a"], FileMode::ReadWrite);
    let mut child = node.open("new", FileMode::CreateReadWrite, plain_file()).ok().unwrap();
    assert_eq!(child.get_info(0, 200).unwrap().size, 0);
    let mut dir = Directory::from_file(node);
    assert_eq!(dir.read_entry(0, 200).unwrap().unwrap().name, name("a"));
    assert_eq!(dir.read_entry(0, 200).unwrap().unwrap().name, name("new"));
    assert!(dir.read_entry(0, 200).unwrap().is_none());
}

#[test]
fn open_create_in_read_only_parent_is_denied() {
    let mut node = listing(&["a"], FileMode::Read);
    assert_eq!(
        node.open("new", FileMode::CreateReadWrite, plain_file()).err(),
        Some(Failure { kind: ACCESS_DENIED, payload: None })
    );
}

#[test]
fn write_moves_cursor_and_grows_file() {
    let mut node = File::new(info("data", 10, plain_file()), FileMode::ReadWrite);
    assert_eq!(node.write(4), Ok(Completion::Success(4)));
    assert_eq!(node.position(), 4);
    assert_eq!(node.get_info(0, 200).unwrap().size, 10);
    assert_eq!(node.set_position(8), Ok(Completion::Success(0)));
    assert_eq!(node.write(5), Ok(Completion::Success(5)));
    assert_eq!(node.position(), 13);
    assert_eq!(node.get_info(0, 200).unwrap().size, 13);
    assert_eq!(node.write(0), Ok(Completion::Success(0)));
}

#[test]
fn write_refusals() {
    let mut reader = File::new(info("data", 10, plain_file()), FileMode::Read);
    assert_eq!(reader.write(1), Err(Failure { kind: ACCESS_DENIED, payload: None }));
    let mut dir = listing(&[], FileMode::ReadWrite);
    assert_eq!(dir.write(1), Err(Failure { kind: UNSUPPORTED, payload: None }));
    let mut writer = File::new(info("data", 10, plain_file()), FileMode::ReadWrite);
    assert_eq!(writer.set_position(u64::MAX - 1), Ok(Completion::Success(0)));
    assert_eq!(writer.write(2), Err(Failure { kind: 11, payload: None }));
    assert_eq!(writer.write(1), Ok(Completion::Success(1)));
}
