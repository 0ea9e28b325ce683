//! The file node: its cursor, open mode, metadata record and, for a
//! directory, its entry records, behind the typed operations.

use vstd::prelude::*;
use crate::console::convertible;
use crate::file::{
    encode_name, realign_spec, realign_storage, record_size, units_equal, units_of, FileAttribute,
    FileInfo, FileInfoView, FileMode, END_OF_FILE, FILE_INFO_ALIGN, INVALID_PARAMETER,
    MAX_NAME_UNITS,
};
use crate::status::{
    error_code, lemma_error_decodes, plain_failure, resolve, Completion, Failure,
    ACCESS_DENIED, BUFFER_TOO_SMALL, DEVICE_ERROR, NOT_FOUND, UNSUPPORTED, WARN_DELETE_FAILURE,
};

verus! {

/// Error kind: the volume has no room left.
pub const VOLUME_FULL: u64 = 11;

/// An open file node.
pub struct File {
    mode: FileMode,
    position: u64,
    info: FileInfo,
    entries: Vec<FileInfo>,
}

/// An open node as plain values.
pub struct FileView {
    pub mode: FileMode,
    pub position: u64,
    pub info: FileInfoView,
    pub entries: Seq<FileInfoView>,
}

impl FileView {
    /// Whether the node is a directory.
    pub open spec fn is_directory(self) -> bool {
        self.info.attribute.directory
    }

    /// The node with its cursor at `position`.
    pub open spec fn at(self, position: u64) -> FileView {
        FileView { position, ..self }
    }

    /// The node with `info` as its record.
    pub open spec fn with_info(self, info: FileInfoView) -> FileView {
        FileView { info, ..self }
    }
}

/// The place of the first record from `from` on that bears `name`, or the
/// number of records where none does.
pub open spec fn index_from(entries: Seq<FileInfoView>, name: Seq<u16>, from: int) -> int
    decreases entries.len() - from,
{
    if from < 0 || from >= entries.len() {
        entries.len() as int
    } else if entries[from].name == name {
        from
    } else {
        index_from(entries, name, from + 1)
    }
}

/// The node that opening a record yields: at its start, in the given mode,
/// with nothing known of what it holds.
pub open spec fn child_of(info: FileInfoView, mode: FileMode) -> FileView {
    FileView { mode, position: 0, info, entries: Seq::empty() }
}

/// The record of a node that has just been created.
pub open spec fn created_info(name: Seq<u16>, attribute: FileAttribute) -> FileInfoView {
    FileInfoView { size: 0, attribute, name }
}

/// What a read with `capacity` usable bytes does to a node and returns. A
/// directory yields the size of one record and moves to the next, returns 0
/// after the last, and asks for the record's size where the capacity is less.
/// A file yields as many bytes as remain, at most `capacity`, and fails where
/// the cursor lies beyond its end.
pub open spec fn read_spec(v: FileView, capacity: usize) -> (FileView, Result<Completion, Failure>) {
    if v.is_directory() {
        if v.position >= v.entries.len() {
            (v, Ok(Completion::Success(0)))
        } else if capacity < record_size(v.entries[v.position as int]) {
            (
                v,
                Err(
                    Failure {
                        kind: BUFFER_TOO_SMALL,
                        payload: Some(record_size(v.entries[v.position as int]) as usize),
                    },
                ),
            )
        } else {
            (
                v.at((v.position + 1) as u64),
                Ok(Completion::Success(record_size(v.entries[v.position as int]) as usize)),
            )
        }
    } else if v.position > v.info.size {
        (v, Err(plain_failure(DEVICE_ERROR)))
    } else if v.info.size - v.position <= capacity {
        (v.at(v.info.size), Ok(Completion::Success((v.info.size - v.position) as usize)))
    } else {
        (v.at((v.position + capacity) as u64), Ok(Completion::Success(capacity)))
    }
}

/// What a write of `len` bytes at the cursor does to a node and returns. A
/// directory takes no write, and neither does a node opened for reading only;
/// a write that would pass the largest offset finds the volume full. Else the
/// cursor moves by `len` and the file grows to hold it.
pub open spec fn write_spec(v: FileView, len: usize) -> (FileView, Result<Completion, Failure>) {
    if v.is_directory() {
        (v, Err(plain_failure(UNSUPPORTED)))
    } else if v.mode == FileMode::Read {
        (v, Err(plain_failure(ACCESS_DENIED)))
    } else if v.position + len > u64::MAX {
        (v, Err(plain_failure(VOLUME_FULL)))
    } else {
        (
            FileView {
                position: (v.position + len) as u64,
                info: FileInfoView {
                    size: if v.position + len > v.info.size {
                        (v.position + len) as u64
                    } else {
                        v.info.size
                    },
                    ..v.info
                },
                ..v
            },
            Ok(Completion::Success(len)),
        )
    }
}

/// What moving the cursor to `offset` does to a node and returns. A directory
/// only rewinds to 0. In a file the end-of-file offset stands for its size.
pub open spec fn set_position_spec(v: FileView, offset: u64) -> (FileView, Result<Completion, Failure>) {
    if v.is_directory() {
        if offset == 0 {
            (v.at(0), Ok(Completion::Success(0)))
        } else {
            (v, Err(plain_failure(UNSUPPORTED)))
        }
    } else if offset == END_OF_FILE {
        (v.at(v.info.size), Ok(Completion::Success(0)))
    } else {
        (v.at(offset), Ok(Completion::Success(0)))
    }
}

/// What replacing the record does to a node and returns: refused for a name
/// that is too long, on a node opened for reading only, and where it would
/// turn a file into a directory or back.
pub open spec fn set_info_spec(v: FileView, info: FileInfoView) -> (FileView, Result<Completion, Failure>) {
    if info.name.len() > MAX_NAME_UNITS {
        (v, Err(plain_failure(INVALID_PARAMETER)))
    } else if v.mode == FileMode::Read || info.attribute.directory != v.info.attribute.directory {
        (v, Err(plain_failure(ACCESS_DENIED)))
    } else {
        (v.with_info(info), Ok(Completion::Success(0)))
    }
}

/// What a flush returns: refused on a node opened for reading only.
pub open spec fn flush_spec(v: FileView) -> Result<Completion, Failure> {
    if v.mode == FileMode::Read {
        Err(plain_failure(ACCESS_DENIED))
    } else {
        Ok(Completion::Success(0))
    }
}

/// What deleting a node returns: the node is closed either way, and a warning
/// says that a node opened for reading only, or marked read-only, stays on
/// the medium.
pub open spec fn delete_spec(v: FileView) -> Result<Completion, Failure> {
    if v.mode == FileMode::Read || v.info.attribute.read_only {
        Ok(Completion::Warning(0, WARN_DELETE_FAILURE))
    } else {
        Ok(Completion::Success(0))
    }
}

/// What reading the record into `len` bytes at `addr` returns: the record
/// where the realigned window holds it, else the size that it takes.
pub open spec fn get_info_spec(v: FileView, addr: usize, len: usize) -> Result<
    FileInfoView,
    Failure,
> {
    if realign_spec(addr, len, FILE_INFO_ALIGN).len < record_size(v.info) {
        Err(Failure { kind: BUFFER_TOO_SMALL, payload: Some(record_size(v.info) as usize) })
    } else {
        Ok(v.info)
    }
}

/// Whether opening `name` in `mode` creates a record in the node.
pub open spec fn open_creates(v: FileView, name: Seq<char>, mode: FileMode) -> bool {
    &&& convertible(name)
    &&& v.is_directory()
    &&& index_from(v.entries, units_of(name), 0) == v.entries.len()
    &&& mode == FileMode::CreateReadWrite
    &&& v.mode != FileMode::Read
    &&& name.len() <= MAX_NAME_UNITS
}

/// The node after opening `name` in it: a created record is added at the end.
pub open spec fn open_leaves(
    v: FileView,
    name: Seq<char>,
    mode: FileMode,
    attribute: FileAttribute,
) -> FileView {
    if open_creates(v, name, mode) {
        FileView { entries: v.entries.push(created_info(units_of(name), attribute)), ..v }
    } else {
        v
    }
}

/// What opening `name` in a node returns: the node of the first record that
/// bears the name; a created one where none does and the mode asks for it;
/// else not-found, and invalid-parameter for a name that does not transcode.
pub open spec fn open_spec(
    v: FileView,
    name: Seq<char>,
    mode: FileMode,
    attribute: FileAttribute,
) -> Result<FileView, Failure> {
    if !convertible(name) {
        Err(plain_failure(INVALID_PARAMETER))
    } else if !v.is_directory() {
        Err(plain_failure(NOT_FOUND))
    } else if index_from(v.entries, units_of(name), 0) < v.entries.len() {
        Ok(child_of(v.entries[index_from(v.entries, units_of(name), 0)], mode))
    } else if mode != FileMode::CreateReadWrite {
        Err(plain_failure(NOT_FOUND))
    } else if v.mode == FileMode::Read {
        Err(plain_failure(ACCESS_DENIED))
    } else if name.len() > MAX_NAME_UNITS {
        Err(plain_failure(INVALID_PARAMETER))
    } else {
        Ok(child_of(created_info(units_of(name), attribute), mode))
    }
}

impl View for File {
    type V = FileView;

    closed spec fn view(&self) -> FileView {
        FileView {
            mode: self.mode,
            position: self.position,
            info: self.info@,
            entries: Seq::new(self.entries@.len(), |i: int| self.entries@[i]@),
        }
    }
}

impl File {
    /// Whether the node's records are well formed, a file has no entries, and
    /// a directory's cursor lies within its entries.
    pub closed spec fn well_formed(&self) -> bool {
        &&& self.info.well_formed()
        &&& forall|i: int| 0 <= i < self.entries@.len() ==> (#[trigger] self.entries@[i]).well_formed()
        &&& !self.info.attribute.directory ==> self.entries@.len() == 0
        &&& self.info.attribute.directory ==> self.position <= self.entries@.len()
    }

    /// A node with the given record, opened in `mode` at its start, with no
    /// entries.
    pub fn new(info: FileInfo, mode: FileMode) -> (r: File)
        requires
            info.well_formed(),
        ensures
            r.well_formed(),
            r@ == child_of(info@, mode),
    {
        let r = File { mode, position: 0, info, entries: Vec::new() };
        proof {
            assert(r@.entries =~= Seq::empty());
        }
        r
    }

    /// Adds a record at the end of a directory's entries. A file, and a record
    /// with too long a name, are refused and nothing changes.
    pub fn add_entry(&mut self, entry: FileInfo) -> (added: bool)
        requires
            old(self).well_formed(),
        ensures
            final(self).well_formed(),
            added == (old(self)@.is_directory() && entry.well_formed()),
            added ==> final(self)@ == (FileView {
                entries: old(self)@.entries.push(entry@),
                ..old(self)@
            }),
            !added ==> final(self)@ == old(self)@,
    {
        if !self.info.attribute.directory || entry.name.len() > MAX_NAME_UNITS {
            return false;
        }
        self.entries.push(entry);
        proof {
            assert(self@.entries =~= old(self)@.entries.push(entry@));
        }
        true
    }

    /// Whether the node is a directory.
    pub fn is_directory(&self) -> (r: bool)
        ensures
            r == self@.is_directory(),
    {
        self.info.attribute.directory
    }

    /// The cursor.
    pub fn position(&self) -> (r: u64)
        ensures
            r == self@.position,
    {
        self.position
    }

    /// The node's primitive read: the raw code and the size that it reports.
    fn raw_read(&mut self, capacity: usize) -> (reply: (u64, usize))
        requires
            old(self).well_formed(),
        ensures
            final(self).well_formed(),
            (final(self)@, crate::status::resolve_spec(reply.0, reply.1)) == read_spec(
                old(self)@,
                capacity,
            ),
    {
        if self.info.attribute.directory {
            if self.position >= self.entries.len() as u64 {
                return (0, 0);
            }
            let need: usize = self.entries[self.position as usize].required_size();
            if capacity < need {
                proof {
                    lemma_error_decodes(BUFFER_TOO_SMALL, need);
                }
                return (error_code(BUFFER_TOO_SMALL), need);
            }
            self.position = self.position + 1;
            (0, need)
        } else if self.position > self.info.size {
            proof {
                lemma_error_decodes(DEVICE_ERROR, 0);
            }
            (error_code(DEVICE_ERROR), 0)
        } else {
            let remaining: u64 = self.info.size - self.position;
            if remaining <= capacity as u64 {
                self.position = self.info.size;
                (0, remaining as usize)
            } else {
                self.position = self.position + capacity as u64;
                (0, capacity)
            }
        }
    }

    /// Reads at the cursor into `capacity` usable bytes and returns the bytes
    /// that the read took. 0 means end of file, or no more entries.
    pub fn read(&mut self, capacity: usize) -> (r: Result<Completion, Failure>)
        requires
            old(self).well_formed(),
        ensures
            final(self).well_formed(),
            (final(self)@, r) == read_spec(old(self)@, capacity),
    {
        let reply = self.raw_read(capacity);
        resolve(reply.0, reply.1)
    }

    /// Whether the node is a directory with an entry at its cursor.
    pub fn has_entry(&self) -> (r: bool)
        requires
            self.well_formed(),
        ensures
            r == (self@.is_directory() && self@.position < self@.entries.len()),
    {
        proof {
            assert(self@.entries.len() == self.entries@.len());
        }
        self.info.attribute.directory && self.position < self.entries.len() as u64
    }

    /// Writes `len` bytes at the cursor and returns the bytes written.
    pub fn write(&mut self, len: usize) -> (r: Result<Completion, Failure>)
        requires
            old(self).well_formed(),
        ensures
            final(self).well_formed(),
            (final(self)@, r) == write_spec(old(self)@, len),
    {
        let read_only = match self.mode {
            FileMode::Read => true,
            _ => false,
        };
        let code: u64 = if self.info.attribute.directory {
            proof {
                lemma_error_decodes(UNSUPPORTED, len);
            }
            error_code(UNSUPPORTED)
        } else if read_only {
            proof {
                lemma_error_decodes(ACCESS_DENIED, len);
            }
            error_code(ACCESS_DENIED)
        } else if len as u64 > u64::MAX - self.position {
            proof {
                lemma_error_decodes(VOLUME_FULL, len);
            }
            error_code(VOLUME_FULL)
        } else {
            self.position = self.position + len as u64;
            if self.position > self.info.size {
                self.info.size = self.position;
            }
            0
        };
        resolve(code, len)
    }

    /// The record at the cursor of a directory that has entries left.
    pub fn peek_entry(&self) -> (r: FileInfo)
        requires
            self.well_formed(),
            self@.is_directory(),
            self@.position < self@.entries.len(),
        ensures
            r@ == self@.entries[self@.position as int],
            r.well_formed(),
    {
        let count: usize = self.entries.len();
        proof {
            assert(self@.entries.len() == count);
            assert(self@.entries[self.position as int] == self.entries@[self.position as int]@);
        }
        self.entries[self.position as usize].duplicate()
    }

    /// Moves the cursor. In a directory only 0 is accepted, which starts the
    /// enumeration over.
    pub fn set_position(&mut self, offset: u64) -> (r: Result<Completion, Failure>)
        requires
            old(self).well_formed(),
        ensures
            final(self).well_formed(),
            (final(self)@, r) == set_position_spec(old(self)@, offset),
    {
        let code: u64 = if self.info.attribute.directory {
            if offset == 0 {
                self.position = 0;
                0
            } else {
                proof {
                    lemma_error_decodes(UNSUPPORTED, 0);
                }
                error_code(UNSUPPORTED)
            }
        } else {
            self.position = if offset == END_OF_FILE {
                self.info.size
            } else {
                offset
            };
            0
        };
        resolve(code, 0)
    }

    /// Reads the node's record into a buffer of `len` bytes at `addr`, whose
    /// start is shifted forward to the record's alignment first.
    pub fn get_info(&mut self, addr: usize, len: usize) -> (r: Result<FileInfo, Failure>)
        requires
            old(self).well_formed(),
        ensures
            final(self).well_formed(),
            final(self)@ == old(self)@,
            match get_info_spec(old(self)@, addr, len) {
                Ok(info) => r matches Ok(got) && got@ == info && got.well_formed(),
                Err(f) => r matches Err(e) && e == f,
            },
    {
        let span = realign_storage(addr, len, FILE_INFO_ALIGN);
        let need: usize = self.info.required_size();
        if span.len < need {
            Err(Failure { kind: BUFFER_TOO_SMALL, payload: Some(need) })
        } else {
            Ok(self.info.duplicate())
        }
    }

    /// Replaces the node's record.
    pub fn set_info(&mut self, info: &FileInfo) -> (r: Result<Completion, Failure>)
        requires
            old(self).well_formed(),
        ensures
            final(self).well_formed(),
            (final(self)@, r) == set_info_spec(old(self)@, info@),
    {
        let read_only = match self.mode {
            FileMode::Read => true,
            _ => false,
        };
        let code: u64 = if info.name.len() > MAX_NAME_UNITS {
            proof {
                lemma_error_decodes(INVALID_PARAMETER, 0);
            }
            error_code(INVALID_PARAMETER)
        } else if read_only || info.attribute.directory != self.info.attribute.directory {
            proof {
                lemma_error_decodes(ACCESS_DENIED, 0);
            }
            error_code(ACCESS_DENIED)
        } else {
            self.info = info.duplicate();
            0
        };
        resolve(code, 0)
    }

    /// Flushes what was modified to the device.
    pub fn flush(&mut self) -> (r: Result<Completion, Failure>)
        requires
            old(self).well_formed(),
        ensures
            final(self).well_formed(),
            final(self)@ == old(self)@,
            r == flush_spec(old(self)@),
    {
        let code: u64 = match self.mode {
            FileMode::Read => {
                proof {
                    lemma_error_decodes(ACCESS_DENIED, 0);
                }
                error_code(ACCESS_DENIED)
            },
            _ => 0,
        };
        resolve(code, 0)
    }

    /// Closes the node and asks for its removal from the medium.
    pub fn delete(self) -> (r: Result<Completion, Failure>)
        requires
            self.well_formed(),
        ensures
            r == delete_spec(self@),
    {
        let kept = match self.mode {
            FileMode::Read => true,
            _ => self.info.attribute.read_only,
        };
        let code: u64 = if kept {
            WARN_DELETE_FAILURE
        } else {
            0
        };
        resolve(code, 0)
    }

    /// Closes the node.
    pub fn close(self) {
    }

    /// The place of the first entry that bears `name`, or the number of
    /// entries where none does.
    fn find(&self, name: &Vec<u16>) -> (at: usize)
        ensures
            at == index_from(self@.entries, name@, 0),
            at <= self.entries@.len(),
    {
        let mut i: usize = 0;
        while i < self.entries.len()
            invariant
                i <= self.entries@.len(),
                index_from(self@.entries, name@, 0) == index_from(self@.entries, name@, i as int),
            decreases self.entries@.len() - i,
        {
            if units_equal(&self.entries[i].name, name) {
                return i;
            }
            i += 1;
        }
        i
    }

    /// Opens the node that `filename` names relative to this one.
    pub fn open(&mut self, filename: &str, open_mode: FileMode, attributes: FileAttribute) -> (r:
        Result<File, Failure>)
        requires
            old(self).well_formed(),
        ensures
            final(self).well_formed(),
            final(self)@ == open_leaves(old(self)@, filename@, open_mode, attributes),
            match open_spec(old(self)@, filename@, open_mode, attributes) {
                Ok(node) => r matches Ok(got) && got@ == node && got.well_formed(),
                Err(f) => r matches Err(e) && e == f,
            },
    {
        let units = match encode_name(filename) {
            Some(units) => units,
            None => {
                return Err(plain(INVALID_PARAMETER));
            },
        };
        if !self.info.attribute.directory {
            return Err(plain(NOT_FOUND));
        }
        let at: usize = self.find(&units);
        if at < self.entries.len() {
            return Ok(File::new(self.entries[at].duplicate(), open_mode));
        }
        let creating = match open_mode {
            FileMode::CreateReadWrite => true,
            _ => false,
        };
        if !creating {
            return Err(plain(NOT_FOUND));
        }
        let parent_read_only = match self.mode {
            FileMode::Read => true,
            _ => false,
        };
        if parent_read_only {
            return Err(plain(ACCESS_DENIED));
        }
        if units.len() > MAX_NAME_UNITS {
            return Err(plain(INVALID_PARAMETER));
        }
        let record = FileInfo { size: 0, attribute: attributes, name: units };
        let child = File::new(record.duplicate(), open_mode);
        self.entries.push(record);
        proof {
            assert(self@.entries =~= old(self)@.entries.push(
                created_info(units_of(filename@), attributes),
            ));
        }
        Ok(child)
    }
}

/// The failure of the given kind, with no payload.
pub fn plain(kind: u64) -> (r: Failure)
    ensures
        r == plain_failure(kind),
{
    Failure { kind, payload: None }
}

} // verus!
