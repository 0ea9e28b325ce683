//! The directory view of a file node: one entry record per read, and a reset
//! that starts the enumeration over.

use vstd::prelude::*;
use crate::file::{
    realign_spec, realign_storage, record_size, FileAttribute, FileInfo, FileInfoView, FileMode,
    FILE_INFO_ALIGN,
};
use crate::node::{
    delete_spec, flush_spec, get_info_spec, open_leaves, open_spec, read_spec, set_info_spec,
    set_position_spec, File, FileView,
};
use crate::status::{Completion, Failure, BUFFER_TOO_SMALL};

verus! {

/// File wrapper for handling directories.
pub struct Directory(File);

/// What reading the next entry into `len` bytes at `addr` returns: nothing
/// after the last entry, the entry where the realigned window holds it, else
/// the size that the entry takes.
pub open spec fn read_entry_spec(v: FileView, addr: usize, len: usize) -> Result<
    Option<FileInfoView>,
    Failure,
> {
    if v.position >= v.entries.len() {
        Ok(None)
    } else if realign_spec(addr, len, FILE_INFO_ALIGN).len < record_size(
        v.entries[v.position as int],
    ) {
        Err(
            Failure {
                kind: BUFFER_TOO_SMALL,
                payload: Some(record_size(v.entries[v.position as int]) as usize),
            },
        )
    } else {
        Ok(Some(v.entries[v.position as int]))
    }
}

/// The directory after reading the next entry: one entry further where the
/// read returned an entry, else unchanged.
pub open spec fn read_entry_leaves(v: FileView, addr: usize, len: usize) -> FileView {
    match read_entry_spec(v, addr, len) {
        Ok(Some(_)) => v.at((v.position + 1) as u64),
        _ => v,
    }
}

/// The entries that reads with room for every record return from the cursor
/// on, until a read returns nothing.
pub open spec fn enumeration(v: FileView) -> Seq<FileInfoView>
    decreases v.entries.len() - v.position,
{
    if v.position >= v.entries.len() || v.position == u64::MAX {
        Seq::empty()
    } else {
        seq![v.entries[v.position as int]] + enumeration(v.at((v.position + 1) as u64))
    }
}

impl View for Directory {
    type V = FileView;

    closed spec fn view(&self) -> FileView {
        self.0@
    }
}

impl Directory {
    /// Whether the wrapped node is well formed and a directory.
    pub closed spec fn well_formed(&self) -> bool {
        self.0.well_formed() && self.0@.is_directory()
    }

    /// Wraps a node that the caller knows to be a directory.
    pub fn from_file(file: File) -> (r: Directory)
        requires
            file.well_formed(),
            file@.is_directory(),
        ensures
            r.well_formed(),
            r@ == file@,
    {
        Directory(file)
    }

    /// Wraps a node after checking that its record marks it as a directory,
    /// and hands a node that is none back.
    pub fn try_from_file(file: File) -> (r: Result<Directory, File>)
        requires
            file.well_formed(),
        ensures
            file@.is_directory() ==> (r matches Ok(dir) && dir.well_formed() && dir@ == file@),
            !file@.is_directory() ==> (r matches Err(back) && back == file),
    {
        if file.is_directory() {
            Ok(Directory(file))
        } else {
            Err(file)
        }
    }

    /// Opens a node relative to this directory.
    pub fn open(&mut self, filename: &str, open_mode: FileMode, attributes: FileAttribute) -> (r:
        Result<File, Failure>)
        requires
            old(self).well_formed(),
        ensures
            final(self).well_formed(),
            final(self)@ == open_leaves(old(self)@, filename@, open_mode, attributes),
            match open_spec(old(self)@, filename@, open_mode, attributes) {
                Ok(node) => r matches Ok(got) && got@ == node && got.well_formed(),
                Err(f) => r matches Err(e) && e == f,
            },
    {
        self.0.open(filename, open_mode, attributes)
    }

    /// Closes this directory.
    pub fn close(self) {
    }

    /// Closes and deletes this directory.
    pub fn delete(self) -> (r: Result<Completion, Failure>)
        requires
            self.well_formed(),
        ensures
            r == delete_spec(self@),
    {
        self.0.delete()
    }

    /// Reads the next entry into a buffer of `len` bytes at `addr`. The start
    /// of the buffer is shifted forward to the record's alignment first. Each
    /// call yields one entry, or nothing after the last; a window that is too
    /// small leaves the cursor where it is and reports the size to retry with.
    pub fn read_entry(&mut self, addr: usize, len: usize) -> (r: Result<Option<FileInfo>, Failure>)
        requires
            old(self).well_formed(),
        ensures
            final(self).well_formed(),
            final(self)@ == read_entry_leaves(old(self)@, addr, len),
            match read_entry_spec(old(self)@, addr, len) {
                Ok(Some(entry)) => r matches Ok(Some(got)) && got@ == entry && got.well_formed(),
                Ok(None) => r matches Ok(None),
                Err(f) => r matches Err(e) && e == f,
            },
    {
        let span = realign_storage(addr, len, FILE_INFO_ALIGN);
        let entry = if self.0.has_entry() {
            Some(self.0.peek_entry())
        } else {
            None
        };
        match self.0.read(span.len) {
            Ok(done) => {
                if done.value() != 0 {
                    Ok(entry)
                } else {
                    Ok(None)
                }
            },
            Err(f) => Err(f),
        }
    }

    /// Starts the enumeration of entries over.
    pub fn reset_entry_readout(&mut self) -> (r: Result<Completion, Failure>)
        requires
            old(self).well_formed(),
        ensures
            final(self).well_formed(),
            final(self)@ == old(self)@.at(0),
            r == Ok::<Completion, Failure>(Completion::Success(0)),
    {
        self.0.set_position(0)
    }

    /// Reads the directory's own record.
    pub fn get_info(&mut self, addr: usize, len: usize) -> (r: Result<FileInfo, Failure>)
        requires
            old(self).well_formed(),
        ensures
            final(self).well_formed(),
            final(self)@ == old(self)@,
            match get_info_spec(old(self)@, addr, len) {
                Ok(info) => r matches Ok(got) && got@ == info && got.well_formed(),
                Err(f) => r matches Err(e) && e == f,
            },
    {
        self.0.get_info(addr, len)
    }

    /// Replaces the directory's own record.
    pub fn set_info(&mut self, info: &FileInfo) -> (r: Result<Completion, Failure>)
        requires
            old(self).well_formed(),
        ensures
            final(self).well_formed(),
            (final(self)@, r) == set_info_spec(old(self)@, info@),
    {
        self.0.set_info(info)
    }

    /// Flushes what was modified in the directory to the device.
    pub fn flush(&mut self) -> (r: Result<Completion, Failure>)
        requires
            old(self).well_formed(),
        ensures
            final(self).well_formed(),
            final(self)@ == old(self)@,
            r == flush_spec(old(self)@),
    {
        self.0.flush()
    }
}

/// The enumeration from the cursor on is the rest of the entries.
pub proof fn lemma_enumeration(v: FileView)
    requires
        v.position <= v.entries.len(),
        v.entries.len() <= u64::MAX,
    ensures
        enumeration(v) == v.entries.skip(v.position as int),
    decreases v.entries.len() - v.position,
{
    if v.position < v.entries.len() {
        lemma_enumeration(v.at((v.position + 1) as u64));
        assert(seq![v.entries[v.position as int]] + v.entries.skip(v.position + 1)
            =~= v.entries.skip(v.position as int));
    } else {
        assert(v.entries.skip(v.position as int) =~= Seq::empty());
    }
}

/// After the last entry a read returns nothing, which is no error, and leaves
/// the directory as it is; and after a reset the enumeration is that of the
/// whole directory again, wherever the cursor stood.
pub proof fn lemma_enumeration_restarts(v: FileView, addr: usize, len: usize)
    requires
        v.position <= v.entries.len(),
        v.entries.len() <= u64::MAX,
    ensures
        v.position == v.entries.len() ==> read_entry_spec(v, addr, len) == Ok::<
            Option<FileInfoView>,
            Failure,
        >(None) && read_entry_leaves(v, addr, len) == v,
        enumeration(v.at(0)) == v.entries,
        enumeration(v.at(0)) == enumeration(v.at(v.entries.len() as u64).at(0)),
{
    lemma_enumeration(v.at(0));
    assert(v.entries.skip(0) =~= v.entries);
    assert(v.at(v.entries.len() as u64).at(0) == v.at(0));
}

/// Where a read reports that the buffer is too small, the size it reports is
/// that of the entry at the cursor, and a read into an aligned buffer of
/// exactly that size returns that entry.
pub proof fn lemma_retry_with_reported_size(v: FileView, addr: usize, len: usize, retry: usize)
    requires
        read_entry_spec(v, addr, len) is Err,
        retry % FILE_INFO_ALIGN == 0,
        v.entries[v.position as int].name.len() <= crate::file::MAX_NAME_UNITS,
    ensures
        read_entry_spec(v, addr, len) == Err::<Option<FileInfoView>, Failure>(
            Failure {
                kind: BUFFER_TOO_SMALL,
                payload: Some(record_size(v.entries[v.position as int]) as usize),
            },
        ),
        read_entry_leaves(v, addr, len) == v,
        read_entry_spec(v, retry, record_size(v.entries[v.position as int]) as usize) == Ok::<
            Option<FileInfoView>,
            Failure,
        >(Some(v.entries[v.position as int])),
{
    crate::file::lemma_padding(retry, FILE_INFO_ALIGN);
}

} // verus!
