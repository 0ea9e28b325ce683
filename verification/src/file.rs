//! File nodes: metadata records, buffer realignment and the typed operations
//! over the node's raw read, position, info, flush and delete primitives.

use vstd::prelude::*;
use vstd::arithmetic::div_mod::{lemma_fundamental_div_mod, lemma_mod_multiples_basic};
use crate::chars::{representable, unit_of, Char16};
use crate::console::convertible;

verus! {

/// Error kind: an argument is not acceptable.
pub const INVALID_PARAMETER: u64 = 2;

/// Bytes of a metadata record before its name.
pub const FILE_INFO_HEADER: usize = 80;

/// Alignment that the start of a metadata record must have.
pub const FILE_INFO_ALIGN: usize = 8;

/// Most code units that a name holds, its terminator left out.
pub const MAX_NAME_UNITS: usize = 0xffff;

/// The offset that stands for the end of a file.
pub const END_OF_FILE: u64 = 0xffff_ffff_ffff_ffff;

/// How a node is opened.
#[derive(Clone, Copy, Debug, PartialEq, Eq, Structural)]
pub enum FileMode {
    Read,
    ReadWrite,
    CreateReadWrite,
}

/// The attribute bits of a node.
#[derive(Clone, Copy, Debug, PartialEq, Eq, Structural)]
pub struct FileAttribute {
    pub read_only: bool,
    pub hidden: bool,
    pub system: bool,
    pub directory: bool,
    pub archive: bool,
}

/// The metadata record of a node: a fixed header and the node's name.
#[derive(Debug)]
pub struct FileInfo {
    pub size: u64,
    pub attribute: FileAttribute,
    pub name: Vec<u16>,
}

/// A metadata record as plain values.
pub struct FileInfoView {
    pub size: u64,
    pub attribute: FileAttribute,
    pub name: Seq<u16>,
}

impl View for FileInfo {
    type V = FileInfoView;

    open spec fn view(&self) -> FileInfoView {
        FileInfoView { size: self.size, attribute: self.attribute, name: self.name@ }
    }
}

/// The bytes that a record takes: its header, its name and the terminator.
pub open spec fn record_size(info: FileInfoView) -> nat {
    (FILE_INFO_HEADER + 2 * (info.name.len() + 1)) as nat
}

/// A copy of a run of code units.
pub fn copy_units(units: &Vec<u16>) -> (r: Vec<u16>)
    ensures
        r@ == units@,
{
    let mut r: Vec<u16> = Vec::new();
    let mut i: usize = 0;
    while i < units.len()
        invariant
            i <= units@.len(),
            r@ == units@.take(i as int),
        decreases units@.len() - i,
    {
        r.push(units[i]);
        proof {
            assert(units@.take(i + 1) =~= units@.take(i as int).push(units@[i as int]));
        }
        i += 1;
    }
    proof {
        assert(units@.take(i as int) =~= units@);
    }
    r
}

/// Whether two runs of code units are the same.
pub fn units_equal(a: &Vec<u16>, b: &Vec<u16>) -> (r: bool)
    ensures
        r == (a@ == b@),
{
    if a.len() != b.len() {
        return false;
    }
    let mut i: usize = 0;
    while i < a.len()
        invariant
            a@.len() == b@.len(),
            i <= a@.len(),
            a@.take(i as int) == b@.take(i as int),
        decreases a@.len() - i,
    {
        if a[i] != b[i] {
            return false;
        }
        proof {
            assert(a@.take(i + 1) =~= a@.take(i as int).push(a@[i as int]));
            assert(b@.take(i + 1) =~= b@.take(i as int).push(b@[i as int]));
        }
        i += 1;
    }
    proof {
        assert(a@.take(i as int) =~= a@);
        assert(b@.take(i as int) =~= b@);
    }
    true
}

/// The code units of a text whose code points all fit one unit.
pub open spec fn units_of(s: Seq<char>) -> Seq<u16> {
    Seq::new(s.len(), |i: int| unit_of(s[i]))
}

/// Transcodes a name into code units, or fails where a code point does not fit.
pub fn encode_name(s: &str) -> (r: Option<Vec<u16>>)
    ensures
        convertible(s@) ==> (r matches Some(units) && units@ == units_of(s@)),
        !convertible(s@) ==> r is None,
{
    let n: usize = s.unicode_len();
    let mut units: Vec<u16> = Vec::new();
    let mut i: usize = 0;
    while i < n
        invariant
            n == s@.len(),
            i <= n,
            forall|j: int| 0 <= j < i ==> representable(#[trigger] s@[j]),
            units@ == units_of(s@.take(i as int)),
        decreases n - i,
    {
        match Char16::try_from(s.get_char(i)) {
            Ok(ch) => {
                units.push(ch.code());
            },
            Err(_) => {
                return None;
            },
        }
        proof {
            assert(units@ =~= units_of(s@.take(i + 1)));
        }
        i += 1;
    }
    proof {
        assert(s@.take(i as int) =~= s@);
    }
    Some(units)
}

impl FileInfo {
    /// Whether the name is short enough for the record's size to be counted.
    pub open spec fn well_formed(&self) -> bool {
        self.name@.len() <= MAX_NAME_UNITS
    }

    /// A record with the given size, attributes and name, where the name is
    /// not longer than `MAX_NAME_UNITS`.
    pub fn new(size: u64, attribute: FileAttribute, name: Vec<u16>) -> (r: Option<FileInfo>)
        ensures
            name@.len() <= MAX_NAME_UNITS ==> (r matches Some(info) && info.well_formed() && info@
                == (FileInfoView { size, attribute, name: name@ })),
            name@.len() > MAX_NAME_UNITS ==> r is None,
    {
        if name.len() <= MAX_NAME_UNITS {
            Some(FileInfo { size, attribute, name })
        } else {
            None
        }
    }

    /// The bytes that this record takes in a buffer.
    pub fn required_size(&self) -> (r: usize)
        requires
            self.well_formed(),
        ensures
            r == record_size(self@),
    {
        FILE_INFO_HEADER + 2 * (self.name.len() + 1)
    }

    /// A copy of this record.
    pub fn duplicate(&self) -> (r: FileInfo)
        ensures
            r@ == self@,
            r.well_formed() == self.well_formed(),
    {
        FileInfo { size: self.size, attribute: self.attribute, name: copy_units(&self.name) }
    }

    /// Whether the record describes a directory.
    pub fn is_directory(&self) -> (r: bool)
        ensures
            r == self@.attribute.directory,
    {
        self.attribute.directory
    }
}

/// The window of a buffer that a record may use.
#[derive(Clone, Copy, Debug, PartialEq, Eq, Structural)]
pub struct Span {
    /// Bytes skipped at the start of the buffer.
    pub offset: usize,
    /// Bytes of the buffer that can be used from there.
    pub len: usize,
}

/// The bytes to skip so that an address becomes a multiple of `align`.
pub open spec fn padding(addr: usize, align: usize) -> int
    recommends
        align > 0,
{
    (align - addr % align) % (align as int)
}

/// The usable window of a buffer of `len` bytes at `addr` for a record that
/// needs `align`: the buffer without its padding, or nothing where the
/// padding is longer than the buffer.
pub open spec fn realign_spec(addr: usize, len: usize, align: usize) -> Span
    recommends
        align > 0,
{
    if padding(addr, align) <= len {
        Span { offset: padding(addr, align) as usize, len: (len - padding(addr, align)) as usize }
    } else {
        Span { offset: len, len: 0 }
    }
}

/// Shifts the start of a buffer forward to the next multiple of `align`. The
/// window lies inside the buffer, starts aligned, and is shorter than the
/// buffer by the padding, which is less than `align`.
pub fn realign_storage(addr: usize, len: usize, align: usize) -> (span: Span)
    requires
        align > 0,
    ensures
        span == realign_spec(addr, len, align),
        span.offset + span.len <= len,
        0 <= padding(addr, align) < align,
        padding(addr, align) <= len ==> span.len == len - padding(addr, align) && (addr
            + span.offset) % (align as int) == 0,
        addr % align == 0 ==> span == (Span { offset: 0, len }),
{
    let misaligned: usize = addr % align;
    let skip: usize = if misaligned == 0 {
        0
    } else {
        align - misaligned
    };
    proof {
        lemma_padding(addr, align);
        if misaligned != 0 {
            vstd::arithmetic::div_mod::lemma_small_mod((align - misaligned) as nat, align as nat);
        }
    }
    if skip <= len {
        Span { offset: skip, len: len - skip }
    } else {
        Span { offset: len, len: 0 }
    }
}

/// The padding is less than the alignment, is zero for an aligned address, and
/// brings the address to a multiple of the alignment.
pub proof fn lemma_padding(addr: usize, align: usize)
    requires
        align > 0,
    ensures
        0 <= padding(addr, align) < align,
        addr % align == 0 ==> padding(addr, align) == 0,
        addr % align != 0 ==> padding(addr, align) == align - addr % align,
        (addr + padding(addr, align)) % (align as int) == 0,
{
    let a = addr as int;
    let m = align as int;
    let k = a % m;
    lemma_fundamental_div_mod(a, m);
    if k == 0 {
        assert((m - k) % m == 0) by {
            lemma_mod_multiples_basic(1, m);
        }
    } else {
        vstd::arithmetic::div_mod::lemma_small_mod((m - k) as nat, m as nat);
        assert(a + (m - k) == (a / m + 1) * m) by (nonlinear_arith)
            requires
                a == m * (a / m) + k,
        ;
        lemma_mod_multiples_basic(a / m + 1, m);
    }
}

} // verus!
