//! Raw firmware status codes and their typed classification.

use vstd::prelude::*;

verus! {

/// The bit that marks a raw code as an error.
pub const ERROR_BIT: u64 = 0x8000_0000_0000_0000;

/// Error kind: the operation is not supported.
pub const UNSUPPORTED: u64 = 3;

/// Error kind: the buffer cannot hold the result.
pub const BUFFER_TOO_SMALL: u64 = 5;

/// Error kind: the device reported an error.
pub const DEVICE_ERROR: u64 = 7;

/// Error kind: the medium is write-protected.
pub const WRITE_PROTECTED: u64 = 8;

/// Error kind: the file system structures are corrupted.
pub const VOLUME_CORRUPTED: u64 = 10;

/// Error kind: the device holds no medium.
pub const NO_MEDIA: u64 = 12;

/// Error kind: the medium changed since the last access.
pub const MEDIA_CHANGED: u64 = 13;

/// Error kind: the item was not found.
pub const NOT_FOUND: u64 = 14;

/// Error kind: access was denied.
pub const ACCESS_DENIED: u64 = 15;

/// Error kind: the operation was aborted.
pub const ABORTED: u64 = 21;

/// Warning kind: the node was closed but could not be deleted.
pub const WARN_DELETE_FAILURE: u64 = 2;

/// A raw code sorted into success, warning or error.
#[derive(Clone, Copy, Debug, PartialEq, Eq, Structural)]
pub enum Status {
    Success,
    Warning(u64),
    Error(u64),
}

/// What a call hands back when it did not fail: the quantity, and the warning
/// that came with it, if any.
#[derive(Clone, Copy, Debug, PartialEq, Eq, Structural)]
pub enum Completion {
    Success(usize),
    Warning(usize, u64),
}

/// A failed call: its error kind, and the auxiliary payload where the call's
/// contract defines one.
#[derive(Clone, Copy, Debug, PartialEq, Eq, Structural)]
pub struct Failure {
    pub kind: u64,
    pub payload: Option<usize>,
}

/// The class of a raw code: zero is success, a code with the error bit is an
/// error of the kind in the remaining bits, any other code is a warning.
pub open spec fn classify_spec(code: u64) -> Status {
    if code == 0 {
        Status::Success
    } else if code >= ERROR_BIT {
        Status::Error((code - ERROR_BIT) as u64)
    } else {
        Status::Warning(code)
    }
}

/// The raw code of an error kind.
pub open spec fn error_code_spec(kind: u64) -> u64
    recommends
        kind < ERROR_BIT,
{
    (ERROR_BIT + kind) as u64
}

/// The typed outcome of a call that produced `quantity` under `code`.
pub open spec fn resolve_spec(code: u64, quantity: usize) -> Result<Completion, Failure> {
    match classify_spec(code) {
        Status::Success => Ok(Completion::Success(quantity)),
        Status::Warning(kind) => Ok(Completion::Warning(quantity, kind)),
        Status::Error(kind) => Err(
            Failure { kind, payload: if kind == BUFFER_TOO_SMALL { Some(quantity) } else { None } },
        ),
    }
}

/// Sorts a raw code into success, warning or error.
pub fn classify(code: u64) -> (r: Status)
    ensures
        r == classify_spec(code),
{
    if code == 0 {
        Status::Success
    } else if code >= ERROR_BIT {
        Status::Error(code - ERROR_BIT)
    } else {
        Status::Warning(code)
    }
}

/// The raw code that stands for an error of the given kind.
pub fn error_code(kind: u64) -> (r: u64)
    requires
        kind < ERROR_BIT,
    ensures
        r == error_code_spec(kind),
        classify_spec(r) == Status::Error(kind),
{
    ERROR_BIT + kind
}

/// Joins a quantity and the raw code it came with. Success keeps the quantity,
/// a warning keeps the quantity and the warning kind, an error drops the
/// quantity unless the kind is buffer-too-small, whose payload is the size
/// that the call asked for.
pub fn resolve(code: u64, quantity: usize) -> (r: Result<Completion, Failure>)
    ensures
        r == resolve_spec(code, quantity),
{
    match classify(code) {
        Status::Success => Ok(Completion::Success(quantity)),
        Status::Warning(kind) => Ok(Completion::Warning(quantity, kind)),
        Status::Error(kind) => {
            if kind == BUFFER_TOO_SMALL {
                Err(Failure { kind, payload: Some(quantity) })
            } else {
                Err(Failure { kind, payload: None })
            }
        },
    }
}

/// The failure of the given kind that carries no payload.
pub open spec fn plain_failure(kind: u64) -> Failure {
    Failure { kind, payload: None }
}

/// An error code made from a kind resolves to the failure of that kind, with
/// the quantity as payload exactly for buffer-too-small.
pub proof fn lemma_error_decodes(kind: u64, quantity: usize)
    requires
        kind < ERROR_BIT,
    ensures
        resolve_spec(error_code_spec(kind), quantity) == Err::<Completion, Failure>(
            Failure { kind, payload: if kind == BUFFER_TOO_SMALL { Some(quantity) } else { None } },
        ),
{
}

impl Completion {
    /// The quantity, whether or not a warning came with it.
    pub fn value(&self) -> (r: usize)
        ensures
            r == match *self {
                Completion::Success(v) => v,
                Completion::Warning(v, _) => v,
            },
    {
        match *self {
            Completion::Success(v) => v,
            Completion::Warning(v, _) => v,
        }
    }
}

} // verus!
