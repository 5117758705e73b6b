//! The error type every store operation reports.

use vstd::prelude::*;

verus! {

/// The kind of a storage-layer failure, distinguishable by callers.
#[derive(Clone, Copy, Debug, PartialEq, Eq, Structural)]
pub enum ErrorKind {
    /// The underlying database file cannot be opened or used.
    Storage,
    /// An insert collided with the unique-name constraint.
    Conflict,
    /// The addressed row (or the config row) does not exist.
    NotFound,
    /// Text handed to the store could not be decoded as nested data.
    Serialization,
}

/// View of [`DBError`].
pub struct DBErrorV {
    pub kind: ErrorKind,
    pub message: Seq<char>,
}

/// An error reported by the store: `kind` says which failure occurred and
/// is what callers branch on; `message` carries detail for display.
#[derive(Debug)]
pub struct DBError {
    kind: ErrorKind,
    message: String,
}

impl View for DBError {
    type V = DBErrorV;

    closed spec fn view(&self) -> DBErrorV {
        DBErrorV { kind: self.kind, message: self.message@ }
    }
}

impl DBError {
    pub fn new(kind: ErrorKind, message: String) -> (r: DBError)
        ensures
            r@.kind == kind,
            r@.message == message@,
    {
        DBError { kind, message }
    }

    pub fn kind(&self) -> (k: ErrorKind)
        ensures
            k == self@.kind,
    {
        self.kind
    }

    pub fn message(&self) -> (m: &String)
        ensures
            m@ == self@.message,
    {
        &self.message
    }
}

} // verus!
