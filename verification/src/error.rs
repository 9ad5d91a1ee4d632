//! The error taxonomy shared by every planning and rewriting step.

use vstd::prelude::*;

verus! {

/// The kinds of failure, without their details.
#[derive(Debug, Clone, Copy, PartialEq, Eq, Structural)]
pub enum ErrorKind {
    /// An argument is malformed; raised before any file is touched.
    Argument,
    /// A path does not lie where the plan needs it.
    PathResolution,
    /// Two inputs would be written to the same output path.
    DuplicateOutput,
    /// A schema does not allow the requested edit or merge.
    Schema,
    /// The disk could not be read or written: a path is missing or
    /// unreadable, or writing or renaming a file failed.
    IO,
    /// A permit could not be acquired from the coordinator.
    Concurrency,
}

/// Why an operation was refused or failed.
///
/// Each variant carries the datum the failure is about (a path, a column
/// name, an offending argument) rather than a rendered sentence, so that
/// callers can match on it; [`TblError::message`] renders it for people.
#[derive(Debug, PartialEq, Eq)]
pub enum TblError {
    /// An argument is malformed; raised before any file is touched.
    ArgumentError(String),
    /// A path does not lie where the plan needs it.
    PathResolutionError(String),
    /// Two inputs would be written to the same output path.
    DuplicateOutputError(String),
    /// A schema does not allow the requested edit or merge.
    SchemaError(String),
    /// The disk could not be read or written: a path is missing or
    /// unreadable, or writing or renaming a file failed.
    IOError(String),
    /// A permit could not be acquired from the coordinator.
    ConcurrencyError(String),
}

/// What an error says: its kind and the text of its detail.
pub ghost struct Fault {
    pub kind: ErrorKind,
    pub detail: Seq<char>,
}

/// The fault of the given kind about `detail`.
pub open spec fn fault(kind: ErrorKind, detail: Seq<char>) -> Fault {
    Fault { kind, detail }
}

/// The fixed words that introduce each kind of error in a message.
pub open spec fn label(kind: ErrorKind) -> Seq<char> {
    match kind {
        ErrorKind::Argument => "Argument error: "@,
        ErrorKind::PathResolution => "Path resolution error: "@,
        ErrorKind::DuplicateOutput => "Duplicate output path: "@,
        ErrorKind::Schema => "Schema error: "@,
        ErrorKind::IO => "IO error: "@,
        ErrorKind::Concurrency => "Concurrency error: "@,
    }
}

impl View for TblError {
    type V = Fault;

    open spec fn view(&self) -> Fault {
        match self {
            TblError::ArgumentError(s) => fault(ErrorKind::Argument, s@),
            TblError::PathResolutionError(s) => fault(ErrorKind::PathResolution, s@),
            TblError::DuplicateOutputError(s) => fault(ErrorKind::DuplicateOutput, s@),
            TblError::SchemaError(s) => fault(ErrorKind::Schema, s@),
            TblError::IOError(s) => fault(ErrorKind::IO, s@),
            TblError::ConcurrencyError(s) => fault(ErrorKind::Concurrency, s@),
        }
    }
}

impl Clone for TblError {
    fn clone(&self) -> (copy: TblError)
        ensures
            copy@ == self@,
    {
        match self {
            TblError::ArgumentError(s) => TblError::ArgumentError(s.clone()),
            TblError::PathResolutionError(s) => TblError::PathResolutionError(s.clone()),
            TblError::DuplicateOutputError(s) => TblError::DuplicateOutputError(s.clone()),
            TblError::SchemaError(s) => TblError::SchemaError(s.clone()),
            TblError::IOError(s) => TblError::IOError(s.clone()),
            TblError::ConcurrencyError(s) => TblError::ConcurrencyError(s.clone()),
        }
    }
}

impl TblError {
    /// The kind of the error.
    pub fn kind(&self) -> (kind: ErrorKind)
        ensures
            kind == self@.kind,
    {
        match self {
            TblError::ArgumentError(_) => ErrorKind::Argument,
            TblError::PathResolutionError(_) => ErrorKind::PathResolution,
            TblError::DuplicateOutputError(_) => ErrorKind::DuplicateOutput,
            TblError::SchemaError(_) => ErrorKind::Schema,
            TblError::IOError(_) => ErrorKind::IO,
            TblError::ConcurrencyError(_) => ErrorKind::Concurrency,
        }
    }

    /// The datum the error is about.
    pub fn detail(&self) -> (detail: &String)
        ensures
            detail@ == self@.detail,
    {
        match self {
            TblError::ArgumentError(s) => s,
            TblError::PathResolutionError(s) => s,
            TblError::DuplicateOutputError(s) => s,
            TblError::SchemaError(s) => s,
            TblError::IOError(s) => s,
            TblError::ConcurrencyError(s) => s,
        }
    }

    /// A one-line rendering: the kind's label followed by the detail.
    pub fn message(&self) -> (text: String)
        ensures
            text@ == label(self@.kind) + self@.detail,
    {
        let head = match self {
            TblError::ArgumentError(_) => "Argument error: ",
            TblError::PathResolutionError(_) => "Path resolution error: ",
            TblError::DuplicateOutputError(_) => "Duplicate output path: ",
            TblError::SchemaError(_) => "Schema error: ",
            TblError::IOError(_) => "IO error: ",
            TblError::ConcurrencyError(_) => "Concurrency error: ",
        };
        String::from_str(head).concat(self.detail().as_str())
    }
}

} // verus!
