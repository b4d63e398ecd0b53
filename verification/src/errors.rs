//! The error taxonomy of the crate.

use vstd::prelude::*;

verus! {

/// The class of a failure, as surfaced to callers.
#[derive(Clone, Copy, Debug, PartialEq, Eq, Structural)]
pub enum ErrorKind {
    /// An unknown job, pipeline, step or template id.
    NotFound,
    /// Bad parameters, a disabled template, an empty pipeline, or an invalid
    /// identifier.
    InvalidInput,
    /// The operation is not allowed in the current state, such as a retry
    /// attempted before its window has elapsed.
    PreconditionFailed,
    /// A persisted document carries a schema version newer than this build
    /// supports; the subsystem is read-only.
    SchemaUnsupported,
    /// A store read, write or lock failure reported by the host.
    PersistenceFailure,
}

/// A structured error: its class plus a human-readable message.
#[derive(Debug)]
pub struct CoreError {
    pub kind: ErrorKind,
    pub message: String,
}

impl CoreError {
    /// Builds an error of the given class.
    pub fn new(kind: ErrorKind, message: String) -> (r: CoreError)
        ensures
            r.kind == kind,
            r.message == message,
    {
        CoreError { kind, message }
    }

    /// The error class.
    pub fn kind(&self) -> (r: ErrorKind)
        ensures
            r == self.kind,
    {
        self.kind
    }

    /// The human-readable message.
    pub fn text(&self) -> (r: &String)
        ensures
            r == &self.message,
    {
        &self.message
    }
}

} // verus!
