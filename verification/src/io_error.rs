//! The failures of the operating system, as the runtime's rules read them.

use vstd::prelude::*;

verus! {

/// What kind of failure the operating system reported.
#[derive(Debug, Clone, Copy, PartialEq, Eq, Structural)]
pub enum IoKind {
    NotFound,
    AlreadyExists,
    PermissionDenied,
    InvalidInput,
    InvalidData,
    Other,
}

/// A failed operation: its kind, and its description.
#[derive(Debug, PartialEq, Eq)]
pub struct IoError {
    pub kind: IoKind,
    pub message: String,
}

/// What a failure holds.
pub struct IoErrorView {
    pub kind: IoKind,
    pub message: Seq<char>,
}

impl View for IoError {
    type V = IoErrorView;

    open spec fn view(&self) -> IoErrorView {
        IoErrorView { kind: self.kind, message: self.message@ }
    }
}

impl IoError {
    /// A failure of the given kind and description.
    pub fn new(kind: IoKind, message: &str) -> (err: IoError)
        ensures
            err@ == (IoErrorView { kind, message: message@ }),
    {
        IoError { kind, message: message.to_owned() }
    }

    /// Whether the failure says that nothing is there.
    pub fn is_not_found(&self) -> (yes: bool)
        ensures
            yes == (self@.kind == IoKind::NotFound),
    {
        self.kind == IoKind::NotFound
    }
}

impl Clone for IoError {
    fn clone(&self) -> (err: IoError)
        ensures
            err@ == self@,
    {
        IoError { kind: self.kind, message: self.message.clone() }
    }
}

} // verus!
