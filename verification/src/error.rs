//! The failures a stream operation can end in, and how they read as I/O failures.

use vstd::prelude::*;

verus! {

/// What went wrong, as far as a caller can tell the cases apart.
#[derive(Clone, Copy, Debug, PartialEq, Eq, Structural)]
pub enum ErrorKind {
    /// The deadline passed before the operation finished. The remote side may
    /// still have carried it out.
    Timeout,
    /// The caller asked for something that cannot be represented: a buffer or
    /// an offset beyond the signed 64-bit range, or a position before the start.
    InvalidInput,
    /// The cluster, or the connection to it, reported a failure.
    Remote,
}

/// The category under which a generic stream consumer sees a failure.
#[derive(Clone, Copy, Debug, PartialEq, Eq, Structural)]
pub enum IoKind {
    TimedOut,
    InvalidInput,
    Other,
}

/// A failed operation: its kind and a message for people.
#[derive(Clone, Debug)]
pub struct HdfsError {
    pub kind: ErrorKind,
    pub message: String,
}

/// The I/O category that stands for each kind of failure.
pub open spec fn io_kind_of(kind: ErrorKind) -> IoKind {
    match kind {
        ErrorKind::Timeout => IoKind::TimedOut,
        ErrorKind::InvalidInput => IoKind::InvalidInput,
        ErrorKind::Remote => IoKind::Other,
    }
}

impl HdfsError {
    /// True when the failure has the given kind and message.
    pub open spec fn is(&self, kind: ErrorKind, message: Seq<char>) -> bool {
        self.kind == kind && self.message@ == message
    }

    pub fn new(kind: ErrorKind, message: &str) -> (e: HdfsError)
        ensures
            e.is(kind, message@),
    {
        HdfsError { kind, message: message.to_owned() }
    }

    /// A deadline that passed.
    pub fn timeout(message: &str) -> (e: HdfsError)
        ensures
            e.is(ErrorKind::Timeout, message@),
    {
        HdfsError::new(ErrorKind::Timeout, message)
    }

    /// A request that cannot be represented.
    pub fn invalid_input(message: &str) -> (e: HdfsError)
        ensures
            e.is(ErrorKind::InvalidInput, message@),
    {
        HdfsError::new(ErrorKind::InvalidInput, message)
    }

    /// A failure reported by the cluster or the connection.
    pub fn remote(message: &str) -> (e: HdfsError)
        ensures
            e.is(ErrorKind::Remote, message@),
    {
        HdfsError::new(ErrorKind::Remote, message)
    }

    pub fn kind(&self) -> (k: ErrorKind)
        ensures
            k == self.kind,
    {
        self.kind
    }

    pub fn message(&self) -> (m: &str)
        ensures
            m@ == self.message@,
    {
        self.message.as_str()
    }

    /// The I/O category of this failure.
    pub fn io_kind(&self) -> (k: IoKind)
        ensures
            k == io_kind_of(self.kind),
    {
        match self.kind {
            ErrorKind::Timeout => IoKind::TimedOut,
            ErrorKind::InvalidInput => IoKind::InvalidInput,
            ErrorKind::Remote => IoKind::Other,
        }
    }
}

} // verus!
