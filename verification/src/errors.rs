//! The closed set of failure kinds shared by every component of the engine.

use vstd::prelude::*;

verus! {

/// Machine-checkable classification of a failure.
#[derive(Clone, Copy, Debug, PartialEq, Eq, Structural)]
pub enum ErrorKind {
    /// A required handle or parameter is absent or empty.
    InvalidInput,
    /// The mnemonic phrase has an unsupported length or a bad checksum.
    InvalidMnemonic,
    /// The ledger snapshot bytes cannot be decoded.
    MalformedSnapshot,
    /// An index exceeds the size of the collection it indexes.
    OutOfBound,
}

/// A failure: a machine-checkable kind plus a human-readable cause.
#[derive(Clone, Debug)]
pub struct Error {
    pub kind: ErrorKind,
    pub cause: String,
}

impl Error {
    pub fn invalid_input(what: &str) -> (r: Error)
        ensures
            r.kind == ErrorKind::InvalidInput,
    {
        Error { kind: ErrorKind::InvalidInput, cause: what.to_owned() }
    }

    pub fn invalid_mnemonic() -> (r: Error)
        ensures
            r.kind == ErrorKind::InvalidMnemonic,
    {
        Error { kind: ErrorKind::InvalidMnemonic, cause: "invalid mnemonic".to_owned() }
    }

    pub fn malformed_snapshot() -> (r: Error)
        ensures
            r.kind == ErrorKind::MalformedSnapshot,
    {
        Error {
            kind: ErrorKind::MalformedSnapshot,
            cause: "malformed snapshot".to_owned(),
        }
    }

    pub fn out_of_bound() -> (r: Error)
        ensures
            r.kind == ErrorKind::OutOfBound,
    {
        Error { kind: ErrorKind::OutOfBound, cause: "access out of bound".to_owned() }
    }

    /// The kind of this failure.
    pub fn kind(&self) -> (r: ErrorKind)
        ensures
            r == self.kind,
    {
        self.kind
    }

    /// A human-readable rendering of the cause.
    pub fn text(&self) -> (r: String)
        ensures
            r@ == self.cause@,
    {
        self.cause.clone()
    }
}

} // verus!
