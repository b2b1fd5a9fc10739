//! Error taxonomy for Keirox operations.
use crate::text::push_str;
use vstd::prelude::*;

verus! {

#[verifier::external_type_specification]
#[verifier::external_body]
pub struct ExIoError(std::io::Error);

/// Root error enum for the Keirox runtime.
#[derive(Debug)]
pub enum KeiroxError {
    /// Attempted to mutate or rewrite the append-only immutable log.
    LogMutationViolation(String),
    /// Lease expired or invalidated by newer epoch.
    LeaseConflict(String),
    /// Stream not found or invalid.
    StreamNotFound(String),
    /// Storage tier I/O failure.
    StorageIo(std::io::Error),
    /// Internal error.
    Internal(String),
    /// Authorization denied by the access-control policy.
    Unauthorized(String),
    /// A data encryption key was destroyed (crypto-shredded) or is unknown.
    KeyDestroyed(String),
    /// Consensus routing or leadership failure.
    Consensus(String),
    /// Request carried a stale or future coordination epoch.
    EpochFenced(String),
    /// A majority quorum could not be reached.
    QuorumUnavailable(String),
}

/// Result alias for Keirox operations.
pub type Result<T> = core::result::Result<T, KeiroxError>;

/// Renders an I/O error (`Display` of `std::io::Error`). Nothing is stated of the text:
/// for an operating system error it is the system's own description.
#[verifier::external_body]
fn io_error_text(e: &std::io::Error) -> String {
    e.to_string()
}

/// The message prefix that each error kind renders before its detail.
pub open spec fn error_prefix(e: KeiroxError) -> Seq<char> {
    match e {
        KeiroxError::LogMutationViolation(_) => "Immutable log violation: "@,
        KeiroxError::LeaseConflict(_) => "Lease error: "@,
        KeiroxError::StreamNotFound(_) => "Stream not found: "@,
        KeiroxError::StorageIo(_) => "Storage I/O failure: "@,
        KeiroxError::Internal(_) => "Internal runtime error: "@,
        KeiroxError::Unauthorized(_) => "Unauthorized: "@,
        KeiroxError::KeyDestroyed(_) => "Key destroyed: "@,
        KeiroxError::Consensus(_) => "Consensus error: "@,
        KeiroxError::EpochFenced(_) => "Epoch fenced: "@,
        KeiroxError::QuorumUnavailable(_) => "Quorum unavailable: "@,
    }
}

/// The detail message carried by an error, when it is text.
pub open spec fn error_detail(e: KeiroxError) -> Option<Seq<char>> {
    match e {
        KeiroxError::LogMutationViolation(m) => Some(m@),
        KeiroxError::LeaseConflict(m) => Some(m@),
        KeiroxError::StreamNotFound(m) => Some(m@),
        KeiroxError::StorageIo(_) => None,
        KeiroxError::Internal(m) => Some(m@),
        KeiroxError::Unauthorized(m) => Some(m@),
        KeiroxError::KeyDestroyed(m) => Some(m@),
        KeiroxError::Consensus(m) => Some(m@),
        KeiroxError::EpochFenced(m) => Some(m@),
        KeiroxError::QuorumUnavailable(m) => Some(m@),
    }
}

impl KeiroxError {
    /// Renders the error: its kind's prefix followed by its detail.
    pub fn to_string(&self) -> (s: String)
        ensures
            s@.len() >= error_prefix(*self).len(),
            s@.subrange(0, error_prefix(*self).len() as int) == error_prefix(*self),
            error_detail(*self) matches Some(m) ==> s@ == error_prefix(*self) + m,
    {
        let mut s = String::new();
        match self {
            KeiroxError::LogMutationViolation(m) => {
                push_str(&mut s, "Immutable log violation: ");
                push_str(&mut s, m.as_str());
            },
            KeiroxError::LeaseConflict(m) => {
                push_str(&mut s, "Lease error: ");
                push_str(&mut s, m.as_str());
            },
            KeiroxError::StreamNotFound(m) => {
                push_str(&mut s, "Stream not found: ");
                push_str(&mut s, m.as_str());
            },
            KeiroxError::StorageIo(e) => {
                push_str(&mut s, "Storage I/O failure: ");
                let t = io_error_text(e);
                push_str(&mut s, t.as_str());
            },
            KeiroxError::Internal(m) => {
                push_str(&mut s, "Internal runtime error: ");
                push_str(&mut s, m.as_str());
            },
            KeiroxError::Unauthorized(m) => {
                push_str(&mut s, "Unauthorized: ");
                push_str(&mut s, m.as_str());
            },
            KeiroxError::KeyDestroyed(m) => {
                push_str(&mut s, "Key destroyed: ");
                push_str(&mut s, m.as_str());
            },
            KeiroxError::Consensus(m) => {
                push_str(&mut s, "Consensus error: ");
                push_str(&mut s, m.as_str());
            },
            KeiroxError::EpochFenced(m) => {
                push_str(&mut s, "Epoch fenced: ");
                push_str(&mut s, m.as_str());
            },
            KeiroxError::QuorumUnavailable(m) => {
                push_str(&mut s, "Quorum unavailable: ");
                push_str(&mut s, m.as_str());
            },
        }
        s
    }

    /// Wraps an I/O failure (the conversion `From<std::io::Error>` performs).
    pub fn from_io(e: std::io::Error) -> (r: Self)
        ensures
            r == KeiroxError::StorageIo(e),
    {
        KeiroxError::StorageIo(e)
    }
}

impl From<std::io::Error> for KeiroxError {
    fn from(e: std::io::Error) -> (r: Self) {
        KeiroxError::StorageIo(e)
    }
}

impl vstd::std_specs::convert::FromSpecImpl<std::io::Error> for KeiroxError {
    open spec fn obeys_from_spec() -> bool {
        true
    }

    open spec fn from_spec(v: std::io::Error) -> Self {
        KeiroxError::StorageIo(v)
    }
}

} // verus!
