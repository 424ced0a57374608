//! What the poller asks of the ledger.

use vstd::prelude::*;
use crate::signature::Signature;

verus! {

/// How settled a transaction must be before the ledger reports it.
#[derive(Clone, Copy, Debug, PartialEq, Eq, Structural)]
pub enum Commitment {
    Processed,
    Confirmed,
    Finalized,
}

/// One query for the signatures of the watched address, answered
/// most-recent-first.
#[derive(Clone, Copy, Debug, PartialEq, Eq)]
pub struct FetchRequest {
    /// Report only signatures older than this one.
    pub before: Option<Signature>,
    /// Report only signatures strictly newer than this one.
    pub until: Option<Signature>,
    /// Report at most this many signatures, the newest ones.
    pub limit: Option<usize>,
    pub commitment: Commitment,
}

/// The query that a poller with the given cursor makes. Without a cursor it
/// asks for the single newest signature, which seeds the cursor and leaves the
/// history alone. With a cursor it asks for everything strictly newer, however
/// much that is.
pub open spec fn request_for(cursor: Option<Signature>) -> FetchRequest {
    match cursor {
        None => FetchRequest {
            before: None,
            until: None,
            limit: Some(1usize),
            commitment: Commitment::Confirmed,
        },
        Some(newest) => FetchRequest {
            before: None,
            until: Some(newest),
            limit: None,
            commitment: Commitment::Confirmed,
        },
    }
}

impl FetchRequest {
    /// The query that a poller with the given cursor makes.
    pub fn after(cursor: Option<Signature>) -> (request: FetchRequest)
        ensures
            request == request_for(cursor),
    {
        match cursor {
            None => FetchRequest {
                before: None,
                until: None,
                limit: Some(1usize),
                commitment: Commitment::Confirmed,
            },
            Some(newest) => FetchRequest {
                before: None,
                until: Some(newest),
                limit: None,
                commitment: Commitment::Confirmed,
            },
        }
    }
}

} // verus!
