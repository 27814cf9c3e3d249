//! The threads of the board.
use vstd::prelude::*;
use crate::forum::time::Timestamp;

verus! {

/// A thread as the board stores it.
#[derive(Debug, PartialEq, Eq)]
pub struct Thread {
    pub id: u128,
    pub name: String,
    pub created_at: Timestamp,
}

/// Asks for a new thread of this name.
#[derive(Debug, PartialEq, Eq)]
pub struct AddThreadRequest {
    pub name: String,
}

/// Asks for this many threads.
#[derive(Debug, PartialEq, Eq)]
pub struct GetNThreadsRequest {
    pub n: i64,
}

/// Names the row to delete.
#[derive(Debug, PartialEq, Eq)]
pub struct DeletePostSchema {
    pub id: u128,
}

/// Names one row.
#[derive(Debug, PartialEq, Eq)]
pub struct IdQuery {
    pub id: u128,
}

} // verus!
