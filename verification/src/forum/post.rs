//! The posts of the board.
use vstd::prelude::*;
use crate::forum::time::Timestamp;

verus! {

/// A post as the board stores it.
#[derive(Debug, PartialEq, Eq)]
pub struct Post {
    pub id: u128,
    pub thread_id: u128,
    pub author_id: u128,
    pub content: String,
    pub created_at: Timestamp,
}

/// Asks for a new post. Without an author it is anonymous.
#[derive(Debug, PartialEq, Eq)]
pub struct AddPostRequest {
    pub author_id: Option<u128>,
    pub thread_id: u128,
    pub content: String,
}

/// Names the post to delete.
#[derive(Debug, PartialEq, Eq)]
pub struct DeletePostRequest {
    pub id: u128,
}

/// A post as the board shows it: with its author's name.
#[derive(Debug, PartialEq, Eq)]
pub struct PostResponse {
    pub id: u128,
    pub thread_id: u128,
    pub author_id: Option<u128>,
    pub author_name: String,
    pub content: String,
    pub created_at: Timestamp,
}

} // verus!
