//! The message board that stands beside the node: its records, its
//! requests and the filter of its listings.
pub mod filter;
pub mod post;
pub mod thread;
pub mod time;
pub mod user;
