//! Storage for one node of a content network in which every node keeps the content nearest to it.
//!
//! A node has a fixed number of bytes to spend. While there is room it takes any content; once the
//! room is used up it drops the farthest content first, and from then on only takes content that
//! lies within the radius which that leaves. The decisions live here as plain functions of a state
//! and of what the databases answered; the program around them performs the database calls.

pub mod databases;
pub mod disk;
pub mod distance;
pub mod error;
pub mod events;
pub mod hex_text;
pub mod history;
pub mod laws;
pub mod operation;
pub mod request;
pub mod storage;
pub mod store_if_should_run;
pub mod store_run;
