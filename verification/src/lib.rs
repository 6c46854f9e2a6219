//! A small Raft node: terms, votes, roles and the messages that move them.

pub mod handlers;
pub mod laws;
pub mod raft;
pub mod replication;
pub mod server;
pub mod structs;
pub mod timer;
pub mod vote;
