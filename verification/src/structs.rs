//! The messages that Raft nodes exchange.
use vstd::prelude::*;

verus! {

/// A candidate's request for a node's vote in `term`.
#[derive(Debug, Clone, Copy, PartialEq, Eq, Structural)]
pub struct VoteRequest {
    pub term: u64,
    pub candidate_id: u64,
    pub last_log_index: u64,
    pub last_log_term: u64,
}

/// The answer to a `VoteRequest`: the responder's term and whether it
/// granted its vote.
#[derive(Debug, Clone, Copy, PartialEq, Eq, Structural)]
pub struct VoteResponse {
    pub term: u64,
    pub vote_granted: bool,
}

/// A leader's request to append `entries` to a follower's log; with no
/// entries it is a heartbeat.
#[derive(Debug, Clone, PartialEq, Eq)]
pub struct AppendEntriesRequest {
    pub entries: Vec<Vec<u8>>,
    pub leader_id: u64,
    pub term: u64,
}

/// The answer to an `AppendEntriesRequest`.
#[derive(Debug, Clone, Copy, PartialEq, Eq, Structural)]
pub struct AppendEntriesResponse {
    pub success: bool,
    pub term: u64,
    pub index: u64,
    pub commit_index: u64,
}

} // verus!
