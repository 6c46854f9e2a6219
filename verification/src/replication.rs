//! What a leader sends its followers to keep its leadership alive.
use crate::structs::AppendEntriesRequest;
use vstd::prelude::*;

verus! {

/// A signal from a node to one of its replication tasks.
#[derive(Debug, Clone, Copy, PartialEq, Eq, Structural)]
pub enum RaftEvent {
    Terminate,
}

/// The heartbeat a leader sends each follower: an append-entries request
/// for the leader's term that carries no entries.
pub fn heartbeat_request(leader_id: u64, term: u64) -> (r: AppendEntriesRequest)
    ensures
        r.entries@.len() == 0,
        r.leader_id == leader_id,
        r.term == term,
{
    AppendEntriesRequest { entries: Vec::new(), leader_id, term }
}

} // verus!
