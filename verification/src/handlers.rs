//! Answering a leader's append-entries requests.
use crate::raft::{Raft, RaftView, State};
use crate::structs::{AppendEntriesRequest, AppendEntriesResponse};
use crate::timer::ElectionTimer;
use vstd::prelude::*;

verus! {

/// What a node in state `s` does with an append-entries request from a
/// leader in `term`: the state it moves to and the answer it sends.
///
/// A request from an older term is refused and changes nothing. Otherwise
/// the node takes the leader's term, becomes a follower, and accepts.
/// The node's vote is kept either way.
pub open spec fn append_entries_step(s: RaftView, term: u64) -> (RaftView, AppendEntriesResponse) {
    if term < s.current_term {
        (s, AppendEntriesResponse { success: false, term: s.current_term, index: 0, commit_index: 0 })
    } else {
        (
            RaftView { current_term: term, target_state: State::Follower, ..s },
            AppendEntriesResponse { success: true, term, index: 0, commit_index: 0 },
        )
    }
}

impl Raft {
    /// Answers a leader's append-entries request, as `append_entries_step`
    /// says; an accepted request restarts the election timer as `timer`, a
    /// freshly drawn one.
    pub fn handle_append_entries_request(
        &mut self,
        request: AppendEntriesRequest,
        timer: ElectionTimer,
    ) -> (r: AppendEntriesResponse)
        requires
            timer.in_election_window(),
        ensures
            (final(self)@, r) == append_entries_step(old(self)@, request.term),
            request.term >= old(self).current_term ==> final(self).election_deadline() == Some(timer),
            request.term >= old(self).current_term ==> (final(self).election_deadline() matches Some(t)
                && t.in_election_window()),
            request.term < old(self).current_term ==> final(self).election_deadline()
                == old(self).election_deadline(),
            old(self).current_term <= final(self).current_term,
            r.term == final(self).current_term,
            request.term >= old(self).current_term ==> {
                &&& r.success
                &&& final(self).target_state == State::Follower
                &&& final(self).current_term == request.term
            },
            request.term < old(self).current_term ==> !r.success && final(self)@ == old(self)@,
            r.success <==> request.term >= old(self).current_term,
            final(self).voted_for == old(self).voted_for,
    {
        if request.term < self.current_term {
            return AppendEntriesResponse {
                success: false,
                term: self.current_term,
                index: 0,
                commit_index: 0,
            };
        }
        self.restart_election_timer(timer);

        if self.current_term != request.term {
            self.current_term = request.term;
        }
        if self.target_state != State::Follower {
            self.target_state = State::Follower;
        }
        if request.entries.is_empty() {
            return AppendEntriesResponse {
                success: true,
                term: self.current_term,
                index: 0,
                commit_index: 0,
            };
        }
        AppendEntriesResponse { success: true, term: self.current_term, index: 0, commit_index: 0 }
    }
}

} // verus!
