//! Elections: answering vote requests and counting the answers.
use crate::raft::{CandidateState, Raft, RaftView, State};
use crate::structs::{VoteRequest, VoteResponse};
use crate::timer::ElectionTimer;
use vstd::prelude::*;

verus! {

/// What a node in state `s` does with a vote request: the state it moves
/// to and the answer it sends.
///
/// A request from an older term is refused and changes nothing. A request
/// from a newer term first moves the node into that term as a follower
/// that has voted for nobody. Then the vote is granted if the node has not
/// voted in this term, or has voted for this very candidate; a first grant
/// records the vote and makes the node a follower.
pub open spec fn vote_step(s: RaftView, request: VoteRequest) -> (RaftView, VoteResponse) {
    if request.term < s.current_term {
        (s, VoteResponse { term: s.current_term, vote_granted: false })
    } else {
        let t = if request.term > s.current_term {
            RaftView {
                current_term: request.term,
                voted_for: None,
                target_state: State::Follower,
                ..s
            }
        } else {
            s
        };
        match t.voted_for {
            Some(c) => (t, VoteResponse { term: t.current_term, vote_granted: c == request.candidate_id }),
            None => (
                RaftView { voted_for: Some(request.candidate_id), target_state: State::Follower, ..t },
                VoteResponse { term: t.current_term, vote_granted: true },
            ),
        }
    }
}

impl Raft {
    /// Answers a candidate's request for this node's vote, as `vote_step`
    /// says; when the request brings a newer term, the election timer
    /// restarts as `timer`, a freshly drawn one.
    pub fn handle_vote_request(&mut self, request: VoteRequest, timer: ElectionTimer) -> (r:
        VoteResponse)
        requires
            timer.in_election_window(),
        ensures
            (final(self)@, r) == vote_step(old(self)@, request),
            request.term > old(self).current_term ==> final(self).election_deadline() == Some(timer),
            request.term > old(self).current_term ==> (final(self).election_deadline() matches Some(t)
                && t.in_election_window()),
            request.term <= old(self).current_term ==> final(self).election_deadline()
                == old(self).election_deadline(),
            old(self).current_term <= final(self).current_term,
            r.term == final(self).current_term,
            r.vote_granted ==> request.term == final(self).current_term && final(self).voted_for
                == Some(request.candidate_id),
            request.term < old(self).current_term ==> !r.vote_granted && final(self)@ == old(self)@,
            request.term > old(self).current_term ==> {
                &&& r.vote_granted
                &&& final(self).voted_for == Some(request.candidate_id)
                &&& final(self).current_term == request.term
                &&& final(self).target_state == State::Follower
            },
            request.term == old(self).current_term && old(self).voted_for is None ==> {
                &&& r.vote_granted
                &&& final(self).voted_for == Some(request.candidate_id)
                &&& final(self).target_state == State::Follower
            },
            !r.vote_granted ==> final(self)@ == old(self)@,
    {
        if request.term < self.current_term {
            return VoteResponse { term: self.current_term, vote_granted: false };
        }
        if request.term > self.current_term {
            self.current_term = request.term;
            self.voted_for = None;
            self.restart_election_timer(timer);
            self.target_state = State::Follower;
        }
        match self.voted_for {
            Some(candidate_id) if candidate_id == request.candidate_id => {
                VoteResponse { term: self.current_term, vote_granted: true }
            },
            Some(_) => VoteResponse { term: self.current_term, vote_granted: false },
            None => {
                self.voted_for = Some(request.candidate_id);
                self.target_state = State::Follower;
                VoteResponse { term: self.current_term, vote_granted: true }
            },
        }
    }
}

/// What a candidate's answer `response` does to a node in state `s` with
/// tally `c`: an answer from a newer term makes the node a follower in that
/// term and leaves the tally; otherwise a granted vote is counted, and a
/// tally that reaches the votes needed makes the node leader.
pub open spec fn vote_answer_step(s: RaftView, c: CandidateState, response: VoteResponse) -> (
    RaftView,
    CandidateState,
) {
    if response.term > s.current_term {
        (RaftView { current_term: response.term, target_state: State::Follower, ..s }, c)
    } else {
        let granted = if response.vote_granted {
            (c.votes_granted + 1) as u64
        } else {
            c.votes_granted
        };
        (
            RaftView {
                target_state: if granted >= c.votes_needed {
                    State::Leader
                } else {
                    s.target_state
                },
                ..s
            },
            CandidateState { votes_granted: granted, ..c },
        )
    }
}

impl CandidateState {
    /// Counts a peer's answer to this candidate's vote request.
    ///
    /// An answer from a newer term ends the candidacy: the node takes that
    /// term as a follower and restarts its election timer as `timer`, a
    /// freshly drawn one, and the tally is left as it was. Otherwise a
    /// granted vote is counted, and once the tally reaches the votes needed
    /// the node becomes leader. This is `vote_answer_step`.
    pub fn handle_vote_response(&mut self, raft: &mut Raft, response: VoteResponse, timer: ElectionTimer)
        requires
            response.vote_granted && response.term <= old(raft).current_term
                ==> old(self).votes_granted < u64::MAX,
            timer.in_election_window(),
        ensures
            (final(raft)@, *final(self)) == vote_answer_step(old(raft)@, *old(self), response),
            response.term > old(raft).current_term ==> {
                &&& final(raft)@ == (RaftView {
                    current_term: response.term,
                    target_state: State::Follower,
                    ..old(raft)@
                })
                &&& final(raft).election_deadline() == Some(timer)
                &&& final(raft).election_deadline() matches Some(t) && t.in_election_window()
                &&& final(self).votes_granted == old(self).votes_granted
                &&& final(self).votes_needed == old(self).votes_needed
            },
            response.term <= old(raft).current_term ==> {
                &&& final(self).votes_granted == old(self).votes_granted + (if response.vote_granted {
                    1int
                } else {
                    0int
                })
                &&& final(self).votes_needed == old(self).votes_needed
                &&& final(raft)@ == (RaftView {
                    target_state: if final(self).votes_granted >= old(self).votes_needed {
                        State::Leader
                    } else {
                        old(raft).target_state
                    },
                    ..old(raft)@
                })
                &&& final(raft).election_deadline() == old(raft).election_deadline()
            },
            old(raft).current_term <= final(raft).current_term,
            final(raft).voted_for == old(raft).voted_for,
            final(raft).target_state == State::Leader && old(raft).target_state != State::Leader
                ==> final(self).votes_granted >= final(self).votes_needed,
    {
        if response.term > raft.current_term {
            raft.target_state = State::Follower;
            raft.current_term = response.term;
            raft.restart_election_timer(timer);
            return;
        }
        if response.vote_granted {
            self.votes_granted = self.votes_granted + 1;
        }
        if self.votes_granted >= self.votes_needed {
            raft.target_state = State::Leader;
        }
    }
}

} // verus!
