
use flotte::raft::{CandidateState, Peer, Raft, State};
use flotte::replication::{heartbeat_request, RaftEvent};
use flotte::server::initial_peers;
use flotte::structs::{AppendEntriesRequest, AppendEntriesResponse, VoteRequest, VoteResponse};
use flotte::timer::{election_delay_ms, fresh_election_timer, ElectionTimer, ELECTION_DELAY_MAX_MS, ELECTION_DELAY_MIN_MS};
use std::time::Duration;
use tokio::time::Instant;

fn peer(id: u64, endpoint: &str) -> Peer {
    Peer { id, endpoint: endpoint.to_string() }
}

fn three_peers() -> Vec<Peer> {
    vec![peer(0, "http://a:1"), peer(1, "http://b:2"), peer(2, "http://c:3")]
}

fn vote(term: u64, candidate_id: u64) -> VoteRequest {
    VoteRequest { term, candidate_id, last_log_index: 0, last_log_term: 0 }
}

fn timer(delay_ms: u64) -> ElectionTimer {
    ElectionTimer { armed_at: Instant::now(), delay_ms }
}

fn append(term: u64, entries: Vec<Vec<u8>>) -> AppendEntriesRequest {
    AppendEntriesRequest { entries, leader_id: 9, term }
}

#[test]
fn state_predicates() {
    assert!(State::Leader.is_leader());
    assert!(!State::Leader.is_follower());
    assert!(!State::Leader.is_candidate());
    assert!(State::Follower.is_follower());
    assert!(!State::Follower.is_leader());
    assert!(State::Candidate.is_candidate());
    assert!(!State::Candidate.is_follower());
}

#[test]
fn new_node_starts_as_follower_in_term_zero() {
    let raft = Raft::new(4, three_peers());
    assert_eq!(raft.id, 4);
    assert_eq!(raft.current_term, 0);
    assert_eq!(raft.voted_for, None);
    assert_eq!(raft.target_state, State::Follower);
    assert!(raft.election_timeout.is_none());
    assert_eq!(raft.peers, three_peers());
}

#[test]
fn new_node_keeps_each_peer_once() {
    let mut peers = three_peers();
    peers.push(peer(1, "http://b:2"));
    peers.push(peer(0, "http://a:1"));
    peers.push(peer(1, "http://other:2"));
    let raft = Raft::new(0, peers);
    assert_eq!(
        raft.peers,
        vec![peer(0, "http://a:1"), peer(1, "http://b:2"), peer(2, "http://c:3"), peer(1, "http://other:2")]
    );
}

#[test]
fn stale_vote_request_is_refused_and_changes_nothing() {
    let mut raft = Raft::new(0, three_peers());
    raft.current_term = 5;
    raft.voted_for = Some(2);
    raft.target_state = State::Leader;
    let r = raft.handle_vote_request(vote(4, 1), timer(2000));
    assert_eq!(r, VoteResponse { term: 5, vote_granted: false });
    assert_eq!(raft.current_term, 5);
    assert_eq!(raft.voted_for, Some(2));
    assert_eq!(raft.target_state, State::Leader);
    assert!(raft.election_timeout.is_none());
}

#[test]
fn newer_term_vote_request_is_granted_and_makes_a_follower() {
    let mut raft = Raft::new(0, three_peers());
    raft.current_term = 3;
    raft.voted_for = Some(0);
    raft.target_state = State::Leader;
    let t = timer(1700);
    let r = raft.handle_vote_request(vote(7, 2), t);
    assert_eq!(r, VoteResponse { term: 7, vote_granted: true });
    assert_eq!(raft.current_term, 7);
    assert_eq!(raft.voted_for, Some(2));
    assert_eq!(raft.target_state, State::Follower);
    assert_eq!(raft.election_timeout, Some(t));
}

#[test]
fn first_vote_in_current_term_is_granted() {
    let mut raft = Raft::new(0, three_peers());
    raft.current_term = 2;
    raft.target_state = State::Candidate;
    let r = raft.handle_vote_request(vote(2, 1), timer(2000));
    assert_eq!(r, VoteResponse { term: 2, vote_granted: true });
    assert_eq!(raft.voted_for, Some(1));
    assert_eq!(raft.target_state, State::Follower);
    assert!(raft.election_timeout.is_none());
}

#[test]
fn one_vote_per_term() {
    let mut raft = Raft::new(0, three_peers());
    let first = raft.handle_vote_request(vote(1, 1), timer(2000));
    let second = raft.handle_vote_request(vote(1, 2), timer(2000));
    let again = raft.handle_vote_request(vote(1, 1), timer(2000));
    assert!(first.vote_granted);
    assert!(!second.vote_granted);
    assert!(again.vote_granted);
    assert_eq!(second.term, 1);
    assert_eq!(raft.voted_for, Some(1));
    let next_term = raft.handle_vote_request(vote(2, 2), timer(2000));
    assert_eq!(next_term, VoteResponse { term: 2, vote_granted: true });
    assert_eq!(raft.voted_for, Some(2));
}

#[test]
fn stale_append_entries_is_refused_and_changes_nothing() {
    let mut raft = Raft::new(0, three_peers());
    raft.current_term = 4;
    raft.target_state = State::Candidate;
    let r = raft.handle_append_entries_request(append(3, vec![]), timer(2000));
    assert_eq!(r, AppendEntriesResponse { success: false, term: 4, index: 0, commit_index: 0 });
    assert_eq!(raft.current_term, 4);
    assert_eq!(raft.target_state, State::Candidate);
    assert!(raft.election_timeout.is_none());
}

#[test]
fn heartbeat_makes_a_follower_in_the_leaders_term() {
    let mut raft = Raft::new(0, three_peers());
    raft.current_term = 4;
    raft.voted_for = Some(0);
    raft.target_state = State::Leader;
    let old = timer(1600);
    raft.restart_election_timer(old);
    let t = timer(2900);
    let r = raft.handle_append_entries_request(append(6, vec![]), t);
    assert_eq!(r, AppendEntriesResponse { success: true, term: 6, index: 0, commit_index: 0 });
    assert_eq!(raft.current_term, 6);
    assert_eq!(raft.voted_for, Some(0));
    assert_eq!(raft.target_state, State::Follower);
    assert_eq!(raft.election_timeout, Some(t));
}

#[test]
fn append_entries_with_entries_in_same_term_is_accepted() {
    let mut raft = Raft::new(0, three_peers());
    raft.current_term = 2;
    raft.target_state = State::Candidate;
    let r = raft.handle_append_entries_request(append(2, vec![vec![1, 2, 3]]), timer(2000));
    assert_eq!(r, AppendEntriesResponse { success: true, term: 2, index: 0, commit_index: 0 });
    assert_eq!(raft.target_state, State::Follower);
}

#[test]
fn election_timeout_is_kept_until_reset() {
    let mut raft = Raft::new(0, three_peers());
    let before = Instant::now();
    let first = raft.get_election_timeout();
    let second = raft.get_election_timeout();
    assert_eq!(first, second);
    assert_eq!(raft.election_timeout, Some(first));
    assert!(first.armed_at >= before);
    assert!((ELECTION_DELAY_MIN_MS..ELECTION_DELAY_MAX_MS).contains(&first.delay_ms));
    let mut redrawn = false;
    for _ in 0..20 {
        raft.update_election_timeout();
        let now = raft.election_timeout.unwrap();
        assert!((1500..3000).contains(&now.delay_ms));
        assert!(now.armed_at >= first.armed_at);
        if now != first {
            redrawn = true;
        }
    }
    assert!(redrawn);
    let t = timer(1999);
    raft.restart_election_timer(t);
    assert_eq!(raft.get_election_timeout(), t);
}

#[test]
fn fresh_timer_is_armed_now_within_the_election_window() {
    let mut delays = std::collections::HashSet::new();
    for _ in 0..50 {
        let before = Instant::now();
        let t = fresh_election_timer();
        let after = Instant::now();
        assert!(before <= t.armed_at && t.armed_at <= after);
        assert!((1500..3000).contains(&t.delay_ms));
        assert!(t.armed_at + Duration::from_millis(t.delay_ms) >= before + Duration::from_millis(1500));
        delays.insert(t.delay_ms);
    }
    assert!(delays.len() > 1);
}

#[test]
fn election_delay_stays_in_range() {
    assert_eq!(ELECTION_DELAY_MIN_MS, 1500);
    assert_eq!(ELECTION_DELAY_MAX_MS, 3000);
    let mut distinct = std::collections::HashSet::new();
    for _ in 0..200 {
        let ms = election_delay_ms();
        assert!((1500..3000).contains(&ms));
        distinct.insert(ms);
    }
    assert!(distinct.len() > 1);
}

#[test]
fn follower_whose_timer_expires_turns_candidate() {
    let mut raft = Raft::new(0, three_peers());
    raft.election_timer_expired();
    assert_eq!(raft.target_state, State::Candidate);
    assert_eq!(raft.current_term, 0);
}

#[test]
fn start_election_moves_to_next_term_and_votes_for_itself() {
    let mut raft = Raft::new(1, three_peers());
    raft.current_term = 8;
    raft.target_state = State::Candidate;
    let _ = raft.get_election_timeout();
    let mut c = CandidateState::new();
    assert_eq!((c.votes_granted, c.votes_needed), (0, 0));
    c.start_election(&mut raft);
    assert_eq!(c.votes_granted, 1);
    assert_eq!(c.votes_needed, 2);
    assert_eq!(raft.current_term, 9);
    assert_eq!(raft.voted_for, Some(1));
    assert_eq!(raft.target_state, State::Candidate);
    assert!(raft.election_timeout.is_none());
    assert_eq!(c.vote_request(&raft), vote(9, 1));
    let round = raft.get_election_timeout();
    assert!((1500..3000).contains(&round.delay_ms));
}

#[test]
fn votes_needed_is_a_majority() {
    for (n, needed) in [(0usize, 1u64), (1, 1), (2, 2), (3, 2), (4, 3), (5, 3)] {
        let peers: Vec<Peer> = (0..n as u64).map(|i| peer(i, "http://x")).collect();
        let mut raft = Raft::new(0, peers);
        let mut c = CandidateState::new();
        c.start_election(&mut raft);
        assert_eq!(c.votes_needed, needed);
    }
}

#[test]
fn majority_of_granted_votes_makes_a_leader() {
    let mut raft = Raft::new(0, three_peers());
    raft.target_state = State::Candidate;
    let mut c = CandidateState::new();
    c.start_election(&mut raft);
    c.handle_vote_response(&mut raft, VoteResponse { term: 1, vote_granted: false }, timer(2000));
    assert_eq!(c.votes_granted, 1);
    assert_eq!(raft.target_state, State::Candidate);
    c.handle_vote_response(&mut raft, VoteResponse { term: 1, vote_granted: true }, timer(2000));
    assert_eq!(c.votes_granted, 2);
    assert_eq!(raft.target_state, State::Leader);
    assert_eq!(raft.current_term, 1);
}

#[test]
fn vote_response_from_newer_term_ends_candidacy() {
    let mut raft = Raft::new(0, three_peers());
    raft.target_state = State::Candidate;
    let mut c = CandidateState::new();
    c.start_election(&mut raft);
    let t = timer(2222);
    c.handle_vote_response(&mut raft, VoteResponse { term: 5, vote_granted: true }, t);
    assert_eq!(raft.target_state, State::Follower);
    assert_eq!(raft.current_term, 5);
    assert_eq!(raft.voted_for, Some(0));
    assert_eq!(c.votes_granted, 1);
    assert_eq!(raft.election_timeout, Some(t));
}

#[test]
fn leader_replicates_to_every_other_peer() {
    let raft = Raft::new(1, three_peers());
    assert_eq!(raft.replication_targets(), vec![peer(0, "http://a:1"), peer(2, "http://c:3")]);
    let alone = Raft::new(7, vec![peer(7, "http://me")]);
    assert!(alone.replication_targets().is_empty());
}

#[test]
fn heartbeat_carries_no_entries() {
    let r = heartbeat_request(3, 11);
    assert_eq!(r, AppendEntriesRequest { entries: vec![], leader_id: 3, term: 11 });
    assert_eq!(RaftEvent::Terminate, RaftEvent::Terminate);
}

#[test]
fn cluster_has_two_local_nodes() {
    assert_eq!(initial_peers(), vec![peer(0, "http://localhost:8000"), peer(1, "http://localhost:8001")]);
}

#[test]
fn own_election_keeps_one_vote_per_term() {
    let mut raft = Raft::new(0, three_peers());
    raft.target_state = State::Candidate;
    let mut c = CandidateState::new();
    c.start_election(&mut raft);
    let other = raft.handle_vote_request(vote(1, 2), timer(2000));
    assert_eq!(other, VoteResponse { term: 1, vote_granted: false });
    let own = raft.handle_vote_request(vote(1, 0), timer(2000));
    assert_eq!(own, VoteResponse { term: 1, vote_granted: true });
    c.handle_vote_response(&mut raft, VoteResponse { term: 1, vote_granted: true }, timer(2000));
    assert_eq!(raft.target_state, State::Leader);
    assert_eq!(raft.voted_for, Some(0));
    let later = raft.handle_vote_request(vote(1, 1), timer(2000));
    assert!(!later.vote_granted);
}
