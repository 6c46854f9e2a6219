//! Properties that hold across calls: a node's vote within a term, its
//! term over time, and the majorities that elections count.
use crate::handlers::append_entries_step;
use crate::raft::{majority, start_election_step, CandidateState, RaftView, State};
use crate::structs::{VoteRequest, VoteResponse};
use crate::vote::{vote_answer_step, vote_step};
use vstd::prelude::*;
use vstd::set_lib::*;

verus! {

/// Something that happens to a node: a vote request or an append-entries
/// request (from a leader in the given term) that it answers, the expiry
/// of its election timer, the start of an election round, or an answer to
/// its own vote request.
pub enum NodeEvent {
    RequestVote(VoteRequest),
    AppendEntries(u64),
    ElectionTimeout,
    StartElection,
    VoteAnswer(VoteResponse),
}

/// A node's Raft state together with its candidate tally.
pub struct NodeView {
    pub raft: RaftView,
    pub tally: CandidateState,
}

/// The state a node moves to on `event`, as the library's handlers,
/// `election_timer_expired`, `start_election` and `handle_vote_response`
/// state it.
pub open spec fn step(s: NodeView, event: NodeEvent) -> NodeView {
    match event {
        NodeEvent::RequestVote(request) => NodeView { raft: vote_step(s.raft, request).0, ..s },
        NodeEvent::AppendEntries(term) => NodeView { raft: append_entries_step(s.raft, term).0, ..s },
        NodeEvent::ElectionTimeout => NodeView {
            raft: RaftView { target_state: State::Candidate, ..s.raft },
            ..s
        },
        NodeEvent::StartElection => NodeView {
            raft: start_election_step(s.raft).0,
            tally: start_election_step(s.raft).1,
        },
        NodeEvent::VoteAnswer(response) => NodeView {
            raft: vote_answer_step(s.raft, s.tally, response).0,
            tally: vote_answer_step(s.raft, s.tally, response).1,
        },
    }
}

/// Whether the library accepts `event` in state `s`: an election round
/// starts below the last term on a duplicate-free peer set, and a vote
/// answer that would be counted finds room in the tally.
pub open spec fn enabled(s: NodeView, event: NodeEvent) -> bool {
    match event {
        NodeEvent::StartElection => s.raft.current_term < u64::MAX && s.raft.peers.no_duplicates(),
        NodeEvent::VoteAnswer(response) => response.vote_granted && response.term
            <= s.raft.current_term ==> s.tally.votes_granted < u64::MAX,
        _ => true,
    }
}

/// The state a node reaches from `s` after the events `events`, in order.
pub open spec fn replay(s: NodeView, events: Seq<NodeEvent>) -> NodeView
    decreases events.len(),
{
    if events.len() == 0 {
        s
    } else {
        step(replay(s, events.drop_last()), events.last())
    }
}

/// Whether each of `events` is accepted in the state it finds.
pub open spec fn all_enabled(s: NodeView, events: Seq<NodeEvent>) -> bool {
    forall|k: int| 0 <= k < events.len() ==> #[trigger] enabled(replay(s, events.take(k)), events[k])
}

/// Whether the `i`-th of `events`, in the state it finds, is a vote
/// request that was granted in term `term` to `candidate`.
pub open spec fn granted_at(s: NodeView, events: Seq<NodeEvent>, i: int, term: u64, candidate: u64) -> bool {
    match events[i] {
        NodeEvent::RequestVote(request) => {
            let answer = vote_step(replay(s, events.take(i)).raft, request).1;
            &&& answer.vote_granted
            &&& answer.term == term
            &&& request.candidate_id == candidate
        },
        _ => false,
    }
}

/// Whether no election round starts among `events[from..to]`.
pub open spec fn no_election_between(events: Seq<NodeEvent>, from: int, to: int) -> bool {
    forall|k: int| from <= k < to ==> !(#[trigger] events[k] is StartElection)
}

/// How many of `events[from..to]` are granted answers to the node's own
/// vote request.
pub open spec fn granted_answers(events: Seq<NodeEvent>, from: int, to: int) -> nat
    decreases to - from,
{
    if to <= from {
        0
    } else {
        granted_answers(events, from, to - 1) + match events[to - 1] {
            NodeEvent::VoteAnswer(response) => if response.vote_granted {
                1nat
            } else {
                0nat
            },
            _ => 0nat,
        }
    }
}

proof fn lemma_step_keeps(s: NodeView, event: NodeEvent)
    requires
        enabled(s, event),
    ensures
        s.raft.current_term <= step(s, event).raft.current_term,
        step(s, event).raft.current_term == s.raft.current_term && s.raft.voted_for is Some
            ==> step(s, event).raft.voted_for == s.raft.voted_for,
        step(s, event).raft.peers == s.raft.peers,
        step(s, event).raft.id == s.raft.id,
{
}

proof fn lemma_replay_take(s: NodeView, events: Seq<NodeEvent>, k: int)
    requires
        0 <= k < events.len(),
    ensures
        replay(s, events.take(k + 1)) == step(replay(s, events.take(k)), events[k]),
{
    assert(events.take(k + 1).drop_last() =~= events.take(k));
}

proof fn lemma_vote_persists(
    s: NodeView,
    events: Seq<NodeEvent>,
    i: int,
    term: u64,
    candidate: u64,
    k: int,
)
    requires
        0 <= i < k <= events.len(),
        all_enabled(s, events),
        granted_at(s, events, i, term, candidate),
    ensures
        term <= replay(s, events.take(k)).raft.current_term,
        replay(s, events.take(k)).raft.current_term == term ==> replay(s, events.take(k)).raft.voted_for
            == Some(candidate),
    decreases k - i,
{
    if k == i + 1 {
        lemma_replay_take(s, events, i);
    } else {
        lemma_vote_persists(s, events, i, term, candidate, k - 1);
        lemma_replay_take(s, events, k - 1);
        assert(enabled(replay(s, events.take(k - 1)), events[k - 1]));
        lemma_step_keeps(replay(s, events.take(k - 1)), events[k - 1]);
    }
}

/// A node grants its vote to at most one candidate per term: whatever
/// requests it answers, timers that expire, rounds it opens and answers it
/// counts, in whatever order, any two votes it grants in the same term go
/// to the same candidate.
pub proof fn lemma_one_vote_per_term(
    s: NodeView,
    events: Seq<NodeEvent>,
    i: int,
    j: int,
    term: u64,
    first: u64,
    second: u64,
)
    requires
        0 <= i < j < events.len(),
        all_enabled(s, events),
        granted_at(s, events, i, term, first),
        granted_at(s, events, j, term, second),
    ensures
        first == second,
{
    lemma_vote_persists(s, events, i, term, first, j);
}

proof fn lemma_term_prefix(s: NodeView, events: Seq<NodeEvent>, k: int)
    requires
        0 <= k <= events.len(),
        all_enabled(s, events),
    ensures
        s.raft.current_term <= replay(s, events.take(k)).raft.current_term,
        replay(s, events.take(k)).raft.peers == s.raft.peers,
        replay(s, events.take(k)).raft.id == s.raft.id,
    decreases k,
{
    if k == 0 {
        assert(events.take(0) =~= Seq::<NodeEvent>::empty());
    } else {
        lemma_term_prefix(s, events, k - 1);
        lemma_replay_take(s, events, k - 1);
        assert(enabled(replay(s, events.take(k - 1)), events[k - 1]));
        lemma_step_keeps(replay(s, events.take(k - 1)), events[k - 1]);
    }
}

/// A node's term never goes down and its peer set never changes, whatever
/// happens to it.
pub proof fn lemma_term_never_decreases(s: NodeView, events: Seq<NodeEvent>)
    requires
        all_enabled(s, events),
    ensures
        s.raft.current_term <= replay(s, events).raft.current_term,
        replay(s, events).raft.peers == s.raft.peers,
{
    lemma_term_prefix(s, events, events.len() as int);
    assert(events.take(events.len() as int) =~= events);
}

proof fn lemma_round_tally(s: NodeView, events: Seq<NodeEvent>, start: int, k: int)
    requires
        0 <= start < k <= events.len(),
        all_enabled(s, events),
        events[start] is StartElection,
        no_election_between(events, start + 1, k),
    ensures
        replay(s, events.take(k)).tally.votes_needed == majority(
            replay(s, events.take(start)).raft.peers.len(),
        ) as u64,
        replay(s, events.take(k)).tally.votes_granted <= 1 + granted_answers(events, start + 1, k),
    decreases k - start,
{
    lemma_replay_take(s, events, k - 1);
    if k == start + 1 {
    } else {
        lemma_round_tally(s, events, start, k - 1);
        assert(enabled(replay(s, events.take(k - 1)), events[k - 1]));
        assert(!(events[k - 1] is StartElection));
    }
}

/// Within one election round a node becomes leader only on an answer that
/// brings its own vote plus the granted answers counted since the round
/// opened up to a majority of its peers.
pub proof fn lemma_leader_needs_majority(s: NodeView, events: Seq<NodeEvent>, start: int, k: int)
    requires
        0 <= start < k < events.len(),
        all_enabled(s, events),
        events[start] is StartElection,
        no_election_between(events, start + 1, k + 1),
        replay(s, events.take(k)).raft.target_state != State::Leader,
        replay(s, events.take(k + 1)).raft.target_state == State::Leader,
        s.raft.peers.len() <= u64::MAX,
    ensures
        events[k] is VoteAnswer,
        1 + granted_answers(events, start + 1, k + 1) >= majority(s.raft.peers.len()),
{
    lemma_replay_take(s, events, k);
    lemma_term_prefix(s, events, start);
    lemma_round_tally(s, events, start, k + 1);
    assert(!(events[k] is StartElection));
    assert(enabled(replay(s, events.take(k)), events[k]));
}

/// A vote request from a newer term is always granted: the node moves to
/// that term as a follower and records its vote for the requesting
/// candidate, whatever its role or vote before.
pub proof fn lemma_newer_term_vote_granted(s: RaftView, request: VoteRequest)
    requires
        request.term > s.current_term,
    ensures
        vote_step(s, request).1.vote_granted,
        vote_step(s, request).1.term == request.term,
        vote_step(s, request).0.current_term == request.term,
        vote_step(s, request).0.voted_for == Some(request.candidate_id),
        vote_step(s, request).0.target_state == State::Follower,
        vote_step(s, request).0.id == s.id,
        vote_step(s, request).0.peers == s.peers,
{
}

/// A refused vote request leaves the node exactly as it was: its term, its
/// vote and its role.
pub proof fn lemma_refused_vote_changes_nothing(s: RaftView, request: VoteRequest)
    requires
        !vote_step(s, request).1.vote_granted,
    ensures
        vote_step(s, request).0 == s,
        vote_step(s, request).1.term == s.current_term,
{
}

/// A vote request is refused exactly when it comes from an older term, or
/// when the node already voted in this term for another candidate.
pub proof fn lemma_vote_refused_iff(s: RaftView, request: VoteRequest)
    ensures
        !vote_step(s, request).1.vote_granted <==> (request.term < s.current_term || (request.term
            == s.current_term && s.voted_for is Some && s.voted_for != Some(request.candidate_id))),
{
}

/// A granted vote goes to the requesting candidate in the request's term,
/// and the answer carries that term.
pub proof fn lemma_granted_vote_recorded(s: RaftView, request: VoteRequest)
    requires
        vote_step(s, request).1.vote_granted,
    ensures
        vote_step(s, request).0.voted_for == Some(request.candidate_id),
        vote_step(s, request).0.current_term == request.term,
        vote_step(s, request).1.term == request.term,
        s.current_term <= request.term,
{
}

/// An append-entries request from the current or a newer term is accepted:
/// the node takes the leader's term and is a follower afterwards, whatever
/// its role before, and keeps its vote.
pub proof fn lemma_accepted_append_makes_follower(s: RaftView, term: u64)
    requires
        term >= s.current_term,
    ensures
        append_entries_step(s, term).1.success,
        append_entries_step(s, term).1.term == term,
        append_entries_step(s, term).0.current_term == term,
        append_entries_step(s, term).0.target_state == State::Follower,
        append_entries_step(s, term).0.voted_for == s.voted_for,
        append_entries_step(s, term).0.id == s.id,
        append_entries_step(s, term).0.peers == s.peers,
{
}

/// An append-entries request from an older term is refused and leaves the
/// node exactly as it was.
pub proof fn lemma_stale_append_refused(s: RaftView, term: u64)
    requires
        term < s.current_term,
    ensures
        !append_entries_step(s, term).1.success,
        append_entries_step(s, term).1.term == s.current_term,
        append_entries_step(s, term).0 == s,
{
}

/// The votes an election needs are the smallest strict majority of the
/// peers: more than half of them, and one fewer would be at most half.
pub proof fn lemma_majority_is_least_strict_majority(n: nat)
    ensures
        2 * majority(n) > n,
        2 * (majority(n) - 1) <= n,
        majority(n) >= 1,
{
}

/// Opening an election round needs the smallest strict majority of the
/// peers, counts exactly the node's own vote, moves to the next term and
/// votes for the node itself.
pub proof fn lemma_election_round_opens(s: RaftView)
    requires
        s.current_term < u64::MAX,
        s.peers.len() <= u64::MAX,
    ensures
        start_election_step(s).1.votes_granted == 1,
        2 * (start_election_step(s).1.votes_needed - 1) <= s.peers.len(),
        s.peers.len() < 2 * start_election_step(s).1.votes_needed,
        start_election_step(s).0.current_term == s.current_term + 1,
        start_election_step(s).0.voted_for == Some(s.id),
        start_election_step(s).0.target_state == s.target_state,
{
}

/// Any two sets of peers that each reach the majority an election needs
/// share at least one peer, so no two candidates can both collect a
/// majority from voters that vote once.
pub proof fn lemma_majorities_intersect<A>(peers: Set<A>, a: Set<A>, b: Set<A>)
    requires
        peers.finite(),
        a.subset_of(peers),
        b.subset_of(peers),
        a.len() >= majority(peers.len()),
        b.len() >= majority(peers.len()),
    ensures
        exists|x: A| a.contains(x) && b.contains(x),
{
    lemma_len_subset(a, peers);
    lemma_len_subset(b, peers);
    lemma_set_intersect_union_lens(a, b);
    assert((a + b).subset_of(peers));
    lemma_len_subset(a + b, peers);
    assert(a.intersect(b).len() > 0);
    let x = a.intersect(b).choose();
    assert(a.intersect(b).contains(x));
}

} // verus!
