//! A node's durable Raft state, its peers, and the roles it moves between.
use crate::structs::VoteRequest;
use crate::timer::{fresh_election_timer, ElectionTimer};
use vstd::prelude::*;

verus! {

/// A member of the cluster: its id and the address it serves Raft on.
#[derive(Debug, Clone, PartialEq, Eq, Hash)]
pub struct Peer {
    pub id: u64,
    pub endpoint: String,
}

/// What a `Peer` is: an id and the characters of its endpoint.
pub struct PeerView {
    pub id: u64,
    pub endpoint: Seq<char>,
}

impl View for Peer {
    type V = PeerView;

    open spec fn view(&self) -> PeerView {
        PeerView { id: self.id, endpoint: self.endpoint@ }
    }
}

/// The views of a sequence of peers.
pub open spec fn peer_views(peers: Seq<Peer>) -> Seq<PeerView> {
    peers.map_values(|p: Peer| p@)
}

/// The role a node is in, or is about to switch to.
#[derive(Debug, Clone, Copy, PartialEq, Eq, Structural)]
pub enum State {
    Leader,
    Follower,
    Candidate,
}

impl State {
    pub fn is_leader(&self) -> (r: bool)
        ensures
            r == (*self is Leader),
    {
        matches!(self, State::Leader)
    }

    pub fn is_follower(&self) -> (r: bool)
        ensures
            r == (*self is Follower),
    {
        matches!(self, State::Follower)
    }

    pub fn is_candidate(&self) -> (r: bool)
        ensures
            r == (*self is Candidate),
    {
        matches!(self, State::Candidate)
    }
}

/// The votes that make a majority of `n` peers.
pub open spec fn majority(n: nat) -> nat {
    n / 2 + 1
}

/// A node's Raft state, the election deadline aside.
pub struct RaftView {
    pub id: u64,
    pub peers: Seq<PeerView>,
    pub current_term: u64,
    pub voted_for: Option<u64>,
    pub target_state: State,
}

/// A Raft node: who it is, whom it knows, its term, its vote in that term,
/// the role it is in, and when its election timer fires.
pub struct Raft {
    pub id: u64,
    pub peers: Vec<Peer>,
    pub current_term: u64,
    pub voted_for: Option<u64>,
    pub target_state: State,
    pub election_timeout: Option<ElectionTimer>,
}

impl View for Raft {
    type V = RaftView;

    open spec fn view(&self) -> RaftView {
        RaftView {
            id: self.id,
            peers: peer_views(self.peers@),
            current_term: self.current_term,
            voted_for: self.voted_for,
            target_state: self.target_state,
        }
    }
}

/// Whether `peers` holds a peer equal to `p`.
fn contains_peer(peers: &Vec<Peer>, p: &Peer) -> (r: bool)
    ensures
        r == peer_views(peers@).contains(p@),
{
    let mut j: usize = 0;
    while j < peers.len()
        invariant
            j <= peers.len(),
            forall|k: int| 0 <= k < j ==> peers@[k]@ != p@,
        decreases peers.len() - j,
    {
        if peers[j].id == p.id && peers[j].endpoint == p.endpoint {
            assert(peer_views(peers@)[j as int] == p@);
            return true;
        }
        j += 1;
    }
    proof {
        if peer_views(peers@).contains(p@) {
            let k = choose|k: int| 0 <= k < peer_views(peers@).len() && peer_views(peers@)[k] == p@;
            assert(peers@[k]@ == p@);
        }
    }
    false
}

impl Raft {
    /// The election timer, if one is set.
    pub open spec fn election_deadline(&self) -> Option<ElectionTimer> {
        self.election_timeout
    }

    /// Each peer is known once, as in a set.
    pub open spec fn well_formed(&self) -> bool {
        self@.peers.no_duplicates()
    }

    /// A follower in term 0 that has voted for nobody and has no timer set,
    /// knowing each of `peers` once, as a set holds them.
    pub fn new(id: u64, peers: Vec<Peer>) -> (r: Raft)
        ensures
            r@.id == id,
            r@.current_term == 0,
            r@.voted_for is None,
            r@.target_state == State::Follower,
            r.election_deadline() is None,
            r.well_formed(),
            r@.peers.no_duplicates(),
            forall|v: PeerView| r@.peers.contains(v) <==> peer_views(peers@).contains(v),
    {
        let mut unique: Vec<Peer> = Vec::new();
        let mut i: usize = 0;
        while i < peers.len()
            invariant
                i <= peers.len(),
                peer_views(unique@).no_duplicates(),
                forall|v: PeerView|
                    peer_views(unique@).contains(v) <==> peer_views(peers@.take(i as int)).contains(v),
            decreases peers.len() - i,
        {
            let p = &peers[i];
            let ghost before = unique@;
            assert(peers@.take(i as int + 1) =~= peers@.take(i as int).push(peers@[i as int]));
            assert(peer_views(peers@.take(i as int + 1)) =~= peer_views(peers@.take(i as int)).push(
                p@,
            ));
            let found = contains_peer(&unique, p);
            if !found {
                unique.push(Peer { id: p.id, endpoint: p.endpoint.clone() });
                assert(peer_views(unique@) =~= peer_views(before).push(p@));
            }
            proof {
                let seen = peer_views(peers@.take(i as int));
                let now = peer_views(unique@);
                let was = peer_views(before);
                assert forall|v: PeerView| #[trigger] seen.push(p@).contains(v) <==> (seen.contains(v) || v == p@) by {
                    if seen.push(p@).contains(v) && v != p@ {
                        let k = choose|k: int| 0 <= k < seen.push(p@).len() && seen.push(p@)[k] == v;
                        assert(seen[k] == v);
                    }
                    if seen.contains(v) {
                        let k = choose|k: int| 0 <= k < seen.len() && seen[k] == v;
                        assert(seen.push(p@)[k] == v);
                    }
                    if v == p@ {
                        assert(seen.push(p@)[seen.len() as int] == v);
                    }
                }
                assert forall|v: PeerView| #[trigger] now.contains(v) <==> (was.contains(v) || v == p@) by {
                    if found {
                        assert(now == was);
                    } else {
                        assert(now == was.push(p@));
                        if now.contains(v) && v != p@ {
                            let k = choose|k: int| 0 <= k < now.len() && now[k] == v;
                            assert(was[k] == v);
                        }
                        if was.contains(v) {
                            let k = choose|k: int| 0 <= k < was.len() && was[k] == v;
                            assert(now[k] == v);
                        }
                        if v == p@ {
                            assert(now[was.len() as int] == v);
                        }
                    }
                }
            }
            i += 1;
        }
        assert(peers@.take(peers.len() as int) =~= peers@);
        Raft {
            id,
            peers: unique,
            current_term: 0,
            voted_for: None,
            target_state: State::Follower,
            election_timeout: None,
        }
    }

    /// The election timer; when none is set, a fresh one is drawn, set and
    /// returned.
    pub fn get_election_timeout(&mut self) -> (r: ElectionTimer)
        ensures
            final(self)@ == old(self)@,
            final(self).election_deadline() == Some(r),
            old(self).election_deadline() is Some ==> old(self).election_deadline() == Some(r),
            old(self).election_deadline() is None ==> r.in_election_window(),
    {
        match self.election_timeout {
            Some(timer) => timer,
            None => {
                let timer = fresh_election_timer();
                self.restart_election_timer(timer);
                timer
            },
        }
    }

    /// Restarts the election timer as `timer`, a timer whose delay lies in
    /// the election window, whatever was set before.
    pub fn restart_election_timer(&mut self, timer: ElectionTimer)
        requires
            timer.in_election_window(),
        ensures
            final(self)@ == old(self)@,
            final(self).election_deadline() == Some(timer),
    {
        self.election_timeout = Some(timer);
    }

    /// Restarts the election timer with a freshly drawn one, armed now with
    /// a delay in the election window.
    pub fn update_election_timeout(&mut self)
        ensures
            final(self)@ == old(self)@,
            final(self).election_deadline() matches Some(t) && t.in_election_window(),
    {
        let timer = fresh_election_timer();
        self.restart_election_timer(timer);
    }

    /// The election timer of a follower ran out: it turns candidate.
    pub fn election_timer_expired(&mut self)
        ensures
            final(self)@ == (RaftView { target_state: State::Candidate, ..old(self)@ }),
            final(self).election_deadline() == old(self).election_deadline(),
    {
        self.target_state = State::Candidate;
    }

    /// The peers a leader replicates to: every peer but the node itself,
    /// in the order the node holds them.
    pub fn replication_targets(&self) -> (r: Vec<Peer>)
        ensures
            peer_views(r@) == self@.peers.filter(|p: PeerView| p.id != self.id),
    {
        let ghost pred = |p: PeerView| p.id != self.id;
        let mut targets: Vec<Peer> = Vec::new();
        let mut i: usize = 0;
        while i < self.peers.len()
            invariant
                i <= self.peers.len(),
                pred == (|p: PeerView| p.id != self.id),
                peer_views(targets@) == peer_views(self.peers@.take(i as int)).filter(pred),
            decreases self.peers.len() - i,
        {
            let p = &self.peers[i];
            let ghost before = targets@;
            assert(self.peers@.take(i as int + 1) =~= self.peers@.take(i as int).push(*p));
            assert(peer_views(self.peers@.take(i as int + 1)) =~= peer_views(
                self.peers@.take(i as int),
            ).push(p@));
            proof {
                peer_views(self.peers@.take(i as int)).lemma_filter_push(p@, pred);
            }
            if p.id != self.id {
                targets.push(Peer { id: p.id, endpoint: p.endpoint.clone() });
                assert(peer_views(targets@) =~= peer_views(before).push(p@));
            }
            i += 1;
        }
        assert(self.peers@.take(self.peers.len() as int) =~= self.peers@);
        targets
    }
}

/// What opening an election round does to a node in state `s`: the node
/// moves to the next term and votes for itself, and the tally counts that
/// vote and needs a majority of the peers.
pub open spec fn start_election_step(s: RaftView) -> (RaftView, CandidateState) {
    (
        RaftView { current_term: (s.current_term + 1) as u64, voted_for: Some(s.id), ..s },
        CandidateState { votes_granted: 1, votes_needed: majority(s.peers.len()) as u64 },
    )
}

/// A candidate's tally for the election it is running.
pub struct CandidateState {
    pub votes_granted: u64,
    pub votes_needed: u64,
}

impl CandidateState {
    /// A tally with no votes counted and none yet needed.
    pub fn new() -> (r: CandidateState)
        ensures
            r.votes_granted == 0,
            r.votes_needed == 0,
    {
        CandidateState { votes_granted: 0, votes_needed: 0 }
    }

    /// Opens an election round: the node moves to the next term and votes
    /// for itself, the tally counts that vote and needs a majority of the
    /// peers, and the election timer is cleared so that the round's
    /// deadline is drawn afresh.
    pub fn start_election(&mut self, raft: &mut Raft)
        requires
            old(raft).current_term < u64::MAX,
            old(raft).well_formed(),
        ensures
            final(self).votes_granted == 1,
            final(self).votes_needed == majority(old(raft)@.peers.len()),
            final(self).votes_needed == old(raft).peers.len() / 2 + 1,
            2 * (final(self).votes_needed - 1) <= old(raft).peers.len() < 2 * final(self).votes_needed,
            final(raft)@ == (RaftView {
                current_term: (old(raft).current_term + 1) as u64,
                voted_for: Some(old(raft).id),
                ..old(raft)@
            }),
            final(raft).election_deadline() is None,
            (final(raft)@, *final(self)) == start_election_step(old(raft)@),
    {
        self.votes_granted = 1;
        self.votes_needed = ((raft.peers.len() / 2) + 1) as u64;
        raft.update_election_timeout();
        raft.current_term = raft.current_term + 1;
        raft.voted_for = Some(raft.id);
        raft.election_timeout = None;
    }

    /// The request a candidate sends each peer for its vote.
    pub fn vote_request(&self, raft: &Raft) -> (r: VoteRequest)
        ensures
            r == (VoteRequest {
                term: raft.current_term,
                candidate_id: raft.id,
                last_log_index: 0,
                last_log_term: 0,
            }),
    {
        VoteRequest {
            term: raft.current_term,
            candidate_id: raft.id,
            last_log_index: 0,
            last_log_term: 0,
        }
    }
}

} // verus!
