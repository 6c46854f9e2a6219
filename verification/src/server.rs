//! The cluster a node is started in.
use crate::raft::{peer_views, Peer, PeerView};
use vstd::prelude::*;

verus! {

/// The members of the cluster: node 0 at `http://localhost:8000` and
/// node 1 at `http://localhost:8001`.
pub fn initial_peers() -> (r: Vec<Peer>)
    ensures
        peer_views(r@) == seq![
            PeerView { id: 0, endpoint: "http://localhost:8000"@ },
            PeerView { id: 1, endpoint: "http://localhost:8001"@ },
        ],
{
    let mut peers: Vec<Peer> = Vec::new();
    peers.push(Peer { id: 0, endpoint: "http://localhost:8000".to_owned() });
    peers.push(Peer { id: 1, endpoint: "http://localhost:8001".to_owned() });
    assert(peer_views(peers@) =~= seq![
        PeerView { id: 0, endpoint: "http://localhost:8000"@ },
        PeerView { id: 1, endpoint: "http://localhost:8001"@ },
    ]);
    peers
}

} // verus!
