# flotte

A small Raft node. The library in `src/` holds the node's state and the
rules that change it on each request, answer and expired timer, verified
with Verus:

- `raft.rs`: peers, roles (`State`), the node (`Raft`) with its election
  timer, and a candidate's tally (`CandidateState`).
- `vote.rs`: answering vote requests and counting vote answers.
- `handlers.rs`: answering append-entries requests.
- `replication.rs`: the heartbeat a leader sends.
- `server.rs`: the cluster's members.
- `timer.rs`: the election timer, armed now with a random delay (tokio's
  clock, rand).
- `laws.rs`: over any run of requests, timeouts, election rounds and vote
  answers: one vote per term, terms that never go down, leadership only
  with a majority within a round, and majorities that always overlap.

`app/` is the process around it: the gRPC service and client, the node's
task that waits on timers and calls (and opens a new election round when a
candidate's timer fires), and the leader's heartbeat tasks.
