use vstd::prelude::*;

use crate::node::{NodeInfo, NodeType, NodeView};
use crate::random::{millis_to_nanos, random_timeout};

verus! {

/// A candidate asking for a node's vote in `term`.
pub struct ReqVoteRequest {
    pub candidate: String,
    pub term: i32,
}

/// Whether the vote was granted.
pub struct ReqVoteResponse {
    pub accepted: bool,
}

/// What a node does with a vote request for `term` received at `now`: it
/// notes that an election is under way and grants the vote exactly when its
/// own term is lower; a candidate withdraws, becoming a follower again with
/// its term stepped back and `timeout` as its election timeout.
pub open spec fn vote_outcome(n: NodeView, term: i32, now: u64, timeout: u64) -> (NodeView, bool) {
    let granted = n.term < term;
    let n1 = NodeView { election_status: true, ..n };
    if n.node_type == NodeType::Candidate {
        (
            NodeView {
                node_type: NodeType::Follower,
                term: (n.term - 1) as i32,
                last_heartbeat_received: now,
                election_timeout: timeout,
                ..n1
            },
            granted,
        )
    } else {
        (n1, granted)
    }
}

/// The inputs on which the vote handler fails: a candidate whose term
/// cannot be stepped back.
pub open spec fn vote_fails(n: NodeView) -> bool {
    n.node_type == NodeType::Candidate && n.term == i32::MIN
}

impl NodeInfo {
    /// Answers a vote request received at `now`, taking `timeout` as the new
    /// election timeout should this node be a candidate.
    pub fn apply_request_vote(&mut self, request: &ReqVoteRequest, now: u64, timeout: u64) -> (response: ReqVoteResponse)
        requires
            !vote_fails(old(self)@),
        ensures
            (final(self)@, response.accepted) == vote_outcome(old(self)@, request.term, now, timeout),
    {
        self.election_status = true;
        let res = self.term < request.term;
        if self.node_type == NodeType::Candidate {
            self.node_type = NodeType::Follower;
            self.term = self.term - 1;
            self.last_heartbeat_received = now;
            self.election_timeout = timeout;
        }
        ReqVoteResponse { accepted: res }
    }

    /// Answers a vote request received at `now`; a candidate draws a new
    /// election timeout between 30 and 45 seconds.
    pub fn handle_request_vote(&mut self, request: &ReqVoteRequest, now: u64) -> (response: ReqVoteResponse)
        requires
            !vote_fails(old(self)@),
        ensures
            exists|ms: u64|
                30000 <= ms < 45000 && (final(self)@, response.accepted) == vote_outcome(
                    old(self)@,
                    request.term,
                    now,
                    millis_to_nanos(ms),
                ),
    {
        let t = random_timeout(30000, 45000);
        self.apply_request_vote(request, now, t)
    }
}

} // verus!
