use vstd::prelude::*;

use crate::node::{NodeInfo, NodeType, NodeView};
use crate::random::{millis_to_nanos, random_timeout};

verus! {

/// A leader's periodic message to its followers.
pub struct HeartbeatRequest {
    pub term: i32,
    pub address: String,
}

/// A follower's answer to a heartbeat.
pub struct HeartbeatResponse {
    pub accepted: bool,
}

/// What a node does with a heartbeat from `sender` in `term`, received at
/// `now`: a candidate steps its term back and takes `timeout` as its
/// election timeout; the sender becomes the known leader; a follower in the
/// same term accepts and records the heartbeat.
pub open spec fn heartbeat_outcome(n: NodeView, term: i32, sender: Seq<char>, now: u64, timeout: u64) -> (NodeView, bool) {
    let n1 = if n.node_type == NodeType::Candidate {
        NodeView { term: (n.term - 1) as i32, last_heartbeat_received: now, election_timeout: timeout, ..n }
    } else {
        n
    };
    let n2 = NodeView { leader: sender, ..n1 };
    if n2.term == term && n2.node_type == NodeType::Follower {
        (n2.heard_at(now), true)
    } else {
        (n2, false)
    }
}

/// The inputs on which the heartbeat handler fails: a candidate whose term
/// cannot be stepped back.
pub open spec fn heartbeat_fails(n: NodeView) -> bool {
    n.node_type == NodeType::Candidate && n.term == i32::MIN
}

impl NodeInfo {
    /// Answers a heartbeat received at `now`, taking `timeout` as the new
    /// election timeout should this node be a candidate.
    pub fn apply_heartbeat(&mut self, request: &HeartbeatRequest, now: u64, timeout: u64) -> (response: HeartbeatResponse)
        requires
            !heartbeat_fails(old(self)@),
        ensures
            (final(self)@, response.accepted) == heartbeat_outcome(old(self)@, request.term, request.address@, now, timeout),
    {
        if self.node_type == NodeType::Candidate {
            self.term = self.term - 1;
            self.last_heartbeat_received = now;
            self.election_timeout = timeout;
        }
        if !(self.leader == request.address) {
            self.leader = request.address.clone();
        }
        let resp: bool;
        if self.term == request.term {
            if self.node_type == NodeType::Follower {
                self.last_heartbeat_received = now;
                resp = true;
            } else {
                resp = false;
            }
        } else {
            resp = false;
        }
        HeartbeatResponse { accepted: resp }
    }

    /// Answers a heartbeat received at `now`; a candidate draws a new
    /// election timeout between 1 and 5 seconds.
    pub fn handle_heartbeat(&mut self, request: &HeartbeatRequest, now: u64) -> (response: HeartbeatResponse)
        requires
            !heartbeat_fails(old(self)@),
        ensures
            exists|ms: u64|
                1000 <= ms < 5000 && (final(self)@, response.accepted)
                    == heartbeat_outcome(old(self)@, request.term, request.address@, now, millis_to_nanos(ms)),
    {
        let t = random_timeout(1000, 5000);
        self.apply_heartbeat(request, now, t)
    }
}

} // verus!
