use vstd::prelude::*;

use crate::operation::{
    Entry, EntryView, Operation, OperationType, OperationView, clone_entries, clone_entry, clone_strings,
    entries_view, opt_entry_view, strings_view,
};
use crate::random::{millis_to_nanos, random_timeout};
use crate::routes::heartbeat::HeartbeatRequest;
use crate::routes::operation::{OperationRequest, OperationRequestView, push_entry};
use crate::routes::register::{RegisterRequest, RegisterResponse, RegisterResponseView};
use crate::routes::request_vote::ReqVoteRequest;

verus! {

/// The role a node plays in the cluster.
#[derive(PartialEq, Eq, Structural, Clone, Copy, Debug)]
pub enum NodeType {
    Follower,
    Leader,
    Candidate,
}

/// A node's whole state.  Times are nanoseconds: the instant of the last
/// heartbeat counts from the Unix epoch, the election timeout is a span.
pub struct NodeInfo {
    pub last_heartbeat_received: u64,
    pub election_timeout: u64,
    pub term: i32,
    pub address: String,
    pub leader: String,
    pub node_type: NodeType,
    pub peers: Vec<String>,
    pub log: Vec<Entry>,
    pub queue: Vec<String>,
    pub election_status: bool,
}

/// The mathematical value of a [`NodeInfo`].
#[verifier::ext_equal]
pub struct NodeView {
    pub last_heartbeat_received: u64,
    pub election_timeout: u64,
    pub term: i32,
    pub address: Seq<char>,
    pub leader: Seq<char>,
    pub node_type: NodeType,
    pub peers: Seq<Seq<char>>,
    pub log: Seq<EntryView>,
    pub queue: Seq<Seq<char>>,
    pub election_status: bool,
}

impl View for NodeInfo {
    type V = NodeView;

    open spec fn view(&self) -> NodeView {
        NodeView {
            last_heartbeat_received: self.last_heartbeat_received,
            election_timeout: self.election_timeout,
            term: self.term,
            address: self.address@,
            leader: self.leader@,
            node_type: self.node_type,
            peers: strings_view(self.peers@),
            log: entries_view(self.log@),
            queue: strings_view(self.queue@),
            election_status: self.election_status,
        }
    }
}

impl NodeView {
    /// The same state, having heard from the leader at `now`.
    pub open spec fn heard_at(self, now: u64) -> NodeView {
        NodeView { last_heartbeat_received: now, ..self }
    }

    /// The last entry of the log, if there is one.
    pub open spec fn last_entry(self) -> Option<EntryView> {
        if self.log.len() == 0 {
            None
        } else {
            Some(self.log.last())
        }
    }
}

/// A freshly started follower that knows only its own address and the
/// leader's, with the given election timeout.
pub open spec fn initial_node(address: Seq<char>, leader: Seq<char>, now: u64, timeout: u64) -> NodeView {
    NodeView {
        last_heartbeat_received: now,
        election_timeout: timeout,
        term: 0,
        address: address,
        leader: leader,
        node_type: NodeType::Follower,
        peers: Seq::empty(),
        log: Seq::empty(),
        queue: Seq::empty(),
        election_status: false,
    }
}

impl NodeInfo {
    /// A new follower whose election timeout is `election_timeout`.
    pub fn with_election_timeout(address: String, leader: String, now: u64, election_timeout: u64) -> (r: NodeInfo)
        ensures
            r@ == initial_node(address@, leader@, now, election_timeout),
    {
        let r = NodeInfo {
            last_heartbeat_received: now,
            election_timeout: election_timeout,
            term: 0,
            address: address,
            leader: leader,
            node_type: NodeType::Follower,
            peers: Vec::new(),
            log: Vec::new(),
            queue: Vec::new(),
            election_status: false,
        };
        assert(r@ =~= initial_node(r.address@, r.leader@, now, election_timeout));
        r
    }

    /// A new follower started at `now`, with an election timeout drawn at
    /// random between 30 and 45 seconds.
    pub fn new(address: String, leader: String, now: u64) -> (r: NodeInfo)
        ensures
            r@ == initial_node(address@, leader@, now, r.election_timeout),
            exists|ms: u64| 30000 <= ms < 45000 && r.election_timeout == millis_to_nanos(ms),
    {
        let timeout = random_timeout(30000, 45000);
        NodeInfo::with_election_timeout(address, leader, now, timeout)
    }

    /// The last entry of the log, copied.
    pub fn last_entry(&self) -> (r: Option<Entry>)
        ensures
            opt_entry_view(r) == self@.last_entry(),
    {
        if self.log.len() > 0 {
            Some(clone_entry(&self.log[self.log.len() - 1]))
        } else {
            None
        }
    }
}

/// What a node makes of the leader's answer to its registration, received
/// at `now`: when accepted, it adopts the leader's term, log and queue, and
/// knows the leader and the leader's other peers; otherwise nothing changes.
pub open spec fn registration_adopted(n: NodeView, r: RegisterResponseView, now: u64) -> NodeView {
    if r.accepted {
        NodeView {
            last_heartbeat_received: now,
            term: r.term,
            peers: n.peers.push(n.leader) + r.peers,
            log: r.log,
            queue: r.queue,
            ..n
        }
    } else {
        n
    }
}

/// How many of the answers are yes.
pub open spec fn count_true(s: Seq<bool>) -> nat
    decreases s.len(),
{
    if s.len() == 0 {
        0
    } else {
        count_true(s.drop_last()) + if s.last() {
            1nat
        } else {
            0nat
        }
    }
}

/// Counts the yes answers.
pub fn count_yes(answers: &Vec<bool>) -> (r: usize)
    ensures
        r == count_true(answers@),
{
    let mut r: usize = 0;
    let mut i: usize = 0;
    while i < answers.len()
        invariant
            i <= answers.len(),
            r == count_true(answers@.take(i as int)),
            r <= i,
        decreases answers.len() - i,
    {
        assert(answers@.take(i + 1).drop_last() =~= answers@.take(i as int));
        if answers[i] {
            r = r + 1;
        }
        i = i + 1;
    }
    assert(answers@.take(answers.len() as int) =~= answers@);
    r
}

/// The elements of `s` whose place in `keep` is true, in order.
pub open spec fn select<A>(s: Seq<A>, keep: Seq<bool>) -> Seq<A>
    decreases s.len(),
{
    if s.len() == 0 || keep.len() == 0 {
        Seq::empty()
    } else if keep[s.len() - 1] {
        select(s.drop_last(), keep).push(s.last())
    } else {
        select(s.drop_last(), keep)
    }
}

/// What a node should do when its background loop comes round at `now`.
#[derive(PartialEq, Eq, Structural, Clone, Copy, Debug)]
pub enum Duty {
    /// A follower checks whether its election timeout has passed.
    CheckElection,
    /// A leader that has been quiet for more than two seconds sends a
    /// heartbeat.
    SendHeartbeat,
    /// Nothing to do.
    Idle,
}

/// The leader's quiet period, in nanoseconds (two seconds), before it sends
/// a heartbeat.
pub open spec fn heartbeat_interval() -> u64 {
    2000000000
}

pub open spec fn duty(n: NodeView, now: u64) -> Duty {
    match n.node_type {
        NodeType::Follower => Duty::CheckElection,
        NodeType::Leader => if now - n.last_heartbeat_received > heartbeat_interval() {
            Duty::SendHeartbeat
        } else {
            Duty::Idle
        },
        NodeType::Candidate => Duty::Idle,
    }
}

/// Whether a follower's election timeout has passed at `now` with no
/// election under way.
pub open spec fn election_due(n: NodeView, now: u64) -> bool {
    now - n.last_heartbeat_received > n.election_timeout && !n.election_status
}

/// The entry a new leader appends to announce itself.
pub open spec fn change_leader_op(leader: Seq<char>) -> OperationView {
    OperationView { operation_type: OperationType::ChangeLeader, content: Some(leader), is_committed: None }
}

/// A request of one new entry from this node, following its last entry.
pub open spec fn single_entry_request(n: NodeView, op: OperationView) -> OperationRequestView {
    OperationRequestView {
        operations: seq![(n.term, op)],
        sender: n.address,
        previous_log_entry: n.last_entry(),
        term: n.term,
    }
}

impl NodeInfo {
    /// Whether this node is the leader.
    pub fn is_leader(&self) -> (r: bool)
        ensures
            r == (self@.node_type == NodeType::Leader),
    {
        self.node_type == NodeType::Leader
    }

    /// A copy of the log.
    pub fn log_copy(&self) -> (r: Vec<Entry>)
        ensures
            entries_view(r@) == self@.log,
    {
        clone_entries(&self.log)
    }

    /// What the background loop should do at `now`.
    pub fn next_duty(&self, now: u64) -> (r: Duty)
        requires
            self@.node_type == NodeType::Leader ==> now >= self@.last_heartbeat_received,
        ensures
            r == duty(self@, now),
    {
        match self.node_type {
            NodeType::Follower => Duty::CheckElection,
            NodeType::Leader => if now - self.last_heartbeat_received > 2000000000 {
                Duty::SendHeartbeat
            } else {
                Duty::Idle
            },
            NodeType::Candidate => Duty::Idle,
        }
    }

    /// The first step of starting a node: a node that is its own leader
    /// becomes the leader and registers nowhere; any other node asks the
    /// leader to register it.
    pub fn begin_start(&mut self) -> (r: Option<RegisterRequest>)
        ensures
            old(self)@.address == old(self)@.leader ==> r is None
                && final(self)@ == (NodeView { node_type: NodeType::Leader, ..old(self)@ }),
            old(self)@.address != old(self)@.leader ==> r is Some && final(self)@ == old(self)@
                && r->0.sender@ == old(self)@.address && r->0.term == old(self)@.term,
    {
        if self.address == self.leader {
            self.node_type = NodeType::Leader;
            None
        } else {
            Some(RegisterRequest { sender: self.address.clone(), term: self.term })
        }
    }

    /// Takes the leader's answer to this node's registration, received at
    /// `now`: when accepted, the node adopts the leader's term, log and
    /// queue, and knows the leader and the leader's other peers.
    pub fn apply_register_response(&mut self, response: RegisterResponse, now: u64)
        ensures
            final(self)@ == registration_adopted(old(self)@, response@, now),
    {
        if response.accepted {
            let ghost n = self@;
            let mut peers = clone_strings(&self.peers);
            peers.push(self.leader.clone());
            let mut i: usize = 0;
            while i < response.peers.len()
                invariant
                    i <= response.peers.len(),
                    strings_view(peers@) == n.peers.push(n.leader) + strings_view(response.peers@.take(i as int)),
                decreases response.peers.len() - i,
            {
                let p = response.peers[i].clone();
                let ghost before = strings_view(peers@);
                peers.push(p);
                assert(strings_view(peers@) =~= before.push(p@));
                assert(strings_view(response.peers@.take(i + 1)) =~= strings_view(response.peers@.take(i as int)).push(p@));
                i = i + 1;
            }
            assert(response.peers@.take(response.peers.len() as int) =~= response.peers@);
            self.last_heartbeat_received = now;
            self.term = response.term;
            self.peers = peers;
            self.log = response.log;
            self.queue = response.queue;
        }
    }

    /// The heartbeat a leader sends.
    pub fn heartbeat_request(&self) -> (r: HeartbeatRequest)
        ensures
            r.term == self@.term,
            r.address@ == self@.address,
    {
        HeartbeatRequest { term: self.term, address: self.address.clone() }
    }

    /// After a round of heartbeats sent at `now`, a leader keeps exactly the
    /// peers its heartbeat reached, in order; `delivered` has one answer per
    /// peer.
    pub fn keep_reachable_peers(&mut self, delivered: &Vec<bool>, now: u64)
        requires
            delivered@.len() == old(self)@.peers.len(),
        ensures
            final(self)@ == (NodeView {
                peers: select(old(self)@.peers, delivered@),
                last_heartbeat_received: now,
                ..old(self)@
            }),
    {
        let ghost n = self@;
        let mut kept: Vec<String> = Vec::new();
        let mut i: usize = 0;
        while i < self.peers.len()
            invariant
                i <= self.peers.len(),
                self.peers.len() == delivered.len(),
                self@ == n,
                strings_view(kept@) == select(n.peers.take(i as int), delivered@),
            decreases self.peers.len() - i,
        {
            let ghost sofar = strings_view(kept@);
            assert(n.peers.take(i + 1).drop_last() =~= n.peers.take(i as int));
            if delivered[i] {
                let p = self.peers[i].clone();
                kept.push(p);
                assert(strings_view(kept@) =~= sofar.push(p@));
            }
            i = i + 1;
        }
        assert(n.peers.take(self.peers.len() as int) =~= n.peers);
        self.peers = kept;
        self.last_heartbeat_received = now;
    }

    /// Whether this node's election timeout has passed at `now` with no
    /// election under way.
    pub fn election_due_at(&self, now: u64) -> (r: bool)
        requires
            now >= self@.last_heartbeat_received,
        ensures
            r == election_due(self@, now),
    {
        now - self.last_heartbeat_received > self.election_timeout && !self.election_status
    }

    /// The start of an election at `now`: when the election timeout has
    /// passed and no election is under way, the node becomes a candidate
    /// for the next term and asks for votes.
    pub fn begin_election(&mut self, now: u64) -> (r: Option<ReqVoteRequest>)
        requires
            now >= old(self)@.last_heartbeat_received,
            election_due(old(self)@, now) ==> old(self)@.term < i32::MAX,
        ensures
            election_due(old(self)@, now) ==> r is Some && final(self)@ == (NodeView {
                node_type: NodeType::Candidate,
                term: (old(self)@.term + 1) as i32,
                ..old(self)@
            }) && r->0.candidate@ == old(self)@.address && r->0.term == old(self)@.term + 1,
            !election_due(old(self)@, now) ==> r is None && final(self)@ == old(self)@,
    {
        if now - self.last_heartbeat_received > self.election_timeout && !self.election_status {
            self.node_type = NodeType::Candidate;
            self.term = self.term + 1;
            Some(ReqVoteRequest { candidate: self.address.clone(), term: self.term })
        } else {
            None
        }
    }

    /// A candidate claims leadership: it takes itself as the leader and
    /// returns the leader change to send to its peers.
    pub fn claim_leadership(&mut self) -> (r: OperationRequest)
        ensures
            final(self)@ == (NodeView { leader: old(self)@.address, ..old(self)@ }),
            r@ == single_entry_request(old(self)@, change_leader_op(old(self)@.address)),
    {
        self.leader = self.address.clone();
        let op = Operation {
            operation_type: OperationType::ChangeLeader,
            content: Some(self.leader.clone()),
            is_committed: None,
        };
        let last = self.last_entry();
        OperationRequest::single((self.term, op), self.address.clone(), last, self.term)
    }

    /// A candidate that has sent its leader change becomes the leader and
    /// appends the change to its own log.
    pub fn complete_leadership(&mut self)
        ensures
            final(self)@ == push_entry(
                NodeView { node_type: NodeType::Leader, ..old(self)@ },
                (old(self)@.term, change_leader_op(old(self)@.leader)),
            ),
    {
        let ghost n = self@;
        self.node_type = NodeType::Leader;
        let op = Operation {
            operation_type: OperationType::ChangeLeader,
            content: Some(self.leader.clone()),
            is_committed: None,
        };
        let term = self.term;
        self.log.push((term, op));
        assert(self@.log =~= n.log.push((n.term, change_leader_op(n.leader))));
    }
}

/// Whether a candidate with these votes (one per peer that answered) has
/// won: at least half of the answers are yes.
pub open spec fn election_won(votes: Seq<bool>) -> bool {
    count_true(votes) >= votes.len() / 2
}

/// Whether a candidate with these votes has won the election.
pub fn won_election(votes: &Vec<bool>) -> (r: bool)
    ensures
        r == election_won(votes@),
{
    count_yes(votes) >= votes.len() / 2
}

} // verus!
