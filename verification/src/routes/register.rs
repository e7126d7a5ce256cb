use vstd::prelude::*;

use crate::node::{NodeInfo, NodeView, single_entry_request};
use crate::operation::{
    Entry, EntryView, Operation, OperationType, OperationView, clone_entries, clone_strings, entries_view,
    strings_view,
};
use crate::routes::operation::{OperationRequest, push_entry};

verus! {

/// A node asking the leader to join the cluster.
pub struct RegisterRequest {
    pub sender: String,
    pub term: i32,
}

/// The leader's answer to a registration: its term, its peers before the
/// new node joined, its log and its queue.
pub struct RegisterResponse {
    pub accepted: bool,
    pub term: i32,
    pub peers: Vec<String>,
    pub log: Vec<Entry>,
    pub queue: Vec<String>,
}

#[verifier::ext_equal]
pub struct RegisterResponseView {
    pub accepted: bool,
    pub term: i32,
    pub peers: Seq<Seq<char>>,
    pub log: Seq<EntryView>,
    pub queue: Seq<Seq<char>>,
}

impl View for RegisterResponse {
    type V = RegisterResponseView;

    open spec fn view(&self) -> RegisterResponseView {
        RegisterResponseView {
            accepted: self.accepted,
            term: self.term,
            peers: strings_view(self.peers@),
            log: entries_view(self.log@),
            queue: strings_view(self.queue@),
        }
    }
}

/// The entry that adds `node` to the cluster.
pub open spec fn add_node_op(node: Seq<char>) -> OperationView {
    OperationView { operation_type: OperationType::AddNode, content: Some(node), is_committed: None }
}

/// Whether this node takes registrations: it is its own leader.
pub open spec fn takes_registrations(n: NodeView) -> bool {
    n.address == n.leader
}

/// What the leader does when `sender` has registered: it appends the entry
/// adding it and takes it as a peer, and answers with its peers from before.
/// Any other node refuses and changes nothing.
pub open spec fn register_outcome(n: NodeView, sender: Seq<char>) -> (NodeView, RegisterResponseView) {
    if takes_registrations(n) {
        let m = NodeView { peers: n.peers.push(sender), ..push_entry(n, (n.term, add_node_op(sender))) };
        (m, RegisterResponseView { accepted: true, term: n.term, peers: n.peers, log: m.log, queue: n.queue })
    } else {
        (n, RegisterResponseView { accepted: false, term: n.term, peers: n.peers, log: n.log, queue: n.queue })
    }
}

impl NodeInfo {
    /// The entry adding `sender`, to send to the peers before it joins, when
    /// this node takes registrations.
    pub fn add_node_request(&self, sender: &String) -> (r: Option<OperationRequest>)
        ensures
            r is Some == takes_registrations(self@),
            r is Some ==> r->0@ == single_entry_request(self@, add_node_op(sender@)),
    {
        if self.address == self.leader {
            let op = Operation {
                operation_type: OperationType::AddNode,
                content: Some(sender.clone()),
                is_committed: None,
            };
            let last = self.last_entry();
            Some(OperationRequest::single((self.term, op), self.address.clone(), last, self.term))
        } else {
            None
        }
    }

    /// Completes a registration once the peers have been told.
    pub fn finish_register(&mut self, request: &RegisterRequest) -> (response: RegisterResponse)
        ensures
            (final(self)@, response@) == register_outcome(old(self)@, request.sender@),
    {
        let ghost n = self@;
        let peers = clone_strings(&self.peers);
        if self.address == self.leader {
            let op = Operation {
                operation_type: OperationType::AddNode,
                content: Some(request.sender.clone()),
                is_committed: None,
            };
            let term = self.term;
            self.log.push((term, op));
            self.peers.push(request.sender.clone());
            assert(self@.log =~= n.log.push((n.term, add_node_op(request.sender@))));
            assert(self@.peers =~= n.peers.push(request.sender@));
            let response = RegisterResponse {
                accepted: true,
                term: self.term,
                peers: peers,
                log: clone_entries(&self.log),
                queue: clone_strings(&self.queue),
            };
            assert(response@ =~= register_outcome(n, request.sender@).1);
            response
        } else {
            let response = RegisterResponse {
                accepted: false,
                term: self.term,
                peers: peers,
                log: clone_entries(&self.log),
                queue: clone_strings(&self.queue),
            };
            assert(response@ =~= register_outcome(n, request.sender@).1);
            response
        }
    }
}

} // verus!
