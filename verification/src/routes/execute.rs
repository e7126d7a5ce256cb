use vstd::prelude::*;

use crate::node::{NodeInfo, NodeType, NodeView, single_entry_request};
use crate::operation::{Operation, OperationType, OperationView, clone_entries, clone_opt_string, opt_string_view};
use crate::repair::{Replication, ReplicationView};
use crate::routes::operation::{ApplyStep, OperationRequest, OperationRequestView, apply_commit, push_entry};

verus! {

/// A client's request to enqueue or dequeue.
pub struct ExecuteRequest {
    pub operation_type: OperationType,
    pub content: Option<String>,
}

/// Whether the cluster committed the client's request.
pub struct ExecuteResponse {
    pub accepted: bool,
}

/// The entry a client's request becomes.
pub open spec fn requested_op(operation_type: OperationType, content: Option<Seq<char>>) -> OperationView {
    OperationView { operation_type: operation_type, content: content, is_committed: None }
}

/// What a node does first with a client's request: a leader appends it to
/// its log and starts a round sending it to its followers, following the
/// entry that was last before it, with its log from before as the log that
/// repairs walk back through; any other node does nothing.
pub open spec fn execute_begin_outcome(n: NodeView, op: OperationView) -> (NodeView, Option<ReplicationView>) {
    if n.node_type == NodeType::Leader {
        (
            push_entry(n, (n.term, op)),
            Some(
                ReplicationView {
                    log: n.log,
                    request: single_entry_request(n, op),
                    peers: n.peers.len(),
                    acks: Seq::empty(),
                },
            ),
        )
    } else {
        (n, None)
    }
}

/// The entry that tells followers to commit their last entry.
pub open spec fn commit_op() -> OperationView {
    OperationView { operation_type: OperationType::Commit, content: None, is_committed: Some(true) }
}

/// What a leader does to commit its last entry: it applies it to the queue,
/// marks it committed, then appends a commit entry; the commit request for
/// the followers follows the last entry as it was before.
pub open spec fn commit_outcome(n: NodeView) -> (NodeView, OperationRequestView) {
    match apply_commit(n) {
        ApplyStep::Applied(m) => (push_entry(m, (n.term, commit_op())), single_entry_request(n, commit_op())),
        _ => (n, single_entry_request(n, commit_op())),
    }
}

impl NodeInfo {
    /// The first step of a client's request: a leader appends the requested
    /// entry to its log and returns what to send its followers.
    pub fn begin_execute(&mut self, request: &ExecuteRequest) -> (r: Option<Replication>)
        ensures
            (final(self)@, match r {
                Some(q) => Some(q@),
                None => None,
            }) == execute_begin_outcome(old(self)@, requested_op(request.operation_type, opt_string_view(request.content))),
    {
        let ghost n = self@;
        let ghost op_v = requested_op(request.operation_type, opt_string_view(request.content));
        let operation = Operation {
            operation_type: request.operation_type,
            content: clone_opt_string(&request.content),
            is_committed: None,
        };
        let last = self.last_entry();
        if self.node_type == NodeType::Leader {
            let term = self.term;
            let to_send = Operation {
                operation_type: operation.operation_type,
                content: clone_opt_string(&operation.content),
                is_committed: None,
            };
            let out = OperationRequest::single((term, to_send), self.address.clone(), last, term);
            let round = Replication::with_log(clone_entries(&self.log), out, self.peers.len());
            self.log.push((term, operation));
            assert(self@.log =~= n.log.push((n.term, op_v)));
            Some(round)
        } else {
            None
        }
    }

    /// Commits the leader's last entry and returns the commit request for
    /// the followers.
    pub fn commit_executed(&mut self) -> (r: OperationRequest)
        requires
            apply_commit(old(self)@) is Applied,
        ensures
            (final(self)@, r@) == commit_outcome(old(self)@),
    {
        let ghost n = self@;
        let last = self.last_entry();
        let term = self.term;
        let address = self.address.clone();
        let _end = self.commit_last_entry();
        let ghost m = self@;
        let op = Operation { operation_type: OperationType::Commit, content: None, is_committed: Some(true) };
        let to_send = Operation { operation_type: OperationType::Commit, content: None, is_committed: Some(true) };
        self.log.push((term, op));
        assert(self@.log =~= m.log.push((n.term, commit_op())));
        OperationRequest::single((term, to_send), address, last, term)
    }
}

} // verus!
