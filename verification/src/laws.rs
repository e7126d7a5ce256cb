use vstd::prelude::*;

use crate::node::{NodeType, NodeView, count_true, election_due, registration_adopted, select, single_entry_request};
use crate::operation::{EntryView, OperationType, OperationView, same_operation};
use crate::routes::execute::{commit_op, commit_outcome, execute_begin_outcome};
use crate::repair::{entry_before, lemma_start_retries, repair_start, replicated_on_majority, retries_from};
use crate::routes::heartbeat::{heartbeat_fails, heartbeat_outcome};
use crate::routes::operation::{
    ApplyStep, OperationError, OperationRequestView, apply_commit, apply_entries, apply_entry,
    lemma_apply_timeout_irrelevant, mark_last_committed, operation_fails, operation_outcome, previous_entry_matches,
};
use crate::routes::register::{add_node_op, register_outcome, takes_registrations};
use crate::routes::request_vote::vote_outcome;

verus! {

/// Whether `m`'s log keeps every entry of `n`'s log in place, with the same
/// term, kind and content, and committed if it was (a commit may have marked
/// it committed since).
pub open spec fn log_extends(n: Seq<EntryView>, m: Seq<EntryView>) -> bool {
    &&& n.len() <= m.len()
    &&& forall|i: int|
        0 <= i < n.len() ==> #[trigger] m[i].0 == n[i].0 && same_operation(m[i].1, n[i].1)
            && (n[i].1.is_committed == Some(true) ==> m[i].1.is_committed == Some(true))
}

/// The state a step of applying entries ends in, whether or not it stopped.
pub open spec fn step_state(s: ApplyStep, otherwise: NodeView) -> NodeView {
    match s {
        ApplyStep::Applied(m) => m,
        ApplyStep::QueueEmpty(m) => m,
        ApplyStep::Stuck => otherwise,
    }
}

proof fn lemma_entry_extends_log(n: NodeView, e: EntryView, t: u64)
    ensures
        log_extends(n.log, step_state(apply_entry(n, e, t), n).log),
{
    if e.1.operation_type == OperationType::Commit && n.log.len() > 0 {
        let marked = mark_last_committed(n.log);
        assert(log_extends(n.log, marked));
    }
}

/// Applying received entries only ever appends to a node's log: every entry
/// it had stays in place with its term, kind and content, and stays
/// committed if it was.
pub proof fn lemma_follower_log_only_grows(n: NodeView, es: Seq<EntryView>, t: u64)
    ensures
        log_extends(n.log, step_state(apply_entries(n, es, t), n).log),
    decreases es.len(),
{
    if es.len() > 0 {
        lemma_follower_log_only_grows(n, es.drop_last(), t);
        match apply_entries(n, es.drop_last(), t) {
            ApplyStep::Applied(m) => {
                lemma_entry_extends_log(m, es.last(), t);
                let k = step_state(apply_entry(m, es.last(), t), m).log;
                assert forall|i: int| 0 <= i < n.log.len() implies #[trigger] k[i].0 == n.log[i].0
                    && same_operation(k[i].1, n.log[i].1)
                    && (n.log[i].1.is_committed == Some(true) ==> k[i].1.is_committed == Some(true)) by {
                    assert(m.log[i].0 == n.log[i].0);
                }
            },
            _ => {},
        }
    }
}

/// Whatever operation request a node answers, its log afterwards keeps every
/// entry it had, in place, and keeps it committed if it was.
pub proof fn lemma_answering_only_appends(n: NodeView, r: OperationRequestView, now: u64, t: u64)
    requires
        !operation_fails(n, r),
    ensures
        log_extends(n.log, operation_outcome(n, r, now, t).0.log),
{
    let n1 = NodeView { term: r.term, ..n };
    lemma_apply_timeout_irrelevant(n1, n1, r.operations, 0, t);
    lemma_follower_log_only_grows(n1, r.operations, t);
}

/// Refusing an operation request changes nothing but the time the node
/// last heard from a leader.
pub proof fn lemma_refusal_changes_nothing(n: NodeView, r: OperationRequestView, now: u64, t: u64)
    requires
        !operation_fails(n, r),
        !operation_outcome(n, r, now, t).1.accepted,
        operation_outcome(n, r, now, t).1.flag != OperationError::InvalidOperation,
    ensures
        operation_outcome(n, r, now, t).0 == n.heard_at(now),
{
    let n1 = NodeView { term: r.term, ..n };
    lemma_apply_timeout_irrelevant(n1, n1, r.operations, 0, t);
}

/// `is_equal` is an equivalence that ignores commit marks.
pub proof fn lemma_same_operation_is_equivalence(a: OperationView, b: OperationView, c: OperationView)
    ensures
        same_operation(a, a),
        same_operation(a, b) ==> same_operation(b, a),
        same_operation(a, b) && same_operation(b, c) ==> same_operation(a, c),
        same_operation(a, OperationView { is_committed: Some(true), ..a }),
{
}

/// The queue a leader serves is first in, first out: an enqueue it executes
/// and commits puts its content at the back, a dequeue takes the front
/// element off.
pub proof fn lemma_leader_queue_is_fifo(n: NodeView, op: OperationView)
    requires
        n.node_type == NodeType::Leader,
        client_operation(op),
        op.operation_type == OperationType::Dequeue ==> n.queue.len() > 0,
    ensures
        ({
            let appended = execute_begin_outcome(n, op).0;
            let committed = commit_outcome(appended).0;
            &&& apply_commit(appended) is Applied
            &&& op.operation_type == OperationType::Queue ==> committed.queue == n.queue.push(op.content->0)
            &&& op.operation_type == OperationType::Dequeue ==> committed.queue == n.queue.drop_first()
        }),
{
}

/// Whether follower `f` takes requests from leader `n` without refusing
/// them before comparing logs.
pub open spec fn follows(f: NodeView, n: NodeView) -> bool {
    &&& f.leader == n.address || f.election_status
    &&& f.term <= n.term
    &&& f.node_type != NodeType::Candidate
}

/// Whether a client's operation is an enqueue with content or a dequeue.
pub open spec fn client_operation(op: OperationView) -> bool {
    (op.operation_type == OperationType::Queue && op.content is Some) || op.operation_type == OperationType::Dequeue
}

/// A follower whose log is the leader's accepts the entry the leader
/// appends for a client and then holds the same log as the leader.
pub proof fn lemma_follower_replicates_client_entry(n: NodeView, f: NodeView, op: OperationView, now: u64, t: u64)
    requires
        n.node_type == NodeType::Leader,
        follows(f, n),
        f.log == n.log,
        client_operation(op),
    ensures
        ({
            let (leader_after, request) = execute_begin_outcome(n, op);
            let (follower_after, response) = operation_outcome(f, request->0.request, now, t);
            &&& response.accepted
            &&& follower_after.log == leader_after.log
            &&& follower_after.queue == f.queue
        }),
{
    let r = single_entry_request(n, op);
    let f1 = NodeView { term: r.term, ..f };
    assert(previous_entry_matches(f, r.previous_log_entry));
    assert(r.operations.drop_last() =~= Seq::<EntryView>::empty());
    assert(apply_entries(f1, r.operations.drop_last(), t) == ApplyStep::Applied(f1));
    assert(apply_entries(f1, r.operations, t) == apply_entry(f1, r.operations.last(), t));
}

/// A follower whose log and queue are the leader's accepts the leader's
/// commit and then holds the same log and the same queue as the leader.
pub proof fn lemma_follower_commits_like_leader(n: NodeView, f: NodeView, now: u64, t: u64)
    requires
        follows(f, n),
        f.log == n.log,
        f.queue == n.queue,
        apply_commit(n) is Applied,
    ensures
        ({
            let (leader_after, request) = commit_outcome(n);
            let (follower_after, response) = operation_outcome(f, request, now, t);
            &&& response.accepted
            &&& follower_after.log == leader_after.log
            &&& follower_after.queue == leader_after.queue
        }),
{
    let r = single_entry_request(n, commit_op());
    let f1 = NodeView { term: r.term, ..f };
    assert(previous_entry_matches(f, r.previous_log_entry));
    assert(r.operations.drop_last() =~= Seq::<EntryView>::empty());
    assert(apply_entries(f1, r.operations.drop_last(), t) == ApplyStep::Applied(f1));
    assert(apply_entries(f1, r.operations, t) == apply_entry(f1, r.operations.last(), t));
}

/// A candidate that withdraws, on a vote request or a heartbeat, is back at
/// the term it had before it stood for election.
pub proof fn lemma_withdrawn_candidacy_restores_term(
    n: NodeView,
    now: u64,
    vote_term: i32,
    sender: Seq<char>,
    later: u64,
    t: u64,
)
    requires
        election_due(n, now),
        n.term < i32::MAX,
    ensures
        ({
            let candidate = NodeView { node_type: NodeType::Candidate, term: (n.term + 1) as i32, ..n };
            &&& vote_outcome(candidate, vote_term, later, t).0.term == n.term
            &&& vote_outcome(candidate, vote_term, later, t).0.node_type == NodeType::Follower
            &&& heartbeat_outcome(candidate, vote_term, sender, later, t).0.term == n.term
        }),
{
}

/// A node that registers with the leader ends with the leader's term, log
/// (which ends with the entry adding it) and queue, and knows the leader and
/// every peer the leader had before.
pub proof fn lemma_newcomer_adopts_leader_state(leader: NodeView, newcomer: NodeView, now: u64)
    requires
        takes_registrations(leader),
    ensures
        ({
            let (leader_after, response) = register_outcome(leader, newcomer.address);
            let joined = registration_adopted(newcomer, response, now);
            &&& joined.log == leader_after.log
            &&& joined.log.last() == (leader.term, add_node_op(newcomer.address))
            &&& joined.queue == leader_after.queue
            &&& joined.term == leader_after.term
            &&& joined.peers == newcomer.peers.push(newcomer.leader) + leader.peers
            &&& leader_after.peers == leader.peers.push(newcomer.address)
        }),
{
}

/// The nodes that the add-node entries among `es` add, in order.
pub open spec fn added_nodes(es: Seq<EntryView>) -> Seq<Seq<char>>
    decreases es.len(),
{
    if es.len() == 0 {
        Seq::empty()
    } else if es.last().1.operation_type == OperationType::AddNode && es.last().1.content is Some {
        added_nodes(es.drop_last()).push(es.last().1.content->0)
    } else {
        added_nodes(es.drop_last())
    }
}

/// Whether no entry of `es` is of kind `k`.
pub open spec fn none_of_kind(es: Seq<EntryView>, k: OperationType) -> bool {
    forall|i: int| 0 <= i < es.len() ==> #[trigger] es[i].1.operation_type != k
}

proof fn lemma_entries_frame(n: NodeView, es: Seq<EntryView>, t: u64)
    ensures
        apply_entries(n, es, t) matches ApplyStep::Applied(m) ==> m.peers == n.peers + added_nodes(es),
        none_of_kind(es, OperationType::AddNode) ==> step_state(apply_entries(n, es, t), n).peers == n.peers,
        none_of_kind(es, OperationType::Commit) ==> step_state(apply_entries(n, es, t), n).queue == n.queue,
    decreases es.len(),
{
    if es.len() == 0 {
        assert(n.peers + Seq::<Seq<char>>::empty() =~= n.peers);
    } else {
        let d = es.drop_last();
        lemma_entries_frame(n, d, t);
        assert forall|k: OperationType| none_of_kind(es, k) implies none_of_kind(d, k) by {
            assert forall|i: int| 0 <= i < d.len() implies #[trigger] d[i].1.operation_type != k by {
                assert(d[i] == es[i]);
            }
        }
        assert(es.last() == es[es.len() - 1]);
        match apply_entries(n, d, t) {
            ApplyStep::Applied(m) => {
                let e = es.last();
                if e.1.operation_type == OperationType::AddNode && e.1.content is Some {
                    assert(n.peers + added_nodes(d).push(e.1.content->0) =~= (n.peers + added_nodes(d)).push(
                        e.1.content->0,
                    ));
                }
            },
            _ => {},
        }
    }
}

/// Answering an operation request changes the queue only through commits
/// and the peers only through add-node entries; an accepted request adds
/// the nodes of its add-node entries to the peers, in order.
pub proof fn lemma_operation_frame(n: NodeView, r: OperationRequestView, now: u64, t: u64)
    requires
        !operation_fails(n, r),
    ensures
        none_of_kind(r.operations, OperationType::Commit) ==> operation_outcome(n, r, now, t).0.queue == n.queue,
        none_of_kind(r.operations, OperationType::AddNode) ==> operation_outcome(n, r, now, t).0.peers == n.peers,
        operation_outcome(n, r, now, t).1.accepted ==> operation_outcome(n, r, now, t).0.peers == n.peers
            + added_nodes(r.operations),
{
    let n1 = NodeView { term: r.term, ..n };
    lemma_apply_timeout_irrelevant(n1, n1, r.operations, 0, t);
    lemma_entries_frame(n1, r.operations, t);
}

/// A heartbeat makes its sender the known leader and touches neither the
/// node's role, log, queue, peers nor election mark; it is accepted only by
/// a follower in the sender's term.
pub proof fn lemma_heartbeat_frame(n: NodeView, term: i32, sender: Seq<char>, now: u64, t: u64)
    requires
        !heartbeat_fails(n),
    ensures
        ({
            let (m, accepted) = heartbeat_outcome(n, term, sender, now, t);
            &&& m.leader == sender
            &&& m.node_type == n.node_type
            &&& m.log == n.log
            &&& m.queue == n.queue
            &&& m.peers == n.peers
            &&& m.election_status == n.election_status
            &&& accepted ==> n.node_type == NodeType::Follower && n.term == term
        }),
{
}

/// A leader that must repair a follower during `execute` walks back through
/// its log as it was before the client's entry: the first retry carries its
/// last entry and the client's entry once, and follows the entry before
/// the carried one.
pub proof fn lemma_execute_repair_retries(n: NodeView, op: OperationView)
    requires
        n.node_type == NodeType::Leader,
        n.log.len() > 0,
    ensures
        ({
            let round = execute_begin_outcome(n, op).1->0;
            let first = repair_start(round.log, round.request);
            &&& round.log == n.log
            &&& retries_from(first, round.request)
            &&& first.request.operations == seq![n.log.last(), (n.term, op)]
            &&& first.request.previous_log_entry == entry_before(n.log, (n.log.len() - 1) as nat)
        }),
{
    let round = execute_begin_outcome(n, op).1->0;
    lemma_start_retries(round.log, round.request);
    assert(n.log.subrange(n.log.len() - 1, n.log.len() as int) =~= seq![n.log.last()]);
    assert(repair_start(round.log, round.request).request.operations =~= seq![n.log.last(), (n.term, op)]);
}

/// A follower accepts an operation request only when the request's previous
/// entry is its own last entry: none for an empty log, otherwise an entry
/// of the same term, kind and content.
pub proof fn lemma_accepted_only_after_matching_entry(n: NodeView, r: OperationRequestView, now: u64, t: u64)
    ensures
        operation_outcome(n, r, now, t).1.accepted ==> {
            &&& n.log.len() == 0 ==> r.previous_log_entry is None
            &&& n.log.len() > 0 ==> {
                let prev = r.previous_log_entry->0;
                &&& r.previous_log_entry is Some
                &&& prev.0 == n.log.last().0
                &&& prev.1.operation_type == n.log.last().1.operation_type
                &&& prev.1.content == n.log.last().1.content
            }
        },
{
}

/// A leader's round for a client request goes to all of its peers, and it
/// commits only when more than half of all of its peers acknowledged.
pub proof fn lemma_execute_round_counts_all_peers(n: NodeView, op: OperationView, acks: Seq<bool>)
    requires
        n.node_type == NodeType::Leader,
    ensures
        execute_begin_outcome(n, op).1 is Some,
        execute_begin_outcome(n, op).1->0.peers == n.peers.len(),
        replicated_on_majority(acks, execute_begin_outcome(n, op).1->0.peers) <==> count_true(acks) >= n.peers.len()
            / 2 + 1,
{
}

/// Registering a node only appends to the leader's log: every entry the
/// leader had stays, followed by the entry adding the node, and the
/// newcomer is sent exactly that log.
pub proof fn lemma_registration_only_appends(n: NodeView, sender: Seq<char>)
    requires
        takes_registrations(n),
    ensures
        ({
            let (m, response) = register_outcome(n, sender);
            &&& m.log.len() == n.log.len() + 1
            &&& m.log.subrange(0, n.log.len() as int) == n.log
            &&& m.log.last() == (n.term, add_node_op(sender))
            &&& log_extends(n.log, m.log)
            &&& response.accepted
            &&& response.log == m.log
            &&& response.queue == n.queue
            &&& m.queue == n.queue
        }),
{
    let m = register_outcome(n, sender).0;
    assert(m.log.subrange(0, n.log.len() as int) =~= n.log);
}

/// A vote is granted exactly when the node's own term is lower than the
/// term the candidate asks for, whatever the node's role.
pub proof fn lemma_vote_granted_iff_lower_term(n: NodeView, term: i32, now: u64, t: u64)
    ensures
        vote_outcome(n, term, now, t).1 == (n.term < term),
        vote_outcome(n, term, now, t).0.election_status,
{
}

/// An election is due only once more time than the election timeout has
/// passed since the last heartbeat: a node that has just heard from its
/// leader is never due, and nor is one with an election under way.
pub proof fn lemma_election_due_only_after_timeout(n: NodeView, now: u64)
    ensures
        election_due(n, now) ==> now - n.last_heartbeat_received > n.election_timeout,
        election_due(n, now) ==> !n.election_status,
        !election_due(n.heard_at(now), now),
        now >= n.last_heartbeat_received && now - n.last_heartbeat_received <= n.election_timeout ==> !election_due(
            n,
            now,
        ),
{
}

/// When every heartbeat is delivered, a leader keeps all of its peers.
pub proof fn lemma_all_delivered_keeps_peers(peers: Seq<Seq<char>>, delivered: Seq<bool>)
    requires
        delivered.len() == peers.len(),
        forall|i: int| 0 <= i < delivered.len() ==> delivered[i],
    ensures
        select(peers, delivered) == peers,
    decreases peers.len(),
{
    if peers.len() > 0 {
        lemma_all_delivered_keeps_peers_prefix(peers, delivered);
    }
}

proof fn lemma_all_delivered_keeps_peers_prefix(peers: Seq<Seq<char>>, delivered: Seq<bool>)
    requires
        delivered.len() >= peers.len(),
        forall|i: int| 0 <= i < delivered.len() ==> delivered[i],
    ensures
        select(peers, delivered) == peers,
    decreases peers.len(),
{
    if peers.len() > 0 {
        lemma_all_delivered_keeps_peers_prefix(peers.drop_last(), delivered);
        assert(peers.drop_last().push(peers.last()) =~= peers);
    } else {
        assert(peers =~= Seq::<Seq<char>>::empty());
    }
}

} // verus!
