use vstd::prelude::*;
use vstd::string::*;

use crate::node::{NodeInfo, NodeType, NodeView};
use crate::operation::{
    Entry, EntryView, OperationType, OperationView, clone_entry, clone_entries, clone_strings, entries_view,
    entry_view, opt_entry_view, same_operation,
};
use crate::random::{millis_to_nanos, random_timeout};
use crate::text::{i32_to_string, int_decimal};

verus! {

/// Why a follower refused an operation request.
#[derive(PartialEq, Eq, Structural, Clone, Copy, Debug)]
pub enum OperationError {
    /// The entry before the new ones does not match the follower's last
    /// entry.
    InconsistentLog,
    /// A commit could not be applied (a dequeue from an empty queue).
    InvalidOperation,
    /// No error (named `None` on the wire).
    NoError,
}

/// What a leader sends to its followers: entries to append after
/// `previous_log_entry`, which must be the follower's last entry.
#[derive(Clone, Debug)]
pub struct OperationRequest {
    pub operations: Vec<Entry>,
    pub sender: String,
    pub previous_log_entry: Option<Entry>,
    pub term: i32,
}

#[verifier::ext_equal]
pub struct OperationRequestView {
    pub operations: Seq<EntryView>,
    pub sender: Seq<char>,
    pub previous_log_entry: Option<EntryView>,
    pub term: i32,
}

impl View for OperationRequest {
    type V = OperationRequestView;

    open spec fn view(&self) -> OperationRequestView {
        OperationRequestView {
            operations: entries_view(self.operations@),
            sender: self.sender@,
            previous_log_entry: opt_entry_view(self.previous_log_entry),
            term: self.term,
        }
    }
}

impl OperationRequest {
    /// A request of one entry made in `term` by `sender`, to follow
    /// `previous_log_entry`.
    pub fn single(entry: Entry, sender: String, previous_log_entry: Option<Entry>, term: i32) -> (r: OperationRequest)
        ensures
            r@ == (OperationRequestView {
                operations: seq![entry_view(entry)],
                sender: sender@,
                previous_log_entry: opt_entry_view(previous_log_entry),
                term: term,
            }),
    {
        let mut operations: Vec<Entry> = Vec::new();
        operations.push(entry);
        let r = OperationRequest { operations: operations, sender: sender, previous_log_entry: previous_log_entry, term: term };
        assert(r@.operations =~= seq![entry_view(entry)]);
        r
    }

    /// The same request, to follow `previous_log_entry` instead.
    pub fn with_previous(&self, previous_log_entry: Option<Entry>) -> (r: OperationRequest)
        ensures
            r@ == (OperationRequestView { previous_log_entry: opt_entry_view(previous_log_entry), ..self@ }),
    {
        OperationRequest {
            operations: clone_entries(&self.operations),
            sender: self.sender.clone(),
            previous_log_entry: previous_log_entry,
            term: self.term,
        }
    }
}

/// A follower's answer to an [`OperationRequest`].
#[derive(Clone, Debug)]
pub struct OperationResponse {
    pub accepted: bool,
    pub address: String,
    pub flag: OperationError,
    pub note: String,
}

#[verifier::ext_equal]
pub struct OperationResponseView {
    pub accepted: bool,
    pub address: Seq<char>,
    pub flag: OperationError,
    pub note: Seq<char>,
}

impl View for OperationResponse {
    type V = OperationResponseView;

    open spec fn view(&self) -> OperationResponseView {
        OperationResponseView {
            accepted: self.accepted,
            address: self.address@,
            flag: self.flag,
            note: self.note@,
        }
    }
}

/// Whether a refusal says that the follower's log differs from the
/// leader's, which is what makes a leader repair it.
pub open spec fn reports_log_mismatch(r: OperationResponseView) -> bool {
    !r.accepted && r.note == different_log_note()
}

impl OperationResponse {
    /// Whether this refusal reports a log that differs from the leader's.
    pub fn reports_log_mismatch(&self) -> (r: bool)
        ensures
            r == reports_log_mismatch(self@),
    {
        !self.accepted && self.note == String::from_str("Error : Different last log")
    }
}

pub open spec fn not_leader_note() -> Seq<char> {
    "Error : Sender is not a Leader"@
}

pub open spec fn candidate_note() -> Seq<char> {
    "Error : I'm a new candidate"@
}

/// The note of a refusal because the logs differ; leaders look for this
/// exact text to start repairing a follower's log.
pub open spec fn different_log_note() -> Seq<char> {
    "Error : Different last log"@
}

pub open spec fn success_note() -> Seq<char> {
    "Operation Success"@
}

pub open spec fn queue_empty_note() -> Seq<char> {
    "Queue is empty"@
}

pub open spec fn stale_term_note(sender_term: i32, own_term: i32) -> Seq<char> {
    "Error : Sender's term ("@ + int_decimal(sender_term as int) + ") lower than this node ("@
        + int_decimal(own_term as int) + ")"@
}

/// The result of applying received entries, one after the other.
pub enum ApplyStep {
    /// Every entry so far was applied, giving this state.
    Applied(NodeView),
    /// A commit asked to dequeue from an empty queue; processing stopped in
    /// this state.
    QueueEmpty(NodeView),
    /// An entry could not be applied at all (missing content, or a commit
    /// with nothing in the log): the request handler would fail.
    Stuck,
}

pub open spec fn push_entry(n: NodeView, e: EntryView) -> NodeView {
    NodeView { log: n.log.push(e), ..n }
}

/// The log with its last entry marked committed.
pub open spec fn mark_last_committed(log: Seq<EntryView>) -> Seq<EntryView> {
    let i = log.len() - 1;
    log.update(i, (log[i].0, OperationView { is_committed: Some(true), ..log[i].1 }))
}

/// Committing the last entry of the log: an enqueue puts its content at the
/// back of the queue, a dequeue takes the front element off; the entry is
/// then marked committed.
pub open spec fn apply_commit(n: NodeView) -> ApplyStep {
    if n.log.len() == 0 {
        ApplyStep::Stuck
    } else {
        let last = n.log.last().1;
        if last.operation_type == OperationType::Queue {
            match last.content {
                Some(c) => ApplyStep::Applied(
                    NodeView { queue: n.queue.push(c), log: mark_last_committed(n.log), ..n },
                ),
                None => ApplyStep::Stuck,
            }
        } else if last.operation_type == OperationType::Dequeue {
            if n.queue.len() == 0 {
                ApplyStep::QueueEmpty(n)
            } else {
                ApplyStep::Applied(
                    NodeView { queue: n.queue.drop_first(), log: mark_last_committed(n.log), ..n },
                )
            }
        } else {
            ApplyStep::Applied(NodeView { log: mark_last_committed(n.log), ..n })
        }
    }
}

/// Applying one received entry; a leader change takes `timeout` as the new
/// election timeout.
pub open spec fn apply_entry(n: NodeView, e: EntryView, timeout: u64) -> ApplyStep {
    let op = e.1;
    match op.operation_type {
        OperationType::Queue => if op.content is Some {
            ApplyStep::Applied(push_entry(n, e))
        } else {
            ApplyStep::Stuck
        },
        OperationType::Dequeue => ApplyStep::Applied(push_entry(n, e)),
        OperationType::AddNode => match op.content {
            Some(c) => ApplyStep::Applied(push_entry(NodeView { peers: n.peers.push(c), ..n }, e)),
            None => ApplyStep::Stuck,
        },
        OperationType::ChangeLeader => match op.content {
            Some(c) => ApplyStep::Applied(
                push_entry(
                    NodeView { election_status: false, leader: c, election_timeout: timeout, ..n },
                    e,
                ),
            ),
            None => ApplyStep::Stuck,
        },
        OperationType::Commit => match apply_commit(n) {
            ApplyStep::Applied(m) => ApplyStep::Applied(push_entry(m, e)),
            other => other,
        },
        OperationType::NoOp => ApplyStep::Applied(n),
    }
}

/// Applying received entries in order, stopping at the first that cannot be
/// applied.
pub open spec fn apply_entries(n: NodeView, es: Seq<EntryView>, timeout: u64) -> ApplyStep
    decreases es.len(),
{
    if es.len() == 0 {
        ApplyStep::Applied(n)
    } else {
        match apply_entries(n, es.drop_last(), timeout) {
            ApplyStep::Applied(m) => apply_entry(m, es.last(), timeout),
            other => other,
        }
    }
}

/// Whether the sender may append to this node's log: it is the leader this
/// node knows, or an election is under way.
pub open spec fn sender_admitted(n: NodeView, r: OperationRequestView) -> bool {
    r.sender == n.leader || n.election_status
}

/// Whether the request reaches the comparison of logs.
pub open spec fn reaches_log_check(n: NodeView, r: OperationRequestView) -> bool {
    sender_admitted(n, r) && n.term <= r.term && n.node_type != NodeType::Candidate
}

/// Whether the request's previous entry is this node's last entry (kind,
/// content and term; the commit mark is not compared).
pub open spec fn previous_entry_matches(n: NodeView, prev: Option<EntryView>) -> bool {
    if n.log.len() == 0 {
        prev is None
    } else {
        match prev {
            Some(p) => p.0 == n.log.last().0 && same_operation(n.log.last().1, p.1),
            None => false,
        }
    }
}

/// The inputs on which the request handler fails instead of answering: a
/// non-empty log compared with a missing previous entry, or entries that
/// cannot be applied.
pub open spec fn operation_fails(n: NodeView, r: OperationRequestView) -> bool {
    reaches_log_check(n, r) && (
        (n.log.len() > 0 && r.previous_log_entry is None)
        || (previous_entry_matches(n, r.previous_log_entry)
            && apply_entries(NodeView { term: r.term, ..n }, r.operations, 0) is Stuck))
}

pub open spec fn refusal(n: NodeView, now: u64, flag: OperationError, note: Seq<char>) -> (NodeView, OperationResponseView) {
    (n.heard_at(now), OperationResponseView { accepted: false, address: n.address, flag: flag, note: note })
}

/// What a node does with an operation request received at `now`: its next
/// state and its answer.
pub open spec fn operation_outcome(n: NodeView, r: OperationRequestView, now: u64, timeout: u64) -> (NodeView, OperationResponseView) {
    if !sender_admitted(n, r) {
        refusal(n, now, OperationError::NoError, not_leader_note())
    } else if n.term > r.term {
        refusal(n, now, OperationError::NoError, stale_term_note(r.term, n.term))
    } else if n.node_type == NodeType::Candidate {
        refusal(n, now, OperationError::NoError, candidate_note())
    } else if n.log.len() == 0 && r.previous_log_entry is Some {
        refusal(n, now, OperationError::NoError, different_log_note())
    } else if !previous_entry_matches(n, r.previous_log_entry) {
        refusal(n, now, OperationError::InconsistentLog, different_log_note())
    } else {
        match apply_entries(NodeView { term: r.term, ..n }, r.operations, timeout) {
            ApplyStep::QueueEmpty(m) => (
                m,
                OperationResponseView {
                    accepted: false,
                    address: n.address,
                    flag: OperationError::InvalidOperation,
                    note: queue_empty_note(),
                },
            ),
            ApplyStep::Applied(m) => (
                m.heard_at(now),
                OperationResponseView {
                    accepted: true,
                    address: n.address,
                    flag: OperationError::NoError,
                    note: success_note(),
                },
            ),
            ApplyStep::Stuck => (n, OperationResponseView {
                accepted: false,
                address: n.address,
                flag: OperationError::NoError,
                note: Seq::empty(),
            }),
        }
    }
}

/// Whether two states differ at most in their election timeout.
pub open spec fn same_but_timeout(a: NodeView, b: NodeView) -> bool {
    NodeView { election_timeout: 0, ..a } == NodeView { election_timeout: 0, ..b }
}

pub open spec fn same_kind_of_step(a: ApplyStep, b: ApplyStep) -> bool {
    match (a, b) {
        (ApplyStep::Applied(x), ApplyStep::Applied(y)) => same_but_timeout(x, y),
        (ApplyStep::QueueEmpty(x), ApplyStep::QueueEmpty(y)) => same_but_timeout(x, y),
        (ApplyStep::Stuck, ApplyStep::Stuck) => true,
        _ => false,
    }
}

proof fn lemma_entry_timeout_irrelevant(a: NodeView, b: NodeView, e: EntryView, t1: u64, t2: u64)
    requires
        same_but_timeout(a, b),
    ensures
        same_kind_of_step(apply_entry(a, e, t1), apply_entry(b, e, t2)),
{
    assert(a.log =~= b.log);
    assert(a.queue =~= b.queue);
    assert(a.peers =~= b.peers);
    match (apply_entry(a, e, t1), apply_entry(b, e, t2)) {
        (ApplyStep::Applied(x), ApplyStep::Applied(y)) => {
            assert(NodeView { election_timeout: 0, ..x } =~= NodeView { election_timeout: 0, ..y });
        },
        (ApplyStep::QueueEmpty(x), ApplyStep::QueueEmpty(y)) => {
            assert(NodeView { election_timeout: 0, ..x } =~= NodeView { election_timeout: 0, ..y });
        },
        _ => {},
    }
}

/// Whether the received entries can be applied does not depend on the
/// election timeout drawn for a leader change.
pub proof fn lemma_apply_timeout_irrelevant(a: NodeView, b: NodeView, es: Seq<EntryView>, t1: u64, t2: u64)
    requires
        same_but_timeout(a, b),
    ensures
        same_kind_of_step(apply_entries(a, es, t1), apply_entries(b, es, t2)),
    decreases es.len(),
{
    if es.len() > 0 {
        lemma_apply_timeout_irrelevant(a, b, es.drop_last(), t1, t2);
        match (apply_entries(a, es.drop_last(), t1), apply_entries(b, es.drop_last(), t2)) {
            (ApplyStep::Applied(x), ApplyStep::Applied(y)) => {
                lemma_entry_timeout_irrelevant(x, y, es.last(), t1, t2);
            },
            _ => {},
        }
    }
}

/// Once applying stops, later entries change nothing.
proof fn lemma_stop_persists(n: NodeView, es: Seq<EntryView>, k: int, t: u64)
    requires
        0 <= k <= es.len(),
        !(apply_entries(n, es.take(k), t) is Applied),
    ensures
        apply_entries(n, es, t) == apply_entries(n, es.take(k), t),
    decreases es.len(),
{
    if k == es.len() {
        assert(es.take(k) =~= es);
    } else {
        assert(es.drop_last().take(k) =~= es.take(k));
        lemma_stop_persists(n, es.drop_last(), k, t);
    }
}

/// How applying received entries ended.
#[derive(PartialEq, Eq, Structural, Clone, Copy, Debug)]
pub enum ApplyEnd {
    Applied,
    QueueEmpty,
    Stuck,
}

/// Whether `end` and the state `after` are what the step `s` describes.
pub open spec fn ends_as(s: ApplyStep, end: ApplyEnd, after: NodeView) -> bool {
    match end {
        ApplyEnd::Applied => s == ApplyStep::Applied(after),
        ApplyEnd::QueueEmpty => s == ApplyStep::QueueEmpty(after),
        ApplyEnd::Stuck => s is Stuck,
    }
}

impl NodeInfo {
    /// Commits the last entry of the log.  Changes nothing when the commit
    /// cannot be applied.
    pub(crate) fn commit_last_entry(&mut self) -> (end: ApplyEnd)
        ensures
            ends_as(apply_commit(old(self)@), end, final(self)@),
            end != ApplyEnd::Applied ==> final(self)@ == old(self)@,
    {
        let ghost n = self@;
        if self.log.len() == 0 {
            return ApplyEnd::Stuck;
        }
        let last = self.log.len() - 1;
        let kind = self.log[last].1.operation_type;
        if kind == OperationType::Queue {
            let el = match &self.log[last].1.content {
                Some(c) => c.clone(),
                None => {
                    return ApplyEnd::Stuck;
                },
            };
            self.queue.push(el);
        } else if kind == OperationType::Dequeue {
            if self.queue.len() > 0 {
                let _el = self.queue.remove(0);
            } else {
                return ApplyEnd::QueueEmpty;
            }
        }
        let mut e = self.log.pop().unwrap();
        e.1.is_committed = Some(true);
        self.log.push(e);
        proof {
            let expected = match apply_commit(n) {
                ApplyStep::Applied(m) => m,
                _ => n,
            };
            assert(self@.log =~= expected.log);
            assert(self@.queue =~= expected.queue);
            assert(self@ =~= expected);
        }
        ApplyEnd::Applied
    }

    /// Whether the last entry of the log can be committed.
    pub fn can_commit_last(&self) -> (r: bool)
        ensures
            r == apply_commit(self@) is Applied,
    {
        if self.log.len() == 0 {
            return false;
        }
        let last = &self.log[self.log.len() - 1].1;
        if last.operation_type == OperationType::Queue {
            last.content.is_some()
        } else if last.operation_type == OperationType::Dequeue {
            self.queue.len() > 0
        } else {
            true
        }
    }

    /// Applies one received entry.  Changes nothing when it cannot be
    /// applied.
    fn apply_entry(&mut self, e: Entry, timeout: u64) -> (end: ApplyEnd)
        ensures
            ends_as(apply_entry(old(self)@, entry_view(e), timeout), end, final(self)@),
            end != ApplyEnd::Applied ==> final(self)@ == old(self)@,
    {
        let ghost n = self@;
        let kind = e.1.operation_type;
        if kind == OperationType::Queue {
            if e.1.content.is_none() {
                return ApplyEnd::Stuck;
            }
        } else if kind == OperationType::AddNode {
            let node = match &e.1.content {
                Some(c) => c.clone(),
                None => {
                    return ApplyEnd::Stuck;
                },
            };
            self.peers.push(node);
            assert(self@.peers =~= n.peers.push(entry_view(e).1.content->0));
        } else if kind == OperationType::ChangeLeader {
            let new_leader = match &e.1.content {
                Some(c) => c.clone(),
                None => {
                    return ApplyEnd::Stuck;
                },
            };
            self.election_status = false;
            self.leader = new_leader;
            self.election_timeout = timeout;
        } else if kind == OperationType::Commit {
            let end = self.commit_last_entry();
            if end != ApplyEnd::Applied {
                return end;
            }
        }
        if kind != OperationType::NoOp {
            let ghost before = self@;
            self.log.push(e);
            assert(self@.log =~= before.log.push(entry_view(e)));
        }
        proof {
            let expected = match apply_entry(n, entry_view(e), timeout) {
                ApplyStep::Applied(m) => m,
                _ => n,
            };
            assert(self@.log =~= expected.log);
            assert(self@.peers =~= expected.peers);
            assert(self@ =~= expected);
        }
        ApplyEnd::Applied
    }

    /// Applies received entries in order, stopping at the first that cannot
    /// be applied; the entries before it stay applied.
    fn apply_entries(&mut self, es: &Vec<Entry>, timeout: u64) -> (end: ApplyEnd)
        ensures
            ends_as(apply_entries(old(self)@, entries_view(es@), timeout), end, final(self)@),
    {
        let ghost n = self@;
        let ghost ev = entries_view(es@);
        let mut i: usize = 0;
        assert(ev.take(0) =~= Seq::<EntryView>::empty());
        while i < es.len()
            invariant
                i <= es.len(),
                ev == entries_view(es@),
                n == old(self)@,
                apply_entries(n, ev.take(i as int), timeout) == ApplyStep::Applied(self@),
            decreases es.len() - i,
        {
            let e = clone_entry(&es[i]);
            proof {
                assert(ev.take(i + 1).drop_last() =~= ev.take(i as int));
                assert(ev.take(i + 1).last() == entry_view(e));
            }
            let ghost before = self@;
            let end = self.apply_entry(e, timeout);
            proof {
                assert(apply_entries(n, ev.take(i + 1), timeout) == apply_entry(before, entry_view(e), timeout));
            }
            if end != ApplyEnd::Applied {
                proof {
                    lemma_stop_persists(n, ev, i + 1, timeout);
                }
                return end;
            }
            i = i + 1;
        }
        assert(ev.take(es.len() as int) =~= ev);
        ApplyEnd::Applied
    }

    /// A copy of this node's state.
    pub fn copy(&self) -> (r: NodeInfo)
        ensures
            r@ == self@,
    {
        NodeInfo {
            last_heartbeat_received: self.last_heartbeat_received,
            election_timeout: self.election_timeout,
            term: self.term,
            address: self.address.clone(),
            leader: self.leader.clone(),
            node_type: self.node_type,
            peers: clone_strings(&self.peers),
            log: clone_entries(&self.log),
            queue: clone_strings(&self.queue),
            election_status: self.election_status,
        }
    }

    /// Whether answering `request` would fail instead of producing an
    /// answer.
    pub fn operation_would_fail(&self, request: &OperationRequest) -> (r: bool)
        ensures
            r == operation_fails(self@, request@),
    {
        let admitted = request.sender == self.leader || self.election_status;
        if !admitted || self.term > request.term || self.node_type == NodeType::Candidate {
            return false;
        }
        if self.log.len() > 0 && request.previous_log_entry.is_none() {
            return true;
        }
        if !self.previous_matches(&request.previous_log_entry) {
            return false;
        }
        let mut trial = self.copy();
        trial.term = request.term;
        assert(trial@ =~= NodeView { term: request@.term, ..self@ });
        let end = trial.apply_entries(&request.operations, 0);
        end == ApplyEnd::Stuck
    }

    /// Answers an operation request received at `now`, taking `timeout` as
    /// the election timeout should the request change the leader.
    pub fn apply_operation_request(&mut self, request: OperationRequest, now: u64, timeout: u64) -> (response: OperationResponse)
        requires
            !operation_fails(old(self)@, request@),
        ensures
            (final(self)@, response@) == operation_outcome(old(self)@, request@, now, timeout),
    {
        let ghost n = self@;
        let ghost r = request@;
        let address = self.address.clone();
        let note: String;
        let mut flag = OperationError::NoError;
        let result: bool;
        if !(request.sender == self.leader) && !self.election_status {
            result = false;
            note = String::from_str("Error : Sender is not a Leader");
        } else if self.term > request.term {
            result = false;
            let a = String::from_str("Error : Sender's term (");
            let b = i32_to_string(request.term);
            let c = String::from_str(") lower than this node (");
            let d = i32_to_string(self.term);
            let e = String::from_str(")");
            note = a.concat(b.as_str()).concat(c.as_str()).concat(d.as_str()).concat(e.as_str());
        } else if self.node_type == NodeType::Candidate {
            result = false;
            note = String::from_str("Error : I'm a new candidate");
        } else if self.log.len() == 0 && request.previous_log_entry.is_some() {
            result = false;
            note = String::from_str("Error : Different last log");
        } else if !self.previous_matches(&request.previous_log_entry) {
            result = false;
            flag = OperationError::InconsistentLog;
            note = String::from_str("Error : Different last log");
        } else {
            self.term = request.term;
            assert(self@ =~= NodeView { term: r.term, ..n });
            proof {
                lemma_apply_timeout_irrelevant(
                    NodeView { term: r.term, ..n }, NodeView { term: r.term, ..n }, r.operations, 0, timeout);
            }
            let end = self.apply_entries(&request.operations, timeout);
            if end != ApplyEnd::Applied {
                return OperationResponse {
                    accepted: false,
                    note: String::from_str("Queue is empty"),
                    address: address,
                    flag: OperationError::InvalidOperation,
                };
            }
            result = true;
            note = String::from_str("Operation Success");
        }
        self.last_heartbeat_received = now;
        OperationResponse { accepted: result, note: note, address: address, flag: flag }
    }

    /// Whether `prev` is this node's last entry, by term, kind and content.
    fn previous_matches(&self, prev: &Option<Entry>) -> (r: bool)
        requires
            self.log@.len() > 0 ==> prev is Some,
        ensures
            r == previous_entry_matches(self@, opt_entry_view(*prev)),
    {
        if self.log.len() == 0 {
            prev.is_none()
        } else {
            let last = &self.log[self.log.len() - 1];
            match prev {
                Some(p) => p.0 == last.0 && p.1.is_equal(last.1.duplicate()),
                None => false,
            }
        }
    }

    /// Answers an operation request received at `now`; a leader change draws
    /// a new election timeout between 3 and 7 seconds.
    pub fn handle_operation(&mut self, request: OperationRequest, now: u64) -> (response: OperationResponse)
        requires
            !operation_fails(old(self)@, request@),
        ensures
            exists|ms: u64|
                3000 <= ms < 7000 && (final(self)@, response@) == operation_outcome(
                    old(self)@,
                    request@,
                    now,
                    millis_to_nanos(ms),
                ),
    {
        let t = random_timeout(3000, 7000);
        self.apply_operation_request(request, now, t)
    }
}

} // verus!
