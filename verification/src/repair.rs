use vstd::prelude::*;

use crate::node::{NodeInfo, count_true};
use crate::operation::{Entry, EntryView, clone_entries, clone_entry, clone_opt_entry, entries_view};
use crate::routes::operation::{
    OperationError, OperationRequest, OperationRequestView, OperationResponse, OperationResponseView,
    reports_log_mismatch,
};

verus! {

/// A leader bringing one follower's log in line with its own.  Each retry
/// carries one more of the leader's earlier entries in front of the entries
/// it set out to send, and names the entry just before those it carries as
/// the previous one; the repair ends when the follower accepts, when the
/// leader's log is exhausted, or when the follower cannot be reached.
///
/// This is the repair that the design of `execute` lays down (send the
/// earlier entries, move the previous entry back), and the same repair
/// serves `execute`, registrations and elections alike: each repair starts
/// from the request the round sent, walks the leader's log as it was before
/// the entries being sent, and names the entry before the carried ones from
/// the first retry on.
pub struct LogRepair {
    /// The leader's log before the entries being sent.
    log: Vec<Entry>,
    /// How many entries at the start of `log` the next request does not
    /// carry.
    remaining: usize,
    /// The request to send next.
    request: OperationRequest,
    /// Whether the follower accepted a retry.
    accepted: bool,
    /// Whether the repair is over.
    finished: bool,
}

#[verifier::ext_equal]
pub struct LogRepairView {
    pub log: Seq<EntryView>,
    pub remaining: nat,
    pub request: OperationRequestView,
    pub accepted: bool,
    pub finished: bool,
}

impl View for LogRepair {
    type V = LogRepairView;

    closed spec fn view(&self) -> LogRepairView {
        LogRepairView {
            log: entries_view(self.log@),
            remaining: self.remaining as nat,
            request: self.request@,
            accepted: self.accepted,
            finished: self.finished,
        }
    }
}

/// The entry of `log` just before position `k`, if any.
pub open spec fn entry_before(log: Seq<EntryView>, k: nat) -> Option<EntryView> {
    if k == 0 {
        None
    } else {
        Some(log[k - 1])
    }
}

/// The request that carries `log` from position `k` on in front of the
/// entries of `base`, following the entry just before position `k`.
pub open spec fn retry_request(log: Seq<EntryView>, k: nat, base: OperationRequestView) -> OperationRequestView {
    OperationRequestView {
        operations: log.subrange(k as int, log.len() as int) + base.operations,
        previous_log_entry: entry_before(log, k),
        ..base
    }
}

/// The repair of a follower that refused `base`, the leader's log before
/// the entries of `base` being `log`: the first retry carries the leader's
/// last entry too.  With an empty log there is nothing to retry.
pub open spec fn repair_start(log: Seq<EntryView>, base: OperationRequestView) -> LogRepairView {
    if log.len() == 0 {
        LogRepairView { log: log, remaining: 0, request: base, accepted: false, finished: true }
    } else {
        let k = (log.len() - 1) as nat;
        LogRepairView { log: log, remaining: k, request: retry_request(log, k, base), accepted: false, finished: false }
    }
}

/// The repair after the follower's answer to the last retry: `Some(accepted)`
/// when it answered, `None` when it could not be reached.
pub open spec fn repair_step(s: LogRepairView, answer: Option<bool>) -> LogRepairView {
    if s.finished {
        s
    } else {
        match answer {
            Some(false) => if s.remaining == 0 {
                LogRepairView { finished: true, ..s }
            } else {
                let k = (s.remaining - 1) as nat;
                LogRepairView {
                    remaining: k,
                    request: OperationRequestView {
                        operations: seq![s.log[k as int]] + s.request.operations,
                        previous_log_entry: entry_before(s.log, k),
                        ..s.request
                    },
                    ..s
                }
            },
            Some(true) => LogRepairView { accepted: true, finished: true, ..s },
            None => LogRepairView { finished: true, ..s },
        }
    }
}

/// What a repair of a refusal of `base` always keeps: the next request is
/// the retry that carries the leader's log from `remaining` on.
pub open spec fn retries_from(s: LogRepairView, base: OperationRequestView) -> bool {
    &&& s.remaining <= s.log.len()
    &&& s.request == retry_request(s.log, s.remaining, base)
}

/// How many more answers a repair can take before it is over.
pub open spec fn repair_measure(s: LogRepairView) -> nat {
    if s.finished {
        0
    } else {
        s.remaining + 1
    }
}

/// The first retry carries the leader's last entry in front of the entries
/// it set out to send and follows the entry before it.
pub proof fn lemma_start_retries(log: Seq<EntryView>, base: OperationRequestView)
    requires
        log.len() > 0,
    ensures
        retries_from(repair_start(log, base), base),
        repair_start(log, base).remaining == log.len() - 1,
        !repair_start(log, base).finished,
{
}

/// Every refusal moves the repair one entry further back through the
/// leader's log: the j-th retry carries the last j entries of the log and
/// follows the entry before them (none once the whole log is carried).
pub proof fn lemma_step_retries(s: LogRepairView, answer: Option<bool>, base: OperationRequestView)
    requires
        retries_from(s, base),
    ensures
        retries_from(repair_step(s, answer), base),
{
    let t = repair_step(s, answer);
    if !s.finished && answer == Some(false) && s.remaining > 0 {
        let k = s.remaining - 1;
        assert(s.log.subrange(k, s.log.len() as int) =~= seq![s.log[k]] + s.log.subrange(
            s.remaining as int,
            s.log.len() as int,
        ));
        assert(t.request.operations =~= s.log.subrange(k, s.log.len() as int) + base.operations);
        assert(t.request =~= retry_request(s.log, k as nat, base));
    }
}

/// Every answer to an unfinished repair brings it strictly closer to its
/// end, so a repair sends at most as many retries as the leader has log
/// entries.
pub proof fn lemma_step_progress(s: LogRepairView, answer: Option<bool>)
    requires
        !s.finished,
    ensures
        repair_measure(repair_step(s, answer)) < repair_measure(s),
{
}

impl LogRepair {
    #[verifier::type_invariant]
    spec fn remaining_within_log(self) -> bool {
        self.remaining <= self.log.len()
    }

    /// The request to send next.
    pub fn request(&self) -> (r: &OperationRequest)
        ensures
            r@ == self@.request,
    {
        &self.request
    }

    /// Whether the repair is over.
    pub fn is_finished(&self) -> (r: bool)
        ensures
            r == self@.finished,
    {
        self.finished
    }

    /// Whether the follower accepted a retry.
    pub fn is_accepted(&self) -> (r: bool)
        ensures
            r == self@.accepted,
    {
        self.accepted
    }

    /// Begins repairing a follower that refused `base`; `log` is the
    /// leader's log before the entries of `base`.
    pub fn start(log: &Vec<Entry>, base: &OperationRequest) -> (r: LogRepair)
        ensures
            r@ == repair_start(entries_view(log@), base@),
    {
        let log = clone_entries(log);
        let n = log.len();
        if n == 0 {
            let request = base.with_previous(clone_opt_entry(&base.previous_log_entry));
            let r = LogRepair { log: log, remaining: 0, request: request, accepted: false, finished: true };
            assert(r@ =~= repair_start(entries_view(log@), base@));
            return r;
        }
        let k = n - 1;
        let first = clone_entry(&log[k]);
        let prev = if k == 0 {
            None
        } else {
            Some(clone_entry(&log[k - 1]))
        };
        let mut operations = clone_entries(&base.operations);
        operations.insert(0, first);
        let request = OperationRequest {
            operations: operations,
            sender: base.sender.clone(),
            previous_log_entry: prev,
            term: base.term,
        };
        let r = LogRepair { log: log, remaining: k, request: request, accepted: false, finished: false };
        assert(entries_view(log@).subrange(k as int, n as int) =~= seq![entries_view(log@)[k as int]]);
        assert(r@.request.operations =~= entries_view(log@).subrange(k as int, n as int) + base@.operations);
        assert(r@ =~= repair_start(entries_view(log@), base@));
        r
    }

    /// Takes the follower's answer to the last retry: `Some(true)` when it
    /// accepted, `Some(false)` when it refused, `None` when it could not be
    /// reached.  A finished repair stays as it is.
    pub fn on_answer(&mut self, answer: Option<bool>)
        ensures
            final(self)@ == repair_step(old(self)@, answer),
    {
        proof {
            use_type_invariant(&*self);
        }
        if self.finished {
            return;
        }
        match answer {
            Some(false) => {
                if self.remaining == 0 {
                    self.finished = true;
                } else {
                    let ghost s = self@;
                    let k = self.remaining - 1;
                    let e = clone_entry(&self.log[k]);
                    let mut operations = clone_entries(&self.request.operations);
                    operations.insert(0, e);
                    let prev = if k == 0 {
                        None
                    } else {
                        Some(clone_entry(&self.log[k - 1]))
                    };
                    self.request = OperationRequest {
                        operations: operations,
                        sender: self.request.sender.clone(),
                        previous_log_entry: prev,
                        term: self.request.term,
                    };
                    self.remaining = k;
                    assert(self@.request.operations =~= seq![s.log[k as int]] + s.request.operations);
                    assert(self@ =~= repair_step(s, answer));
                }
            },
            Some(true) => {
                self.accepted = true;
                self.finished = true;
            },
            None => {
                self.finished = true;
            },
        }
    }
}

/// Which refusals make a leader repair a follower's log: `execute` goes by
/// the refusal's flag, registrations and elections by its note.
#[derive(PartialEq, Eq, Structural, Clone, Copy, Debug)]
pub enum RepairRule {
    OnInconsistentFlag,
    OnMismatchNote,
}

/// What a peer's first reply to a leader's request means.
#[derive(PartialEq, Eq, Structural, Clone, Copy, Debug)]
pub enum ReplyKind {
    /// The peer accepted.
    Accepted,
    /// The peer's log differs: repair it.
    NeedsRepair,
    /// The peer refused for another reason.
    Refused,
    /// The peer could not be reached.
    Unreachable,
}

pub open spec fn reply_kind(reply: Option<OperationResponseView>, rule: RepairRule) -> ReplyKind {
    match reply {
        None => ReplyKind::Unreachable,
        Some(r) => if r.accepted {
            ReplyKind::Accepted
        } else if (rule == RepairRule::OnInconsistentFlag && r.flag == OperationError::InconsistentLog) || (
        rule == RepairRule::OnMismatchNote && reports_log_mismatch(r)) {
            ReplyKind::NeedsRepair
        } else {
            ReplyKind::Refused
        },
    }
}

/// A leader's round of sending one request to each of its peers.
pub struct Replication {
    /// The leader's log before the entries being sent.
    log: Vec<Entry>,
    /// The request first sent to every peer.
    request: OperationRequest,
    /// How many peers the request is sent to.
    peers: usize,
    /// One answer per peer dealt with so far: whether it acknowledged.
    acks: Vec<bool>,
}

#[verifier::ext_equal]
pub struct ReplicationView {
    pub log: Seq<EntryView>,
    pub request: OperationRequestView,
    pub peers: nat,
    pub acks: Seq<bool>,
}

impl View for Replication {
    type V = ReplicationView;

    closed spec fn view(&self) -> ReplicationView {
        ReplicationView {
            log: entries_view(self.log@),
            request: self.request@,
            peers: self.peers as nat,
            acks: self.acks@,
        }
    }
}

/// Whether the leader may commit: more than half of its `peers` peers
/// acknowledged (with no peers, nothing is ever committed).
pub open spec fn replicated_on_majority(acks: Seq<bool>, peers: nat) -> bool {
    count_true(acks) >= peers / 2 + 1
}

impl Replication {
    /// A round sending `request`, which follows the leader's current log, to
    /// each of the leader's peers.
    pub fn of(leader: &NodeInfo, request: OperationRequest) -> (r: Replication)
        ensures
            r@ == (ReplicationView {
                log: leader@.log,
                request: request@,
                peers: leader@.peers.len(),
                acks: Seq::empty(),
            }),
    {
        Replication::with_log(clone_entries(&leader.log), request, leader.peers.len())
    }

    /// A round sending `request`, which follows the log `log`, to `peers`
    /// peers.
    pub(crate) fn with_log(log: Vec<Entry>, request: OperationRequest, peers: usize) -> (r: Replication)
        ensures
            r@ == (ReplicationView { log: entries_view(log@), request: request@, peers: peers as nat, acks: Seq::empty() }),
    {
        let r = Replication { log: log, request: request, peers: peers, acks: Vec::new() };
        assert(r@.acks =~= Seq::<bool>::empty());
        r
    }

    /// The request to send to every peer.
    pub fn request(&self) -> (r: &OperationRequest)
        ensures
            r@ == self@.request,
    {
        &self.request
    }

    /// Takes a peer's first reply (`None` when it could not be reached): an
    /// acceptance counts as an acknowledgement, any other refusal and
    /// silence as none, and a refusal for a differing log starts a repair,
    /// whose outcome [`Replication::record_repair`] records.
    pub fn on_reply(&mut self, reply: &Option<OperationResponse>, rule: RepairRule) -> (repair: Option<LogRepair>)
        ensures
            ({
                let kind = reply_kind(
                    match reply {
                        Some(x) => Some(x@),
                        None => None,
                    },
                    rule,
                );
                &&& final(self)@.log == old(self)@.log
                &&& final(self)@.request == old(self)@.request
                &&& final(self)@.peers == old(self)@.peers
                &&& kind == ReplyKind::NeedsRepair ==> repair is Some && repair->0@ == repair_start(
                    old(self)@.log,
                    old(self)@.request,
                ) && final(self)@.acks == old(self)@.acks
                &&& kind != ReplyKind::NeedsRepair ==> repair is None && final(self)@.acks == old(self)@.acks.push(
                    kind == ReplyKind::Accepted,
                )
            }),
    {
        match reply {
            None => {
                self.acks.push(false);
                None
            },
            Some(r) => {
                if r.accepted {
                    self.acks.push(true);
                    None
                } else if (rule == RepairRule::OnInconsistentFlag && r.flag == OperationError::InconsistentLog) || (
                rule == RepairRule::OnMismatchNote && r.reports_log_mismatch()) {
                    Some(LogRepair::start(&self.log, &self.request))
                } else {
                    self.acks.push(false);
                    None
                }
            },
        }
    }

    /// Records the end of a repair: the peer acknowledged if it accepted a
    /// retry.
    pub fn record_repair(&mut self, repair: &LogRepair)
        ensures
            final(self)@ == (ReplicationView { acks: old(self)@.acks.push(repair@.accepted), ..old(self)@ }),
    {
        self.acks.push(repair.is_accepted());
    }

    /// Whether more than half of the peers the request is sent to
    /// acknowledged.
    pub fn acknowledged_by_majority(&self) -> (r: bool)
        ensures
            r == replicated_on_majority(self@.acks, self@.peers),
    {
        crate::node::count_yes(&self.acks) >= self.peers / 2 + 1
    }
}

} // verus!
