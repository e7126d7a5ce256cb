use raft_queue::node::{Duty, NodeInfo, NodeType, won_election};
use raft_queue::operation::{Operation, OperationType};
use raft_queue::repair::{LogRepair, RepairRule, Replication};
use raft_queue::routes::execute::ExecuteRequest;
use raft_queue::routes::operation::{OperationError, OperationResponse};
use raft_queue::routes::heartbeat::HeartbeatRequest;
use raft_queue::routes::register::{RegisterRequest, RegisterResponse};
use raft_queue::routes::request_vote::ReqVoteRequest;

const LEADER: &str = "127.0.0.1:8000";
const OTHER: &str = "127.0.0.1:8001";

fn leader() -> NodeInfo {
    let mut n = NodeInfo::with_election_timeout(LEADER.to_string(), LEADER.to_string(), 0, 30000);
    assert_eq!(n.begin_start().is_none(), true);
    n
}

fn follower() -> NodeInfo {
    NodeInfo::with_election_timeout(OTHER.to_string(), LEADER.to_string(), 0, 30000)
}

fn entry(kind: OperationType, content: Option<&str>) -> (i32, Operation) {
    (0, Operation { operation_type: kind, content: content.map(|c| c.to_string()), is_committed: None })
}

#[test]
fn new_node_is_a_follower_with_a_random_timeout() {
    let mut seen = Vec::new();
    for _ in 0..40 {
        let n = NodeInfo::new(OTHER.to_string(), LEADER.to_string(), 5);
        assert_eq!(n.node_type, NodeType::Follower);
        assert_eq!(n.term, 0);
        assert_eq!(n.last_heartbeat_received, 5);
        assert!(n.election_timeout >= 30_000_000_000 && n.election_timeout < 45_000_000_000);
        assert_eq!(n.election_timeout % 1_000_000, 0);
        assert!(n.peers.is_empty() && n.log.is_empty() && n.queue.is_empty());
        assert!(!n.election_status);
        seen.push(n.election_timeout);
    }
    assert!(seen.iter().any(|t| *t != seen[0]));
}

#[test]
fn a_node_that_is_its_own_leader_leads() {
    let n = leader();
    assert_eq!(n.node_type, NodeType::Leader);
    assert!(n.is_leader());
    let mut f = follower();
    let r = f.begin_start().unwrap();
    assert_eq!(r.sender, OTHER);
    assert_eq!(r.term, 0);
    assert_eq!(f.node_type, NodeType::Follower);
    assert!(!f.is_leader());
}

#[test]
fn registration_response_is_adopted() {
    let mut f = follower();
    let resp = RegisterResponse {
        accepted: true,
        term: 4,
        peers: vec!["127.0.0.1:8002".to_string()],
        log: vec![entry(OperationType::AddNode, Some(OTHER))],
        queue: vec!["q".to_string()],
    };
    f.apply_register_response(resp, 77);
    assert_eq!(f.term, 4);
    assert_eq!(f.last_heartbeat_received, 77);
    assert_eq!(f.peers, vec![LEADER.to_string(), "127.0.0.1:8002".to_string()]);
    assert_eq!(f.log.len(), 1);
    assert_eq!(f.queue, vec!["q".to_string()]);
    let mut g = follower();
    let refused = RegisterResponse { accepted: false, term: 9, peers: vec![], log: vec![], queue: vec![] };
    g.apply_register_response(refused, 77);
    assert_eq!(g.term, 0);
    assert!(g.peers.is_empty());
}

#[test]
fn leader_registers_a_node() {
    let mut l = leader();
    l.peers.push("127.0.0.1:8005".to_string());
    let q = l.add_node_request(&OTHER.to_string()).unwrap();
    assert_eq!(q.operations.len(), 1);
    assert_eq!(q.operations[0].1.operation_type, OperationType::AddNode);
    assert_eq!(q.operations[0].1.content, Some(OTHER.to_string()));
    assert!(q.previous_log_entry.is_none());
    assert_eq!(q.sender, LEADER);
    let resp = l.finish_register(&RegisterRequest { sender: OTHER.to_string(), term: 0 });
    assert!(resp.accepted);
    assert_eq!(resp.peers, vec!["127.0.0.1:8005".to_string()]);
    assert_eq!(resp.log.len(), 1);
    assert_eq!(l.peers, vec!["127.0.0.1:8005".to_string(), OTHER.to_string()]);
    assert_eq!(l.log.len(), 1);
}

#[test]
fn follower_refuses_registrations() {
    let mut f = follower();
    assert!(f.add_node_request(&"x".to_string()).is_none());
    let resp = f.finish_register(&RegisterRequest { sender: "x".to_string(), term: 0 });
    assert!(!resp.accepted);
    assert!(f.peers.is_empty());
    assert!(f.log.is_empty());
}

#[test]
fn heartbeat_accepted_by_follower_of_same_term() {
    let mut f = follower();
    f.term = 2;
    let resp = f.apply_heartbeat(&HeartbeatRequest { term: 2, address: "127.0.0.1:8009".to_string() }, 900, 1500);
    assert!(resp.accepted);
    assert_eq!(f.last_heartbeat_received, 900);
    assert_eq!(f.leader, "127.0.0.1:8009");
    let resp = f.apply_heartbeat(&HeartbeatRequest { term: 3, address: LEADER.to_string() }, 950, 1500);
    assert!(!resp.accepted);
    assert_eq!(f.last_heartbeat_received, 900);
    assert_eq!(f.leader, LEADER);
}

#[test]
fn heartbeat_steps_a_candidate_back() {
    let mut f = follower();
    f.node_type = NodeType::Candidate;
    f.term = 3;
    let resp = f.handle_heartbeat(&HeartbeatRequest { term: 2, address: LEADER.to_string() }, 900);
    assert!(!resp.accepted);
    assert_eq!(f.term, 2);
    assert_eq!(f.node_type, NodeType::Candidate);
    assert_eq!(f.last_heartbeat_received, 900);
    assert!(f.election_timeout >= 1_000_000_000 && f.election_timeout < 5_000_000_000);
}

#[test]
fn votes_go_to_higher_terms_and_candidates_withdraw() {
    let mut f = follower();
    f.term = 1;
    let r = f.apply_request_vote(&ReqVoteRequest { candidate: "c".to_string(), term: 2 }, 10, 31000);
    assert!(r.accepted);
    assert!(f.election_status);
    let r = f.apply_request_vote(&ReqVoteRequest { candidate: "c".to_string(), term: 1 }, 10, 31000);
    assert!(!r.accepted);
    let mut c = follower();
    c.node_type = NodeType::Candidate;
    c.term = 5;
    let r = c.handle_request_vote(&ReqVoteRequest { candidate: "c".to_string(), term: 5 }, 10);
    assert!(!r.accepted);
    assert_eq!(c.node_type, NodeType::Follower);
    assert_eq!(c.term, 4);
    assert!(c.election_timeout >= 30_000_000_000 && c.election_timeout < 45_000_000_000);
}

#[test]
fn background_duties() {
    let f = follower();
    assert_eq!(f.next_duty(10), Duty::CheckElection);
    let mut l = leader();
    l.last_heartbeat_received = 1000;
    assert_eq!(l.next_duty(2_000_001_000), Duty::Idle);
    assert_eq!(l.next_duty(2_000_001_001), Duty::SendHeartbeat);
    let mut c = follower();
    c.node_type = NodeType::Candidate;
    assert_eq!(c.next_duty(99999), Duty::Idle);
}

#[test]
fn leader_keeps_reachable_peers() {
    let mut l = leader();
    l.peers = vec!["a".to_string(), "b".to_string(), "c".to_string()];
    let hb = l.heartbeat_request();
    assert_eq!(hb.term, 0);
    assert_eq!(hb.address, LEADER);
    l.keep_reachable_peers(&vec![true, false, true], 4242);
    assert_eq!(l.peers, vec!["a".to_string(), "c".to_string()]);
    assert_eq!(l.last_heartbeat_received, 4242);
    l.keep_reachable_peers(&vec![true, true], 4300);
    assert_eq!(l.peers, vec!["a".to_string(), "c".to_string()]);
}

#[test]
fn election_flow() {
    let mut f = follower();
    assert!(!f.election_due_at(30000));
    assert!(f.begin_election(30000).is_none());
    assert!(f.election_due_at(30001));
    let vote = f.begin_election(30001).unwrap();
    assert_eq!(vote.term, 1);
    assert_eq!(vote.candidate, OTHER);
    assert_eq!(f.node_type, NodeType::Candidate);
    assert!(won_election(&vec![]));
    assert!(won_election(&vec![true, false]));
    assert!(won_election(&vec![false, false, true]));
    assert!(!won_election(&vec![false, false, false, true]));
    let req = f.claim_leadership();
    assert_eq!(f.leader, OTHER);
    assert_eq!(req.operations[0].1.operation_type, OperationType::ChangeLeader);
    assert_eq!(req.operations[0].1.content, Some(OTHER.to_string()));
    assert_eq!(req.term, 1);
    f.complete_leadership();
    assert_eq!(f.node_type, NodeType::Leader);
    assert_eq!(f.log.len(), 1);
    assert_eq!(f.log[0].0, 1);
}

#[test]
fn election_does_not_start_while_one_is_under_way() {
    let mut f = follower();
    f.election_status = true;
    assert!(f.begin_election(99999).is_none());
    assert_eq!(f.term, 0);
}

fn reply(accepted: bool, flag: OperationError, note: &str) -> Option<OperationResponse> {
    Some(OperationResponse { accepted, address: OTHER.to_string(), flag, note: note.to_string() })
}

#[test]
fn majority_rule() {
    let mut l = leader();
    let base = l.add_node_request(&OTHER.to_string()).unwrap();
    // with no peers, nothing is ever committed
    let round = Replication::of(&l, base.clone());
    assert!(!round.acknowledged_by_majority());
    l.peers = vec!["a".to_string(), "b".to_string(), "c".to_string(), "d".to_string()];
    let mut round = Replication::of(&l, base);
    assert!(round.on_reply(&reply(true, OperationError::NoError, "Operation Success"), RepairRule::OnInconsistentFlag).is_none());
    assert!(round.on_reply(&None, RepairRule::OnInconsistentFlag).is_none());
    assert!(round.on_reply(&reply(false, OperationError::NoError, "x"), RepairRule::OnInconsistentFlag).is_none());
    assert!(round.on_reply(&reply(true, OperationError::NoError, ""), RepairRule::OnInconsistentFlag).is_none());
    // two of four is no majority
    assert!(!round.acknowledged_by_majority());
    let mut l3 = leader();
    l3.peers = vec!["a".to_string(), "b".to_string(), "c".to_string()];
    let base = l3.add_node_request(&OTHER.to_string()).unwrap();
    let mut round = Replication::of(&l3, base);
    round.on_reply(&reply(true, OperationError::NoError, ""), RepairRule::OnInconsistentFlag);
    round.on_reply(&reply(true, OperationError::NoError, ""), RepairRule::OnInconsistentFlag);
    round.on_reply(&None, RepairRule::OnInconsistentFlag);
    assert!(round.acknowledged_by_majority());
}

#[test]
fn repairs_start_by_the_rule_of_the_round() {
    let mut l = leader();
    l.log = vec![entry(OperationType::Queue, Some("a"))];
    l.peers = vec!["a".to_string(), "b".to_string()];
    let base = l.add_node_request(&OTHER.to_string()).unwrap();
    let mut round = Replication::of(&l, base.clone());
    // a mismatch note without the flag repairs by note only
    let noted = reply(false, OperationError::NoError, "Error : Different last log");
    assert!(round.on_reply(&noted, RepairRule::OnInconsistentFlag).is_none());
    let repair = round.on_reply(&noted, RepairRule::OnMismatchNote).unwrap();
    assert_eq!(repair.request().operations.len(), 2);
    let flagged = reply(false, OperationError::InconsistentLog, "Error : Different last log");
    let mut repair = round.on_reply(&flagged, RepairRule::OnInconsistentFlag).unwrap();
    repair.on_answer(Some(true));
    round.record_repair(&repair);
    // one peer refused, one accepted after its repair: one of two is no majority
    assert!(!round.acknowledged_by_majority());
    let mut other = Replication::of(&l, base);
    other.record_repair(&repair);
    other.record_repair(&repair);
    assert!(other.acknowledged_by_majority());
}

#[test]
fn execute_on_leader_appends_and_commits() {
    let mut l = leader();
    let req = ExecuteRequest { operation_type: OperationType::Queue, content: Some("job".to_string()) };
    let round = l.begin_execute(&req).unwrap();
    assert_eq!(round.request().operations.len(), 1);
    assert!(round.request().previous_log_entry.is_none());
    assert_eq!(l.log.len(), 1);
    assert_eq!(l.log[0].1.is_committed, None);
    assert!(l.can_commit_last());
    let commit = l.commit_executed();
    assert_eq!(l.queue, vec!["job".to_string()]);
    assert_eq!(l.log.len(), 2);
    assert_eq!(l.log[0].1.is_committed, Some(true));
    assert_eq!(commit.operations[0].1.operation_type, OperationType::Commit);
    let prev = commit.previous_log_entry.unwrap();
    assert_eq!(prev.1.content, Some("job".to_string()));
    assert_eq!(prev.1.is_committed, None);
    let deq = ExecuteRequest { operation_type: OperationType::Dequeue, content: Some(String::new()) };
    l.begin_execute(&deq).unwrap();
    assert!(l.can_commit_last());
    l.commit_executed();
    assert!(l.queue.is_empty());
    l.begin_execute(&deq).unwrap();
    assert!(!l.can_commit_last());
}

#[test]
fn dequeue_without_content_is_executed() {
    let mut l = leader();
    l.queue = vec!["q".to_string()];
    let req = ExecuteRequest { operation_type: OperationType::Dequeue, content: None };
    let round = l.begin_execute(&req).unwrap();
    assert_eq!(round.request().operations[0].1.content, None);
    assert_eq!(l.log[0].1.operation_type, OperationType::Dequeue);
    assert_eq!(l.log[0].1.content, None);
    assert!(l.can_commit_last());
    l.commit_executed();
    assert!(l.queue.is_empty());
}

#[test]
fn majority_is_over_all_peers() {
    let mut l = leader();
    l.peers = vec!["a".to_string(), "b".to_string(), "c".to_string()];
    let base = l.add_node_request(&OTHER.to_string()).unwrap();
    let mut round = Replication::of(&l, base);
    round.on_reply(&reply(true, OperationError::NoError, ""), RepairRule::OnInconsistentFlag);
    // one acknowledgement of three peers, whatever the other two answer later
    assert!(!round.acknowledged_by_majority());
    round.on_reply(&reply(true, OperationError::NoError, ""), RepairRule::OnInconsistentFlag);
    assert!(round.acknowledged_by_majority());
}

#[test]
fn execute_on_follower_does_nothing() {
    let mut f = follower();
    let req = ExecuteRequest { operation_type: OperationType::Queue, content: Some("job".to_string()) };
    assert!(f.begin_execute(&req).is_none());
    assert!(f.log.is_empty());
}

#[test]
fn log_repair_walks_back_through_the_log() {
    let mut l = leader();
    l.log = vec![entry(OperationType::Queue, Some("a")), entry(OperationType::Queue, Some("b")), entry(OperationType::Queue, Some("c"))];
    let base = l.add_node_request(&OTHER.to_string()).unwrap();
    let mut repair = LogRepair::start(&l.log, &base);
    assert!(!repair.is_finished());
    // first retry: the last entry goes in front and the entry before it is the previous one
    assert_eq!(repair.request().operations.len(), 2);
    assert_eq!(repair.request().operations[0].1.content, Some("c".to_string()));
    assert_eq!(repair.request().previous_log_entry.as_ref().unwrap().1.content, Some("b".to_string()));
    repair.on_answer(Some(false));
    assert_eq!(repair.request().operations.len(), 3);
    assert_eq!(repair.request().operations[0].1.content, Some("b".to_string()));
    assert_eq!(repair.request().previous_log_entry.as_ref().unwrap().1.content, Some("a".to_string()));
    repair.on_answer(Some(false));
    assert_eq!(repair.request().operations.len(), 4);
    assert!(repair.request().previous_log_entry.is_none());
    assert!(!repair.is_finished());
    repair.on_answer(Some(false));
    assert!(repair.is_finished());
    assert!(!repair.is_accepted());
    assert_eq!(repair.request().operations.len(), 4);
    assert_eq!(repair.request().operations[3].1.operation_type, OperationType::AddNode);
}

#[test]
fn execute_repair_does_not_resend_the_new_entry() {
    let mut l = leader();
    l.log = vec![entry(OperationType::Queue, Some("a"))];
    let req = ExecuteRequest { operation_type: OperationType::Queue, content: Some("new".to_string()) };
    let mut round = l.begin_execute(&req).unwrap();
    let flagged = reply(false, OperationError::InconsistentLog, "Error : Different last log");
    let repair = round.on_reply(&flagged, RepairRule::OnInconsistentFlag).unwrap();
    let ops = &repair.request().operations;
    assert_eq!(ops.len(), 2);
    assert_eq!(ops[0].1.content, Some("a".to_string()));
    assert_eq!(ops[1].1.content, Some("new".to_string()));
    assert!(repair.request().previous_log_entry.is_none());
}

#[test]
fn log_repair_stops_on_acceptance_or_silence() {
    let mut l = leader();
    l.log = vec![entry(OperationType::Queue, Some("a")), entry(OperationType::Queue, Some("b"))];
    let base = l.add_node_request(&OTHER.to_string()).unwrap();
    let mut repair = LogRepair::start(&l.log, &base);
    repair.on_answer(Some(true));
    assert!(repair.is_finished());
    assert!(repair.is_accepted());
    assert_eq!(repair.request().operations.len(), 2);
    let mut repair = LogRepair::start(&l.log, &base);
    repair.on_answer(None);
    assert!(repair.is_finished());
    assert!(!repair.is_accepted());
    let empty = leader();
    let base = empty.add_node_request(&OTHER.to_string()).unwrap();
    let repair = LogRepair::start(&empty.log, &base);
    assert!(repair.is_finished());
}

#[test]
fn probe_and_log_copy() {
    let mut l = leader();
    l.queue = vec!["ab".to_string(), "c".to_string()];
    assert_eq!(l.queue_text(), "abc");
    l.log = vec![entry(OperationType::Queue, Some("a"))];
    let copy = l.log_copy();
    assert_eq!(copy.len(), 1);
    assert_eq!(copy[0].1.content, Some("a".to_string()));
}
