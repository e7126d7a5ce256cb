use raft_queue::node::{NodeInfo, NodeType};
use raft_queue::operation::{Operation, OperationType};
use raft_queue::routes::execute::ExecuteRequest;
use raft_queue::routes::heartbeat::HeartbeatRequest;
use raft_queue::routes::request_vote::ReqVoteRequest;

const LEADER: &str = "127.0.0.1:8000";

fn same_logs(a: &Vec<(i32, Operation)>, b: &Vec<(i32, Operation)>) -> bool {
    a.len() == b.len()
        && a.iter().zip(b.iter()).all(|(x, y)| {
            x.0 == y.0
                && x.1.operation_type == y.1.operation_type
                && x.1.content == y.1.content
                && x.1.is_committed == y.1.is_committed
        })
}

fn pair() -> (NodeInfo, NodeInfo) {
    let mut l = NodeInfo::with_election_timeout(LEADER.to_string(), LEADER.to_string(), 0, 30000);
    l.begin_start();
    let f = NodeInfo::with_election_timeout("127.0.0.1:8001".to_string(), LEADER.to_string(), 0, 30000);
    (l, f)
}

#[test]
fn follower_replicates_client_entries_and_commits_like_the_leader() {
    let (mut l, mut f) = pair();
    for (kind, content) in [(OperationType::Queue, "a"), (OperationType::Queue, "b"), (OperationType::Dequeue, "")] {
        let round = l.begin_execute(&ExecuteRequest { operation_type: kind, content: Some(content.to_string()) }).unwrap();
        let req = round.request().clone();
        let resp = f.apply_operation_request(req, 10, 4000);
        assert!(resp.accepted);
        assert!(same_logs(&f.log, &l.log));
        let commit = l.commit_executed();
        let resp = f.apply_operation_request(commit, 20, 4000);
        assert!(resp.accepted);
        assert!(same_logs(&f.log, &l.log));
        assert_eq!(f.queue, l.queue);
    }
    assert_eq!(l.queue, vec!["b".to_string()]);
}

#[test]
fn follower_log_only_grows() {
    let (_, mut f) = pair();
    let ops = vec![
        (0, Operation::new(OperationType::Queue, "x".to_string())),
        (0, Operation { operation_type: OperationType::Commit, content: None, is_committed: Some(true) }),
        (0, Operation::new(OperationType::Queue, "y".to_string())),
    ];
    let req = raft_queue::routes::operation::OperationRequest {
        operations: ops,
        sender: LEADER.to_string(),
        previous_log_entry: None,
        term: 0,
    };
    let before_len = f.log.len();
    f.apply_operation_request(req, 1, 1);
    assert!(f.log.len() >= before_len);
    assert_eq!(f.log[0].1.content, Some("x".to_string()));
    assert_eq!(f.log[0].1.is_committed, Some(true));
    assert_eq!(f.log[2].1.content, Some("y".to_string()));
    assert_eq!(f.queue, vec!["x".to_string()]);
}

#[test]
fn withdrawn_candidacy_restores_the_term() {
    let (_, mut f) = pair();
    f.term = 7;
    f.begin_election(40000).unwrap();
    assert_eq!(f.term, 8);
    f.apply_request_vote(&ReqVoteRequest { candidate: "z".to_string(), term: 9 }, 40001, 31000);
    assert_eq!(f.term, 7);
    assert_eq!(f.node_type, NodeType::Follower);

    let (_, mut g) = pair();
    g.term = 7;
    g.begin_election(40000).unwrap();
    g.apply_heartbeat(&HeartbeatRequest { term: 7, address: LEADER.to_string() }, 40001, 2000);
    assert_eq!(g.term, 7);
}

#[test]
fn operation_would_fail_matches_the_failing_inputs() {
    let (_, mut f) = pair();
    let bad = raft_queue::routes::operation::OperationRequest {
        operations: vec![(0, Operation { operation_type: OperationType::Queue, content: None, is_committed: None })],
        sender: LEADER.to_string(),
        previous_log_entry: None,
        term: 0,
    };
    assert!(f.operation_would_fail(&bad));
    let commit_on_empty = raft_queue::routes::operation::OperationRequest {
        operations: vec![(0, Operation { operation_type: OperationType::Commit, content: None, is_committed: None })],
        sender: LEADER.to_string(),
        previous_log_entry: None,
        term: 0,
    };
    assert!(f.operation_would_fail(&commit_on_empty));
    let fine = raft_queue::routes::operation::OperationRequest {
        operations: vec![(0, Operation::new(OperationType::Queue, "v".to_string()))],
        sender: LEADER.to_string(),
        previous_log_entry: None,
        term: 0,
    };
    assert!(!f.operation_would_fail(&fine));
    f.apply_operation_request(fine, 1, 1);
    let missing_prev = raft_queue::routes::operation::OperationRequest {
        operations: vec![],
        sender: LEADER.to_string(),
        previous_log_entry: None,
        term: 0,
    };
    assert!(f.operation_would_fail(&missing_prev));
    let refused_anyway = raft_queue::routes::operation::OperationRequest {
        operations: vec![],
        sender: "someone else".to_string(),
        previous_log_entry: None,
        term: 0,
    };
    assert!(!f.operation_would_fail(&refused_anyway));
}

#[test]
fn newcomer_adopts_the_leaders_state() {
    let (mut l, mut f) = pair();
    l.peers.push("127.0.0.1:8005".to_string());
    l.queue.push("kept".to_string());
    l.term = 3;
    let response = l.finish_register(&raft_queue::routes::register::RegisterRequest {
        sender: f.address.clone(),
        term: f.term,
    });
    f.apply_register_response(response, 99);
    assert!(same_logs(&f.log, &l.log));
    assert_eq!(f.log.last().unwrap().1.operation_type, OperationType::AddNode);
    assert_eq!(f.log.last().unwrap().1.content, Some(f.address.clone()));
    assert_eq!(f.queue, l.queue);
    assert_eq!(f.term, 3);
    assert_eq!(f.peers, vec![LEADER.to_string(), "127.0.0.1:8005".to_string()]);
    assert_eq!(l.peers, vec!["127.0.0.1:8005".to_string(), f.address.clone()]);
}
