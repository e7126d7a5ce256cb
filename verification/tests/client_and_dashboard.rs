use raft_queue::client::{ClientCommand, command_is_well_formed, interpret_command, line_words};
use raft_queue::dashboard::{GlobalState, Key, KeyAction, Node, Pages, load_nodes, log_text, nodes_from_records, tab_index};
use raft_queue::args::port_from_argument;
use raft_queue::text::{parse_i32, parse_u16};
use raft_queue::operation::OperationType;

fn words(line: &str) -> Vec<String> {
    line.split(" ").map(|w| w.to_string()).collect()
}

#[test]
fn client_commands() {
    assert!(matches!(interpret_command(&words("exit")), ClientCommand::Exit));
    match interpret_command(&words("queue hello 127.0.0.1:8000")) {
        ClientCommand::Execute { request, address } => {
            assert_eq!(request.operation_type, OperationType::Queue);
            assert_eq!(request.content, Some("hello".to_string()));
            assert_eq!(address, "127.0.0.1:8000");
        },
        _ => panic!("expected an execute command"),
    }
    match interpret_command(&words("dequeue 127.0.0.1:8000")) {
        ClientCommand::Execute { request, address } => {
            assert_eq!(request.operation_type, OperationType::Dequeue);
            assert_eq!(request.content, None);
            assert_eq!(address, "127.0.0.1:8000");
        },
        _ => panic!("expected an execute command"),
    }
    match interpret_command(&words("request_log 127.0.0.1:8001")) {
        ClientCommand::RequestLog { address } => assert_eq!(address, "127.0.0.1:8001"),
        _ => panic!("expected a log request"),
    }
    assert!(matches!(interpret_command(&words("exit now")), ClientCommand::Ignore));
    assert!(matches!(interpret_command(&words("hello")), ClientCommand::Ignore));
    assert!(!command_is_well_formed(&words("queue hello")));
    assert!(!command_is_well_formed(&words("dequeue")));
    assert!(command_is_well_formed(&words("queue a b")));
    assert!(command_is_well_formed(&words("anything")));
}

fn dashboard(n: usize) -> GlobalState {
    let nodes = (0..n)
        .map(|i| Node {
            name: format!("n{}", i),
            address: format!("http://127.0.0.1:800{}", i),
            is_tracked: true,
            log: String::new(),
            status: false,
        })
        .collect();
    GlobalState::new(nodes, 0)
}

#[test]
fn dashboard_keys() {
    let mut s = dashboard(3);
    assert_eq!(s.handle_key(Key::Up), KeyAction::Continue);
    assert_eq!(s.selected, 0);
    s.handle_key(Key::Down);
    s.handle_key(Key::Down);
    s.handle_key(Key::Down);
    assert_eq!(s.selected, 2);
    assert_eq!(s.handle_key(Key::Right), KeyAction::Continue);
    assert_eq!(s.current_page, Pages::AddNode);
    assert_eq!(tab_index(s.current_page), 1);
    s.handle_key(Key::Left);
    assert_eq!(s.current_page, Pages::NodeList);
    assert_eq!(tab_index(s.current_page), 0);
    assert_eq!(s.handle_key(Key::Enter), KeyAction::FetchLog(2));
    s.nodes[2].status = true;
    s.show_node(2, log_text(String::new()));
    assert_eq!(s.current_page, Pages::NodeDetail);
    assert_eq!(s.nodes[2].log, "No log");
    assert!(s.nodes[2].status && s.nodes[2].is_tracked);
    let shown = s.selected_node.as_ref().unwrap();
    assert_eq!(shown.name, "n2");
    assert_eq!(shown.log, "No log");
    assert!(shown.status && shown.is_tracked);
    assert_eq!(tab_index(s.current_page), 0);
    assert_eq!(s.handle_key(Key::Quit), KeyAction::Continue);
    assert_eq!(s.current_page, Pages::NodeList);
    assert_eq!(s.handle_key(Key::Quit), KeyAction::Exit);
    assert!(s.key_would_fail(Key::Down) == false);
    let empty = dashboard(0);
    assert!(empty.key_would_fail(Key::Down));
    assert!(empty.key_would_fail(Key::Enter));
}

#[test]
fn dashboard_records() {
    assert_eq!(log_text("[]".to_string()), "[]");
    let mut s = dashboard(2);
    assert!(!s.refresh_due(1_000_000_000));
    assert!(s.refresh_due(1_000_000_001));
    s.record_statuses(&vec![true, false], 1001);
    assert!(s.nodes[0].status);
    assert!(!s.nodes[1].status);
    assert_eq!(s.last_updated, 1001);
    assert!(s.nodes[0].is_tracked);
}

#[test]
fn node_file_is_read_into_nodes() {
    let text = b"name,address,tracked\nalpha,http://127.0.0.1:8000,1\nbeta,http://127.0.0.1:8001,0\n".to_vec();
    let file = load_nodes(&text).unwrap();
    assert_eq!(file.unreadable, 0);
    assert_eq!(file.nodes.len(), 2);
    assert_eq!(file.nodes[0].name, "alpha");
    assert_eq!(file.nodes[0].address, "http://127.0.0.1:8000");
    assert!(file.nodes[0].is_tracked);
    assert!(!file.nodes[1].is_tracked);
    assert!(!file.nodes[1].status);
    assert_eq!(file.nodes[1].log, "");
    assert_eq!(load_nodes(&Vec::new()).unwrap().nodes.len(), 0);
    // a flag that is not a number, as the file's reader would fail on
    assert!(load_nodes(&b"name,address,tracked\nalpha,x,yes\n".to_vec()).is_none());
    // a record of another length than the header is one the csv reader reports
    let uneven = load_nodes(&b"name,address,tracked\nalpha,x\nbeta,y,1\n".to_vec()).unwrap();
    assert_eq!(uneven.unreadable, 1);
    assert_eq!(uneven.nodes.len(), 1);
}

#[test]
fn node_records_need_three_fields_and_a_number() {
    let rec = |fields: &[&str]| Some(fields.iter().map(|f| f.to_string()).collect::<Vec<String>>());
    let ok = nodes_from_records(&vec![rec(&["a", "b", "1"]), None, rec(&["c", "d", "-7"])]).unwrap();
    assert_eq!(ok.nodes.len(), 2);
    assert_eq!(ok.unreadable, 1);
    assert!(ok.nodes[0].is_tracked);
    assert!(!ok.nodes[1].is_tracked);
    assert!(nodes_from_records(&vec![rec(&["a", "b"])]).is_none());
    assert!(nodes_from_records(&vec![rec(&["a", "b", "2147483648"])]).is_none());
    assert!(nodes_from_records(&vec![rec(&["a", "b", " 1"])]).is_none());
}

#[test]
fn integers_are_read_as_rust_reads_them() {
    for text in ["0", "1", "-1", "+5", "007", "2147483647", "-2147483648", "", "-", "+", "1a", " 1", "2147483648", "-2147483649", "99999999999", "١"] {
        assert_eq!(parse_i32(text), text.parse::<i32>().ok(), "{}", text);
    }
}

#[test]
fn typed_lines_split_as_the_client_splits_them() {
    for line in ["queue a 127.0.0.1:8000\n", "  exit \n", "", "\n", "a  b", " \u{3000}dequeue x\u{a0}", "x\ty z", "é ü"] {
        let expected: Vec<String> = line.trim_end_matches('\n').trim().split(" ").map(|w| w.to_string()).collect();
        assert_eq!(line_words(line), expected, "{:?}", line);
    }
}

#[test]
fn ports_are_read_as_rust_reads_them() {
    for text in ["8000", "+80", "0", "65535", "65536", "-1", "-0", "", "80a", " 80", "0008001"] {
        assert_eq!(parse_u16(text), text.parse::<u16>().ok(), "{}", text);
    }
    assert_eq!(port_from_argument(None), (8000, false));
    assert_eq!(port_from_argument(Some("8001".to_string())), (8001, false));
    assert_eq!(port_from_argument(Some("client".to_string())), (8000, true));
}
