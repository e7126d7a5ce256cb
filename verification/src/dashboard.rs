use vstd::prelude::*;
use vstd::string::*;

use crate::operation::strings_view;
use crate::text::{decimal_i32, parse_i32};

verus! {

/// A node as the dashboard shows it.
pub struct Node {
    pub name: String,
    pub address: String,
    pub is_tracked: bool,
    pub log: String,
    pub status: bool,
}

/// The mathematical value of a [`Node`].
pub struct NodeRow {
    pub name: Seq<char>,
    pub address: Seq<char>,
    pub is_tracked: bool,
    pub log: Seq<char>,
    pub status: bool,
}

impl View for Node {
    type V = NodeRow;

    open spec fn view(&self) -> NodeRow {
        NodeRow {
            name: self.name@,
            address: self.address@,
            is_tracked: self.is_tracked,
            log: self.log@,
            status: self.status,
        }
    }
}

/// What the `csv` crate's default reader (the first line being the header)
/// reads from the bytes of a file: one item per record, its fields when it
/// could be read, `None` when it could not.
pub uninterp spec fn csv_records(text: Seq<u8>) -> Seq<Option<Seq<Seq<char>>>>;

pub open spec fn record_view(r: Option<Vec<String>>) -> Option<Seq<Seq<char>>> {
    match r {
        Some(fields) => Some(strings_view(fields@)),
        None => None,
    }
}

pub open spec fn records_view(rs: Seq<Option<Vec<String>>>) -> Seq<Option<Seq<Seq<char>>>> {
    rs.map_values(|r: Option<Vec<String>>| record_view(r))
}

/// The records that `csv::Reader::from_reader` reads from `text` through
/// `records()`, each converted to its fields, or to `None` for a record
/// that `csv` reports as an error.  The contract names the result as a
/// function of the bytes alone; which records `csv` reads is not stated
/// here.
#[verifier::external_body]
pub(crate) fn read_csv_records(text: &Vec<u8>) -> (r: Vec<Option<Vec<String>>>)
    ensures
        records_view(r@) == csv_records(text@),
{
    let mut reader = csv::Reader::from_reader(text.as_slice());
    reader.records().map(|record| match record {
        Ok(fields) => Some(fields.iter().map(|f| f.to_string()).collect()),
        Err(_) => None,
    }).collect()
}

/// Whether a readable record of the node file has a name, an address and a
/// tracking flag that is an `i32`.
pub open spec fn record_ok(r: Option<Seq<Seq<char>>>) -> bool {
    match r {
        Some(f) => f.len() >= 3 && decimal_i32(f[2]) is Some,
        None => true,
    }
}

/// The nodes of the node file's records: one per readable record, in order,
/// tracked when its flag is 1; unreadable records are skipped.
pub open spec fn nodes_of(rs: Seq<Option<Seq<Seq<char>>>>) -> Seq<NodeRow>
    decreases rs.len(),
{
    if rs.len() == 0 {
        Seq::empty()
    } else {
        match rs.last() {
            Some(f) => nodes_of(rs.drop_last()).push(
                NodeRow {
                    name: f[0],
                    address: f[1],
                    is_tracked: decimal_i32(f[2]) == Some(1i32),
                    log: Seq::empty(),
                    status: false,
                },
            ),
            None => nodes_of(rs.drop_last()),
        }
    }
}

pub open spec fn unreadable_count(rs: Seq<Option<Seq<Seq<char>>>>) -> nat
    decreases rs.len(),
{
    if rs.len() == 0 {
        0
    } else {
        unreadable_count(rs.drop_last()) + if rs.last() is None {
            1nat
        } else {
            0nat
        }
    }
}

/// The nodes read from the node file, and how many of its records could not
/// be read.
pub struct NodeFile {
    pub nodes: Vec<Node>,
    pub unreadable: usize,
}

/// The nodes of the node file's records, or `None` when a readable record
/// lacks a field or has a tracking flag that is not an `i32`.
pub fn nodes_from_records(records: &Vec<Option<Vec<String>>>) -> (r: Option<NodeFile>)
    ensures
        r is None <==> exists|i: int| 0 <= i < records@.len() && !record_ok(#[trigger] record_view(records@[i])),
        r matches Some(file) ==> file.nodes@.map_values(|n: Node| n@) == nodes_of(records_view(records@))
            && file.unreadable == unreadable_count(records_view(records@)),
{
    let ghost rs = records_view(records@);
    let mut nodes: Vec<Node> = Vec::new();
    let mut unreadable: usize = 0;
    let mut i: usize = 0;
    while i < records.len()
        invariant
            i <= records.len(),
            rs == records_view(records@),
            forall|j: int| 0 <= j < i ==> record_ok(#[trigger] record_view(records@[j])),
            nodes@.map_values(|n: Node| n@) == nodes_of(rs.take(i as int)),
            unreadable == unreadable_count(rs.take(i as int)),
            unreadable <= i,
        decreases records.len() - i,
    {
        assert(rs.take(i + 1).drop_last() =~= rs.take(i as int));
        assert(rs.take(i + 1).last() == record_view(records@[i as int]));
        match &records[i] {
            None => {
                unreadable = unreadable + 1;
            },
            Some(fields) => {
                assert(record_view(records@[i as int]) == Some(strings_view(fields@)));
                if fields.len() < 3 {
                    return None;
                }
                let flag = parse_i32(fields[2].as_str());
                match flag {
                    None => {
                        return None;
                    },
                    Some(value) => {
                        let ghost before = nodes@.map_values(|n: Node| n@);
                        let node = Node {
                            name: fields[0].clone(),
                            address: fields[1].clone(),
                            is_tracked: value == 1,
                            log: String::new(),
                            status: false,
                        };
                        nodes.push(node);
                        assert(nodes@.map_values(|n: Node| n@) =~= before.push(node@));
                    },
                }
            },
        }
        i = i + 1;
    }
    assert(rs.take(records.len() as int) =~= rs);
    Some(NodeFile { nodes: nodes, unreadable: unreadable })
}

/// Reads the node file's bytes into nodes, or `None` when a readable record
/// lacks a field or has a tracking flag that is not an `i32`.
pub fn load_nodes(text: &Vec<u8>) -> (r: Option<NodeFile>)
    ensures
        r is None <==> exists|i: int| 0 <= i < csv_records(text@).len() && !record_ok(#[trigger] csv_records(text@)[i]),
        r matches Some(file) ==> file.nodes@.map_values(|n: Node| n@) == nodes_of(csv_records(text@))
            && file.unreadable == unreadable_count(csv_records(text@)),
{
    let records = read_csv_records(text);
    let r = nodes_from_records(&records);
    proof {
        let rs = records_view(records@);
        assert forall|i: int| 0 <= i < rs.len() implies #[trigger] rs[i] == record_view(records@[i]) by {}
        if r is None {
            let i = choose|i: int| 0 <= i < records@.len() && !record_ok(#[trigger] record_view(records@[i]));
            assert(!record_ok(rs[i]));
        }
    }
    r
}

/// The dashboard's pages.
#[derive(PartialEq, Eq, Structural, Clone, Copy, Debug)]
pub enum Pages {
    NodeList,
    NodeDetail,
    AddNode,
}

/// The keys the dashboard reacts to.
#[derive(PartialEq, Eq, Structural, Clone, Copy, Debug)]
pub enum Key {
    /// The letter `q`.
    Quit,
    Down,
    Up,
    Right,
    Left,
    Enter,
    /// Any other key.
    Other,
}

/// What the dashboard must do after a key.
#[derive(PartialEq, Eq, Structural, Clone, Copy, Debug)]
pub enum KeyAction {
    /// Leave the dashboard.
    Exit,
    /// Fetch the log of the node at this row, then show its details.
    FetchLog(usize),
    /// Draw again.
    Continue,
}

/// The dashboard's state; times are nanoseconds since the Unix epoch.
pub struct GlobalState {
    pub nodes: Vec<Node>,
    pub leader: i32,
    pub current_page: Pages,
    /// The selected row of the node table.
    pub selected: usize,
    pub selected_node: Option<Node>,
    pub last_updated: u64,
}

/// The menu tab to highlight on a page.
pub fn tab_index(page: Pages) -> (r: usize)
    ensures
        r == (if page == Pages::AddNode { 1usize } else { 0usize }),
{
    match page {
        Pages::NodeList => 0,
        Pages::AddNode => 1,
        _ => 0,
    }
}

/// The text to show for a node's log: what the node sent, or "No log" when
/// it sent nothing.
pub fn log_text(body: String) -> (r: String)
    ensures
        body@.len() == 0 ==> r@ == "No log"@,
        body@.len() > 0 ==> r@ == body@,
{
    if body.as_str().is_empty() {
        String::from_str("No log")
    } else {
        body
    }
}

/// A copy of a node.
pub fn copy_node(n: &Node) -> (r: Node)
    ensures
        r.name@ == n.name@,
        r.address@ == n.address@,
        r.is_tracked == n.is_tracked,
        r.log@ == n.log@,
        r.status == n.status,
{
    Node {
        name: n.name.clone(),
        address: n.address.clone(),
        is_tracked: n.is_tracked,
        log: n.log.clone(),
        status: n.status,
    }
}

/// The key handling of the dashboard: `q` leaves a node's details for the
/// list and leaves the dashboard from anywhere else; Down and Up move the
/// selection within the table; Right opens the add-node page from the list
/// and Left goes back; Enter fetches the selected node's log.
pub open spec fn key_outcome(page: Pages, selected: nat, rows: nat, key: Key) -> (Pages, nat, KeyAction) {
    match key {
        Key::Quit => if page == Pages::NodeDetail {
            (Pages::NodeList, selected, KeyAction::Continue)
        } else {
            (page, selected, KeyAction::Exit)
        },
        Key::Down => if selected < rows - 1 {
            (page, selected + 1, KeyAction::Continue)
        } else {
            (page, selected, KeyAction::Continue)
        },
        Key::Up => if selected > 0 {
            (page, (selected - 1) as nat, KeyAction::Continue)
        } else {
            (page, selected, KeyAction::Continue)
        },
        Key::Right => if page == Pages::NodeList {
            (Pages::AddNode, selected, KeyAction::Continue)
        } else {
            (page, selected, KeyAction::Continue)
        },
        Key::Left => if page == Pages::AddNode {
            (Pages::NodeList, selected, KeyAction::Continue)
        } else {
            (page, selected, KeyAction::Continue)
        },
        Key::Enter => (page, selected, KeyAction::FetchLog(selected as usize)),
        Key::Other => (page, selected, KeyAction::Continue),
    }
}

/// The keys on which the dashboard fails: moving down or opening a node
/// when the table is empty, opening a row that does not exist.
pub open spec fn key_fails(selected: nat, rows: nat, key: Key) -> bool {
    (key == Key::Down && rows == 0) || (key == Key::Enter && selected >= rows)
}

/// How long, in nanoseconds (one second), node statuses stay fresh.
pub open spec fn refresh_interval() -> u64 {
    1000000000
}

impl GlobalState {
    /// A dashboard showing the node list with the first row selected.
    pub fn new(nodes: Vec<Node>, now: u64) -> (r: GlobalState)
        ensures
            r.nodes@ == nodes@,
            r.leader == -1,
            r.current_page == Pages::NodeList,
            r.selected == 0,
            r.selected_node is None,
            r.last_updated == now,
    {
        GlobalState {
            nodes: nodes,
            leader: -1,
            current_page: Pages::NodeList,
            selected: 0,
            selected_node: None,
            last_updated: now,
        }
    }

    /// Whether reacting to `key` would fail.
    pub fn key_would_fail(&self, key: Key) -> (r: bool)
        ensures
            r == key_fails(self.selected as nat, self.nodes.len() as nat, key),
    {
        (key == Key::Down && self.nodes.len() == 0) || (key == Key::Enter && self.selected >= self.nodes.len())
    }

    /// Reacts to a key.
    pub fn handle_key(&mut self, key: Key) -> (r: KeyAction)
        requires
            !key_fails(old(self).selected as nat, old(self).nodes.len() as nat, key),
        ensures
            (final(self).current_page, final(self).selected as nat, r) == key_outcome(
                old(self).current_page,
                old(self).selected as nat,
                old(self).nodes.len() as nat,
                key,
            ),
            final(self).nodes == old(self).nodes,
            final(self).selected_node == old(self).selected_node,
            final(self).last_updated == old(self).last_updated,
            final(self).leader == old(self).leader,
    {
        match key {
            Key::Quit => {
                if self.current_page == Pages::NodeDetail {
                    self.current_page = Pages::NodeList;
                    KeyAction::Continue
                } else {
                    KeyAction::Exit
                }
            },
            Key::Down => {
                if self.selected < self.nodes.len() - 1 {
                    self.selected = self.selected + 1;
                }
                KeyAction::Continue
            },
            Key::Up => {
                if self.selected > 0 {
                    self.selected = self.selected - 1;
                }
                KeyAction::Continue
            },
            Key::Right => {
                if self.current_page == Pages::NodeList {
                    self.current_page = Pages::AddNode;
                }
                KeyAction::Continue
            },
            Key::Left => {
                if self.current_page == Pages::AddNode {
                    self.current_page = Pages::NodeList;
                }
                KeyAction::Continue
            },
            Key::Enter => KeyAction::FetchLog(self.selected),
            Key::Other => KeyAction::Continue,
        }
    }

    /// Shows the details of the node at row `index`, whose log text is
    /// `log`.
    pub fn show_node(&mut self, index: usize, log: String)
        requires
            index < old(self).nodes.len(),
        ensures
            final(self).nodes@.len() == old(self).nodes@.len(),
            forall|i: int| 0 <= i < old(self).nodes@.len() && i != index ==> final(self).nodes@[i] == old(self).nodes@[i],
            final(self).nodes@[index as int]@ == (NodeRow { log: log@, ..old(self).nodes@[index as int]@ }),
            final(self).selected_node matches Some(n) && n@ == final(self).nodes@[index as int]@,
            final(self).current_page == Pages::NodeDetail,
            final(self).selected == old(self).selected,
            final(self).leader == old(self).leader,
            final(self).last_updated == old(self).last_updated,
    {
        let old_node = &self.nodes[index];
        let updated = Node {
            name: old_node.name.clone(),
            address: old_node.address.clone(),
            is_tracked: old_node.is_tracked,
            log: log,
            status: old_node.status,
        };
        let shown = copy_node(&updated);
        self.nodes.set(index, updated);
        self.selected_node = Some(shown);
        self.current_page = Pages::NodeDetail;
    }

    /// Whether the node statuses are due for a refresh at `now`.
    pub fn refresh_due(&self, now: u64) -> (r: bool)
        requires
            now >= self.last_updated,
        ensures
            r == (now - self.last_updated > refresh_interval()),
    {
        now - self.last_updated > 1000000000
    }

    /// Records the nodes' statuses, one per node, found at `now`.
    pub fn record_statuses(&mut self, statuses: &Vec<bool>, now: u64)
        requires
            statuses@.len() == old(self).nodes@.len(),
        ensures
            final(self).last_updated == now,
            final(self).nodes@.len() == old(self).nodes@.len(),
            forall|i: int| #![trigger final(self).nodes@[i]] 0 <= i < statuses@.len() ==> final(self).nodes@[i].status == statuses@[i]
                && final(self).nodes@[i].name == old(self).nodes@[i].name
                && final(self).nodes@[i].address == old(self).nodes@[i].address
                && final(self).nodes@[i].log == old(self).nodes@[i].log
                && final(self).nodes@[i].is_tracked == old(self).nodes@[i].is_tracked,
            final(self).current_page == old(self).current_page,
            final(self).selected == old(self).selected,
            final(self).selected_node == old(self).selected_node,
            final(self).leader == old(self).leader,
    {
        self.last_updated = now;
        let mut i: usize = 0;
        while i < statuses.len()
            invariant
                i <= statuses.len(),
                statuses@.len() == old(self).nodes@.len(),
                self.nodes@.len() == old(self).nodes@.len(),
                self.last_updated == now,
                self.current_page == old(self).current_page,
                self.selected == old(self).selected,
                self.selected_node == old(self).selected_node,
                self.leader == old(self).leader,
                forall|j: int| #![trigger self.nodes@[j]] 0 <= j < i ==> self.nodes@[j].status == statuses@[j]
                    && self.nodes@[j].name == old(self).nodes@[j].name
                    && self.nodes@[j].address == old(self).nodes@[j].address
                    && self.nodes@[j].log == old(self).nodes@[j].log
                    && self.nodes@[j].is_tracked == old(self).nodes@[j].is_tracked,
                forall|j: int| i <= j < self.nodes@.len() ==> #[trigger] self.nodes@[j] == old(self).nodes@[j],
            decreases statuses.len() - i,
        {
            let n = &self.nodes[i];
            let updated = Node {
                name: n.name.clone(),
                address: n.address.clone(),
                is_tracked: n.is_tracked,
                log: n.log.clone(),
                status: statuses[i],
            };
            self.nodes.set(i, updated);
            i = i + 1;
        }
    }
}

} // verus!
