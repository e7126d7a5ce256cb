use vstd::prelude::*;

verus! {

/// The kind of an entry in a node's log.
#[derive(PartialEq, Eq, Structural, Clone, Copy, Debug)]
pub enum OperationType {
    Queue,
    Dequeue,
    AddNode,
    ChangeLeader,
    Commit,
    /// An entry that does nothing and is not kept in the log (named
    /// `None` on the wire).
    NoOp,
}

/// One log entry's operation: what to do, its argument, and whether it
/// has been committed.
#[derive(Clone, Debug)]
pub struct Operation {
    pub operation_type: OperationType,
    pub content: Option<String>,
    pub is_committed: Option<bool>,
}

/// The mathematical value of an [`Operation`].
#[verifier::ext_equal]
pub struct OperationView {
    pub operation_type: OperationType,
    pub content: Option<Seq<char>>,
    pub is_committed: Option<bool>,
}

/// The view of an optional string.
pub open spec fn opt_string_view(s: Option<String>) -> Option<Seq<char>> {
    match s {
        Some(t) => Some(t@),
        None => None,
    }
}

impl View for Operation {
    type V = OperationView;

    open spec fn view(&self) -> OperationView {
        OperationView {
            operation_type: self.operation_type,
            content: opt_string_view(self.content),
            is_committed: self.is_committed,
        }
    }
}

/// A log entry: the term in which it was created and its operation.
pub type Entry = (i32, Operation);

/// The view of a log entry.
pub type EntryView = (i32, OperationView);

pub open spec fn entry_view(e: Entry) -> EntryView {
    (e.0, e.1@)
}

pub open spec fn opt_entry_view(e: Option<Entry>) -> Option<EntryView> {
    match e {
        Some(x) => Some(entry_view(x)),
        None => None,
    }
}

/// The view of a sequence of log entries.
pub open spec fn entries_view(s: Seq<Entry>) -> Seq<EntryView> {
    s.map_values(|e: Entry| entry_view(e))
}

/// The view of a sequence of strings.
pub open spec fn strings_view(s: Seq<String>) -> Seq<Seq<char>> {
    s.map_values(|x: String| x@)
}

/// Two operations are the same when their kinds and contents agree; the
/// commit mark is not compared.
pub open spec fn same_operation(a: OperationView, b: OperationView) -> bool {
    a.operation_type == b.operation_type && a.content == b.content
}

/// Copies an optional string.
pub fn clone_opt_string(s: &Option<String>) -> (r: Option<String>)
    ensures
        opt_string_view(r) == opt_string_view(*s),
{
    match s {
        Some(t) => Some(t.clone()),
        None => None,
    }
}

/// Compares two optional strings by their contents.
pub fn opt_string_eq(a: &Option<String>, b: &Option<String>) -> (r: bool)
    ensures
        r == (opt_string_view(*a) == opt_string_view(*b)),
{
    match (a, b) {
        (Some(x), Some(y)) => *x == *y,
        (None, None) => true,
        _ => false,
    }
}

impl Operation {
    /// A new, uncommitted operation of the given kind carrying `content`.
    pub fn new(operation_type: OperationType, content: String) -> (r: Operation)
        ensures
            r@ == (OperationView {
                operation_type: operation_type,
                content: Some(content@),
                is_committed: Some(false),
            }),
    {
        Operation { operation_type: operation_type, content: Some(content), is_committed: Some(false) }
    }

    /// Whether `operation` is the same operation as this one: same kind and
    /// same content, whatever their commit marks.
    pub fn is_equal(&self, operation: Operation) -> (r: bool)
        ensures
            r == same_operation(operation@, self@),
    {
        if operation.operation_type == self.operation_type && opt_string_eq(&operation.content, &self.content) {
            return true;
        }
        return false;
    }

    /// A copy of this operation.
    pub fn duplicate(&self) -> (r: Operation)
        ensures
            r@ == self@,
    {
        Operation {
            operation_type: self.operation_type,
            content: clone_opt_string(&self.content),
            is_committed: self.is_committed,
        }
    }
}

/// A copy of a log entry.
pub fn clone_entry(e: &Entry) -> (r: Entry)
    ensures
        entry_view(r) == entry_view(*e),
{
    (e.0, e.1.duplicate())
}

/// A copy of an optional log entry.
pub fn clone_opt_entry(e: &Option<Entry>) -> (r: Option<Entry>)
    ensures
        opt_entry_view(r) == opt_entry_view(*e),
{
    match e {
        Some(x) => Some(clone_entry(x)),
        None => None,
    }
}

/// A copy of a vector of log entries.
pub fn clone_entries(v: &Vec<Entry>) -> (r: Vec<Entry>)
    ensures
        entries_view(r@) == entries_view(v@),
{
    let mut r: Vec<Entry> = Vec::new();
    let mut i: usize = 0;
    while i < v.len()
        invariant
            i <= v.len(),
            r@.len() == i,
            forall|j: int| 0 <= j < i ==> entry_view(#[trigger] r@[j]) == entry_view(v@[j]),
        decreases v.len() - i,
    {
        let e = clone_entry(&v[i]);
        r.push(e);
        i = i + 1;
    }
    assert(entries_view(r@) =~= entries_view(v@));
    r
}

/// A copy of a vector of strings.
pub fn clone_strings(v: &Vec<String>) -> (r: Vec<String>)
    ensures
        strings_view(r@) == strings_view(v@),
{
    let mut r: Vec<String> = Vec::new();
    let mut i: usize = 0;
    while i < v.len()
        invariant
            i <= v.len(),
            r@.len() == i,
            forall|j: int| 0 <= j < i ==> (#[trigger] r@[j])@ == v@[j]@,
        decreases v.len() - i,
    {
        let s = v[i].clone();
        r.push(s);
        i = i + 1;
    }
    assert(strings_view(r@) =~= strings_view(v@));
    r
}

} // verus!
