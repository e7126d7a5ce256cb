use vstd::prelude::*;
use vstd::string::*;

use crate::operation::{OperationType, opt_string_view};
use crate::routes::execute::ExecuteRequest;

verus! {

/// What a line typed at the client asks for.
pub enum ClientCommand {
    /// Leave the client.
    Exit,
    /// Send `request` to the node at `address`.
    Execute { request: ExecuteRequest, address: String },
    /// Ask the node at `address` for its log.
    RequestLog { address: String },
    /// Anything else: do nothing.
    Ignore,
}

/// Whether a command line, split at spaces, has the words its first word
/// needs: `queue <content> <address>`, `dequeue <address>`,
/// `request_log <address>`.
pub open spec fn well_formed_command(words: Seq<Seq<char>>) -> bool {
    &&& words.len() >= 1
    &&& words[0] == "queue"@ ==> words.len() >= 3
    &&& words[0] == "dequeue"@ ==> words.len() >= 2
    &&& words[0] == "request_log"@ ==> words.len() >= 2
}

fn word_is(word: &String, keyword: &str) -> (r: bool)
    ensures
        r == (word@ == keyword@),
{
    *word == String::from_str(keyword)
}

/// Whether `c` is white space in Unicode's sense (the `White_Space`
/// property), as `char::is_whitespace` and `str::trim` take it.
pub open spec fn is_space(c: char) -> bool {
    let x = c as int;
    ||| 9 <= x <= 13
    ||| x == 32
    ||| x == 0x85
    ||| x == 0xA0
    ||| x == 0x1680
    ||| 0x2000 <= x <= 0x200A
    ||| x == 0x2028
    ||| x == 0x2029
    ||| x == 0x202F
    ||| x == 0x205F
    ||| x == 0x3000
}

pub open spec fn trim_start(s: Seq<char>) -> Seq<char>
    decreases s.len(),
{
    if s.len() > 0 && is_space(s[0]) {
        trim_start(s.drop_first())
    } else {
        s
    }
}

pub open spec fn trim_end(s: Seq<char>) -> Seq<char>
    decreases s.len(),
{
    if s.len() > 0 && is_space(s.last()) {
        trim_end(s.drop_last())
    } else {
        s
    }
}

/// The line without its leading and trailing white space.
pub open spec fn trimmed(s: Seq<char>) -> Seq<char> {
    trim_end(trim_start(s))
}

/// The pieces of `s` between spaces, as `str::split(" ")` gives them
/// (empty pieces included).
pub open spec fn split_spaces(s: Seq<char>) -> Seq<Seq<char>>
    decreases s.len(),
{
    if s.len() == 0 {
        seq![Seq::empty()]
    } else {
        let p = split_spaces(s.drop_last());
        if s.last() == ' ' {
            p.push(Seq::empty())
        } else {
            p.update(p.len() - 1, p.last().push(s.last()))
        }
    }
}

proof fn lemma_split_nonempty(s: Seq<char>)
    ensures
        split_spaces(s).len() >= 1,
    decreases s.len(),
{
    if s.len() > 0 {
        lemma_split_nonempty(s.drop_last());
    }
}

fn char_is_space(c: char) -> (r: bool)
    ensures
        r == is_space(c),
{
    let x = c as u32;
    (9 <= x && x <= 13) || x == 32 || x == 0x85 || x == 0xA0 || x == 0x1680 || (0x2000 <= x && x <= 0x200A)
        || x == 0x2028 || x == 0x2029 || x == 0x202F || x == 0x205F || x == 0x3000
}

/// The words of a typed line: the line without its surrounding white space,
/// split at each space.
pub fn line_words(line: &str) -> (r: Vec<String>)
    ensures
        r@.map_values(|w: String| w@) == split_spaces(trimmed(line@)),
{
    let n = line.unicode_len();
    let ghost s = line@;
    let mut i: usize = 0;
    assert(s.subrange(0, n as int) =~= s);
    while i < n && char_is_space(line.get_char(i))
        invariant
            i <= n,
            n == s.len(),
            s == line@,
            trim_start(s) == trim_start(s.subrange(i as int, n as int)),
        decreases n - i,
    {
        assert(s.subrange(i as int, n as int).drop_first() =~= s.subrange(i + 1, n as int));
        i = i + 1;
    }
    assert(trim_start(s) == s.subrange(i as int, n as int)) by {
        if i < n {
            assert(s.subrange(i as int, n as int)[0] == s[i as int]);
        } else {
            assert(s.subrange(i as int, n as int).len() == 0);
        }
    }
    let mut j: usize = n;
    while j > i && char_is_space(line.get_char(j - 1))
        invariant
            i <= j <= n,
            n == s.len(),
            s == line@,
            trim_end(s.subrange(i as int, n as int)) == trim_end(s.subrange(i as int, j as int)),
        decreases j,
    {
        assert(s.subrange(i as int, j as int).drop_last() =~= s.subrange(i as int, j - 1));
        j = j - 1;
    }
    let t = line.substring_char(i, j);
    assert(t@ == trimmed(s)) by {
        if j > i {
            assert(s.subrange(i as int, j as int).last() == s[j - 1]);
        }
    }
    let ghost ts = t@;
    let m = t.unicode_len();
    let mut pieces: Vec<String> = Vec::new();
    let mut start: usize = 0;
    let mut k: usize = 0;
    assert(ts.take(0) =~= Seq::<char>::empty());
    assert(pieces@.map_values(|w: String| w@).push(ts.subrange(0, 0)) =~= split_spaces(ts.take(0)));
    while k < m
        invariant
            start <= k <= m,
            m == ts.len(),
            ts == t@,
            pieces@.map_values(|w: String| w@).push(ts.subrange(start as int, k as int)) == split_spaces(ts.take(k as int)),
        decreases m - k,
    {
        let c = t.get_char(k);
        let ghost before = pieces@.map_values(|w: String| w@);
        assert(ts.take(k + 1).drop_last() =~= ts.take(k as int));
        assert(ts.take(k + 1).last() == c);
        proof {
            lemma_split_nonempty(ts.take(k as int));
        }
        if c == ' ' {
            let ghost old_start = start;
            let piece = String::from_str(t.substring_char(start, k));
            pieces.push(piece);
            start = k + 1;
            assert(pieces@.map_values(|w: String| w@) =~= before.push(ts.subrange(old_start as int, k as int)));
            assert(ts.subrange(start as int, k + 1) =~= Seq::<char>::empty());
            assert(pieces@.map_values(|w: String| w@).push(ts.subrange(start as int, k + 1)) =~= split_spaces(ts.take(k + 1)));
        } else {
            assert(ts.subrange(start as int, k + 1) =~= ts.subrange(start as int, k as int).push(c));
            assert(before.push(ts.subrange(start as int, k + 1)) =~= split_spaces(ts.take(k + 1)));
        }
        k = k + 1;
    }
    let last = String::from_str(t.substring_char(start, m));
    let ghost before = pieces@.map_values(|w: String| w@);
    pieces.push(last);
    assert(ts.take(m as int) =~= ts);
    assert(pieces@.map_values(|w: String| w@) =~= before.push(ts.subrange(start as int, m as int)));
    pieces
}

/// Whether a command line has the words its first word needs.
pub fn command_is_well_formed(words: &Vec<String>) -> (r: bool)
    ensures
        r == well_formed_command(words@.map_values(|w: String| w@)),
{
    let ghost ws = words@.map_values(|w: String| w@);
    if words.len() == 0 {
        return false;
    }
    assert(ws[0] == words@[0]@);
    if word_is(&words[0], "queue") {
        words.len() >= 3
    } else if word_is(&words[0], "dequeue") || word_is(&words[0], "request_log") {
        words.len() >= 2
    } else {
        true
    }
}

/// Interprets the words of a command line.
pub fn interpret_command(words: &Vec<String>) -> (r: ClientCommand)
    requires
        well_formed_command(words@.map_values(|w: String| w@)),
    ensures
        words.len() == 1 && words@[0]@ == "exit"@ ==> r is Exit,
        words@[0]@ == "queue"@ ==> (r matches ClientCommand::Execute { request, address }
            && request.operation_type == OperationType::Queue
            && opt_string_view(request.content) == Some(words@[1]@)
            && address@ == words@[2]@),
        words@[0]@ == "dequeue"@ ==> (r matches ClientCommand::Execute { request, address }
            && request.operation_type == OperationType::Dequeue
            && request.content is None
            && address@ == words@[1]@),
        words@[0]@ == "request_log"@ ==> (r matches ClientCommand::RequestLog { address } && address@ == words@[1]@),
        !(words.len() == 1 && words@[0]@ == "exit"@) && words@[0]@ != "queue"@ && words@[0]@ != "dequeue"@
            && words@[0]@ != "request_log"@ ==> r is Ignore,
{
    let ghost ws = words@.map_values(|w: String| w@);
    assert(ws[0] == words@[0]@);
    proof {
        reveal_strlit("exit");
        reveal_strlit("queue");
        reveal_strlit("dequeue");
        reveal_strlit("request_log");
    }
    if words.len() == 1 && word_is(&words[0], "exit") {
        ClientCommand::Exit
    } else if word_is(&words[0], "queue") {
        assert(ws.len() >= 3);
        ClientCommand::Execute {
            request: ExecuteRequest { operation_type: OperationType::Queue, content: Some(words[1].clone()) },
            address: words[2].clone(),
        }
    } else if word_is(&words[0], "dequeue") {
        assert(ws.len() >= 2);
        ClientCommand::Execute {
            request: ExecuteRequest { operation_type: OperationType::Dequeue, content: None },
            address: words[1].clone(),
        }
    } else if word_is(&words[0], "request_log") {
        assert(ws.len() >= 2);
        ClientCommand::RequestLog { address: words[1].clone() }
    } else {
        ClientCommand::Ignore
    }
}

} // verus!
