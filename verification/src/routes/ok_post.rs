use vstd::prelude::*;
use vstd::string::*;

use crate::node::NodeInfo;

verus! {

/// A probe carrying any text.
pub struct OkRequest {
    pub value: String,
}

/// The answer to a probe: the node's queue, its elements written one after
/// the other.
pub struct OkResponse {
    pub value: String,
}

/// The strings of `s` joined with nothing between them.
pub open spec fn concat_all(s: Seq<Seq<char>>) -> Seq<char>
    decreases s.len(),
{
    if s.len() == 0 {
        Seq::empty()
    } else {
        concat_all(s.drop_last()) + s.last()
    }
}

impl NodeInfo {
    /// The queue's elements joined with nothing between them.
    pub fn queue_text(&self) -> (r: String)
        ensures
            r@ == concat_all(self@.queue),
    {
        let mut r = String::new();
        let mut i: usize = 0;
        while i < self.queue.len()
            invariant
                i <= self.queue.len(),
                r@ == concat_all(self@.queue.take(i as int)),
            decreases self.queue.len() - i,
        {
            assert(self@.queue.take(i + 1).drop_last() =~= self@.queue.take(i as int));
            r = r.concat(self.queue[i].as_str());
            i = i + 1;
        }
        assert(self@.queue.take(self.queue.len() as int) =~= self@.queue);
        r
    }
}

} // verus!
