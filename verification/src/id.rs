//! Client identifiers: an explicitly owned counter that hands out each id
//! exactly once, in increasing order. Callers that share one counter across
//! threads wrap it in their own synchronization.

use vstd::prelude::*;

verus! {

/// A monotonically increasing source of client ids.
#[derive(Debug, Clone, Copy, PartialEq, Eq, Structural)]
pub struct ClientIdCounter {
    /// The id the next call to `new_id` will return.
    pub next: usize,
}

impl ClientIdCounter {
    /// A fresh counter, starting at id zero.
    pub fn new() -> (r: ClientIdCounter)
        ensures
            r.next == 0,
    {
        ClientIdCounter { next: 0 }
    }
}

/// Generate a new client id: the counter's current value, never handed out
/// before and never handed out again.
pub fn new_id(counter: &mut ClientIdCounter) -> (r: usize)
    requires
        old(counter).next < usize::MAX,
    ensures
        r == old(counter).next,
        final(counter).next == old(counter).next + 1,
{
    let id = counter.next;
    counter.next = counter.next + 1;
    id
}

} // verus!
