use vstd::prelude::*;

verus! {

/// The first identifier handed out after a reset.
pub const FIRST_ID: usize = 1;

/// Issues node identifiers for one render pass, in increasing order.
pub struct IdAssigner {
    next: usize,
}

impl IdAssigner {
    /// The identifier that the next call of `next_id` returns.
    pub closed spec fn peek(&self) -> nat {
        self.next as nat
    }

    pub fn new() -> (r: IdAssigner)
        ensures
            r.peek() == FIRST_ID,
    {
        IdAssigner { next: FIRST_ID }
    }

    /// The identifier that `next_id` would return, without taking it.
    pub fn current(&self) -> (r: usize)
        ensures
            r == self.peek(),
    {
        self.next
    }
}

/// Returns the counter's value and advances it by one.
pub fn next_id(ids: &mut IdAssigner) -> (r: usize)
    requires
        old(ids).peek() < usize::MAX,
    ensures
        r == old(ids).peek(),
        final(ids).peek() == old(ids).peek() + 1,
{
    let r = ids.next;
    ids.next = ids.next + 1;
    r
}

/// Sets the counter back to its initial value.
pub fn reset_id(ids: &mut IdAssigner)
    ensures
        final(ids).peek() == FIRST_ID,
{
    ids.next = FIRST_ID;
}

} // verus!
