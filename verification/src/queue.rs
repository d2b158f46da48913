//! Filling a first-in, first-out queue.

use std::collections::VecDeque;
use vstd::prelude::*;

verus! {

/// Appends the items to the back of the queue, in order.
pub(crate) fn enqueue<T>(queue: &mut VecDeque<T>, items: Vec<T>)
    ensures
        final(queue)@ == old(queue)@ + items@,
{
    for item in it: items
        invariant
            it.seq() == items@,
            queue@ == old(queue)@ + it.seq().take(it.index() as int),
    {
        queue.push_back(item);
        assert(it.seq().take(it.index() + 1) == it.seq().take(it.index() as int).push(item));
    }
    assert(items@.take(items@.len() as int) == items@);
}

} // verus!
