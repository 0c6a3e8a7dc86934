//! Buffers that keep only what came last.

use std::collections::VecDeque;

use vstd::prelude::*;

verus! {

/// The last `n` of a list, or all of it.
pub open spec fn last_of<T>(s: Seq<T>, n: nat) -> Seq<T> {
    if s.len() > n {
        s.skip(s.len() - n)
    } else {
        s
    }
}

/// Drops the oldest until no more than `max` are left.
pub fn keep_last<T>(buffer: &mut VecDeque<T>, max: usize)
    ensures
        final(buffer)@ == last_of(old(buffer)@, max as nat),
{
    while buffer.len() > max
        invariant
            last_of(buffer@, max as nat) == last_of(old(buffer)@, max as nat),
        decreases buffer@.len(),
    {
        let ghost before = buffer@;
        let _ = buffer.pop_front();
        assert(last_of(buffer@, max as nat) =~= last_of(before, max as nat));
    }
}

} // verus!
