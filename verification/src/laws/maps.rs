//! Maps by text and bounded buffers: what is put in is found, and what is last stays.

use std::collections::VecDeque;

use vstd::prelude::*;

use crate::ring::keep_last;
use crate::textmap::TextMap;

verus! {

/// What is put in under a text is found under it, in place of what was there, and what is under
/// other texts stays; what is taken out is gone.
pub proof fn law_text_maps<V>(
    map: &mut TextMap<V>,
    key: String,
    value: V,
    done: (),
    after: &TextMap<V>,
    same: &str,
    found: Option<&V>,
    other: &str,
    before: &TextMap<V>,
    was: Option<&V>,
    is: Option<&V>,
    out: &mut TextMap<V>,
    taken: Option<V>,
    empty: &TextMap<V>,
    gone: Option<&V>,
)
    requires
        old(map).wf(),
        call_ensures(TextMap::<V>::insert, (map, key, value), done),
        *after == *final(map),
        same@ == key@,
        call_ensures(TextMap::<V>::get, (after, same), found),
        *before == *old(map),
        other@ != key@,
        call_ensures(TextMap::<V>::get, (before, other), was),
        call_ensures(TextMap::<V>::get, (after, other), is),
        *old(out) == *final(map),
        call_ensures(TextMap::<V>::remove, (out, same), taken),
        *empty == *final(out),
        call_ensures(TextMap::<V>::get, (empty, same), gone),
    ensures
        found is Some && *found->Some_0 == value,
        was is Some <==> is is Some,
        was is Some ==> *is->Some_0 == *was->Some_0,
        taken is Some && taken->Some_0 == value,
        gone is None,
        final(map).wf(),
        final(out).wf(),
{
}

/// No more than the most are kept of a buffer, and they are the last ones.
pub proof fn law_buffers_keep_the_last<T>(buffer: &mut VecDeque<T>, max: usize, done: (), i: int)
    requires
        call_ensures(keep_last::<T>, (buffer, max), done),
        0 <= i < final(buffer)@.len(),
    ensures
        old(buffer)@.len() <= max ==> final(buffer)@ == old(buffer)@,
        old(buffer)@.len() > max ==> final(buffer)@.len() == max,
        final(buffer)@[i] == old(buffer)@[old(buffer)@.len() - final(buffer)@.len() + i],
{
    if old(buffer)@.len() <= max {
        assert(final(buffer)@ =~= old(buffer)@);
    }
}

/// A map that has just been made has nothing under any text.
pub proof fn law_new_maps<V>(map: TextMap<V>, key: &str, found: Option<&V>)
    requires
        call_ensures(TextMap::<V>::new, (), map),
        call_ensures(TextMap::<V>::get, (&map, key), found),
    ensures
        found is None,
        map.wf(),
{
}

} // verus!
