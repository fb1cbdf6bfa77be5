//! Facts about sequences.
use vstd::prelude::*;

verus! {

/// What a sequence contains after one more element was added.
pub proof fn lemma_push_contains<T>(s: Seq<T>, last: T, x: T)
    ensures
        s.push(last).contains(x) <==> s.contains(x) || x == last,
{
    if s.contains(x) {
        let k = s.index_of(x);
        assert(s.push(last)[k] == x);
    }
    assert(s.push(last)[s.len() as int] == last);
}

} // verus!
