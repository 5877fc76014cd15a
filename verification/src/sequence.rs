//! Reversal of vectors, so that a container can be emptied from its front
//! by popping from the back.
use vstd::prelude::*;

verus! {

/// Reversing twice gives the sequence back.
pub proof fn lemma_reverse_twice<T>(s: Seq<T>)
    ensures
        s.reverse().reverse() == s,
{
    assert(s.reverse().reverse() =~= s);
}

/// Dropping the last element of a sequence drops the first of its reverse.
pub proof fn lemma_reverse_drop_last<T>(s: Seq<T>)
    requires
        s.len() > 0,
    ensures
        s.reverse().first() == s.last(),
        s.drop_last().reverse() == s.reverse().drop_first(),
{
    assert(s.drop_last().reverse() =~= s.reverse().drop_first());
}

/// The elements of `v` in the opposite order.
pub fn reversed<T>(v: Vec<T>) -> (r: Vec<T>)
    ensures
        r@ == v@.reverse(),
        r@.reverse() == v@,
{
    let ghost all = v@;
    let mut pending = v;
    let mut r: Vec<T> = Vec::new();
    while pending.len() > 0
        invariant
            pending@.len() + r@.len() == all.len(),
            pending@ == all.subrange(0, pending@.len() as int),
            forall|k: int| 0 <= k < r@.len() ==> r@[k] == all[all.len() - 1 - k],
        decreases pending.len(),
    {
        let item = pending.pop().unwrap();
        r.push(item);
    }
    proof {
        assert(r@ =~= all.reverse());
        lemma_reverse_twice(all);
    }
    r
}

} // verus!
