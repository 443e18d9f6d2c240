//! Facts about sequences used by several modules.

use vstd::prelude::*;

verus! {

/// Membership in a sequence with one more element at the end.
pub proof fn lemma_seq_push_contains<A>(s: Seq<A>, v: A, x: A)
    ensures
        s.push(v).contains(x) <==> (s.contains(x) || x == v),
{
    if s.push(v).contains(x) {
        let w = choose|i: int| 0 <= i < s.push(v).len() && s.push(v)[i] == x;
        if w < s.len() {
            assert(s[w] == x);
        }
    }
    if s.contains(x) {
        let w = choose|i: int| 0 <= i < s.len() && s[i] == x;
        assert(s.push(v)[w] == x);
    }
    if x == v {
        assert(s.push(v)[s.len() as int] == v);
    }
}

} // verus!
