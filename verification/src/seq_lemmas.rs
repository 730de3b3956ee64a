//! Facts about sequences built one element at a time.
use vstd::prelude::*;

verus! {

/// Pushing an element that a sequence lacks keeps it free of duplicates;
/// the result holds exactly the old elements and the pushed one.
pub proof fn lemma_push_unique<A>(s: Seq<A>, x: A)
    requires
        s.no_duplicates(),
        !s.contains(x),
    ensures
        s.push(x).no_duplicates(),
        forall|y: A| #[trigger] s.push(x).contains(y) <==> (s.contains(y) || y == x),
{
    let t = s.push(x);
    assert forall|a: int, b: int| 0 <= a < t.len() && 0 <= b < t.len() && a != b implies t[a] != t[b] by {
        if a < s.len() && b < s.len() {
            assert(s[a] != s[b]);
        } else if a < s.len() {
            assert(s.contains(s[a]));
        } else {
            assert(s.contains(s[b]));
        }
    }
    assert forall|y: A| #[trigger] t.contains(y) <==> (s.contains(y) || y == x) by {
        if t.contains(y) {
            let k = choose|k: int| 0 <= k < t.len() && t[k] == y;
            if k < s.len() {
                assert(s[k] == y);
            }
        }
        if s.contains(y) {
            let k = choose|k: int| 0 <= k < s.len() && s[k] == y;
            assert(t[k] == y);
        }
        if y == x {
            assert(t[s.len() as int] == y);
        }
    }
}

/// Extending a prefix of `s` by one element adds exactly `s[i]`.
pub proof fn lemma_prefix_step<A>(s: Seq<A>, i: int)
    requires
        0 <= i < s.len(),
    ensures
        s.subrange(0, i + 1) == s.subrange(0, i).push(s[i]),
        forall|y: A| #[trigger] s.subrange(0, i + 1).contains(y) <==> (s.subrange(0, i).contains(y) || y == s[i]),
{
    let s0 = s.subrange(0, i);
    let s1 = s.subrange(0, i + 1);
    assert(s1 =~= s0.push(s[i]));
    assert forall|y: A| #[trigger] s1.contains(y) <==> (s0.contains(y) || y == s[i]) by {
        if s1.contains(y) {
            let k = choose|k: int| 0 <= k < s1.len() && s1[k] == y;
            if k < s0.len() {
                assert(s0[k] == y);
            }
        }
        if s0.contains(y) {
            let k = choose|k: int| 0 <= k < s0.len() && s0[k] == y;
            assert(s1[k] == y);
        }
        if y == s[i] {
            assert(s1[i] == y);
        }
    }
}

} // verus!
