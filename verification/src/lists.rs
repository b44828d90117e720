//! Facts about picking elements of a sequence.
use vstd::prelude::*;

verus! {

/// What an element is mapped to is picked.
pub proof fn lemma_picked<A, B>(s: Seq<A>, f: spec_fn(A) -> Option<B>, a: A, b: B)
    requires
        s.contains(a),
        f(a) == Some(b),
    ensures
        s.filter_map(f).contains(b),
    decreases s.len(),
{
    let i = choose|i: int| 0 <= i < s.len() && s[i] == a;
    let rest = s.drop_last();
    if i == s.len() - 1 {
        let picked = rest.filter_map(f) + seq![b];
        assert(s.filter_map(f) =~= picked);
        assert(picked[picked.len() - 1] == b);
    } else {
        assert(rest[i] == a);
        lemma_picked(rest, f, a, b);
        let k = choose|k: int| 0 <= k < rest.filter_map(f).len() && rest.filter_map(f)[k] == b;
        assert(s.filter_map(f)[k] == b);
    }
}

/// Only what an element is mapped to is picked.
pub proof fn lemma_picked_from<A, B>(s: Seq<A>, f: spec_fn(A) -> Option<B>, b: B) -> (a: A)
    requires
        s.filter_map(f).contains(b),
    ensures
        s.contains(a),
        f(a) == Some(b),
{
    s.lemma_filter_map_contains(f, b);
    choose|a: A| #[trigger] s.contains(a) && f(a) == Some(b)
}

/// Adding an element that is not picked changes nothing.
pub proof fn lemma_not_picked<A, B>(s: Seq<A>, f: spec_fn(A) -> Option<B>, a: A)
    requires
        f(a) is None,
    ensures
        s.push(a).filter_map(f) == s.filter_map(f),
{
    assert(s.push(a).drop_last() =~= s);
    assert(s.push(a).last() == a);
}

/// Picking and changing in one go is picking first and changing what was
/// picked.
pub proof fn lemma_pick_then_change<A, B>(
    s: Seq<A>,
    f: spec_fn(A) -> Option<B>,
    pick: spec_fn(A) -> bool,
    change: spec_fn(A) -> B,
)
    requires
        forall|a: A| #[trigger]
            f(a) == if pick(a) {
                Some(change(a))
            } else {
                None
            },
    ensures
        s.filter_map(f) == s.filter(pick).map_values(change),
    decreases s.len(),
{
    reveal(Seq::filter);
    if s.len() > 0 {
        lemma_pick_then_change(s.drop_last(), f, pick, change);
        let last = s.last();
        assert(f(last) == if pick(last) {
            Some(change(last))
        } else {
            None
        });
        assert(s.filter_map(f) =~= s.filter(pick).map_values(change));
    } else {
        assert(s.filter_map(f) =~= s.filter(pick).map_values(change));
    }
}

} // verus!
