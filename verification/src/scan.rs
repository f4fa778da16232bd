//! Finding where a sequence of inputs first meets a condition.

use vstd::prelude::*;

verus! {

/// Whether some element of `s` is a hit.
pub open spec fn any_hit<T>(s: Seq<T>, hit: spec_fn(T) -> bool) -> bool {
    exists|i: int| 0 <= i < s.len() && hit(#[trigger] s[i])
}

/// How many elements of `s` come before its first hit; all of them, where it
/// has none.
pub open spec fn before_first<T>(s: Seq<T>, hit: spec_fn(T) -> bool) -> nat
    decreases s.len(),
{
    if s.len() == 0 || hit(s.first()) {
        0
    } else {
        1 + before_first(s.drop_first(), hit)
    }
}

/// [`before_first`] is the index of the first hit, or the length of the
/// sequence where nothing in it is a hit.
pub proof fn lemma_before_first<T>(s: Seq<T>, hit: spec_fn(T) -> bool)
    ensures
        before_first(s, hit) <= s.len(),
        forall|i: int| 0 <= i < before_first(s, hit) ==> !hit(#[trigger] s[i]),
        any_hit(s, hit) <==> before_first(s, hit) < s.len(),
        before_first(s, hit) < s.len() ==> hit(s[before_first(s, hit) as int]),
    decreases s.len(),
{
    if s.len() == 0 || hit(s.first()) {
    } else {
        let rest = s.drop_first();
        lemma_before_first(rest, hit);
        assert forall|i: int| 0 <= i < before_first(s, hit) implies !hit(#[trigger] s[i]) by {
            if i > 0 {
                assert(s[i] == rest[i - 1]);
            }
        }
        if any_hit(s, hit) {
            let i = choose|i: int| 0 <= i < s.len() && hit(#[trigger] s[i]);
            assert(hit(rest[i - 1]));
        }
        if before_first(s, hit) < s.len() {
            assert(s[before_first(s, hit) as int] == rest[before_first(rest, hit) as int]);
        }
    }
}

/// The first hit is where it is told to be: an index `k` whose element is a
/// hit, with no hit before it.
pub proof fn lemma_first_hit_at<T>(s: Seq<T>, hit: spec_fn(T) -> bool, k: int)
    requires
        0 <= k < s.len(),
        hit(s[k]),
        forall|i: int| 0 <= i < k ==> !hit(#[trigger] s[i]),
    ensures
        any_hit(s, hit),
        before_first(s, hit) == k,
{
    lemma_before_first(s, hit);
}

} // verus!
