//! What a list holds after some of its elements were picked out and each
//! was turned into something else.

use vstd::prelude::*;

verus! {

/// Whether some element of `s` that `keep` accepts is mapped to `b` by `f`.
pub open spec fn kept_image<A, B>(s: Seq<A>, keep: spec_fn(A) -> bool, f: spec_fn(A) -> B, b: B) -> bool {
    exists|i: int| 0 <= i < s.len() && keep(s[i]) && #[trigger] f(s[i]) == b
}

/// What a filtered and mapped sequence holds: the images of the accepted
/// elements, and nothing if no element is accepted.
pub proof fn lemma_filter_map_values<A, B>(s: Seq<A>, keep: spec_fn(A) -> bool, f: spec_fn(A) -> B)
    ensures
        forall|b: B| #[trigger]
            s.filter(keep).map_values(f).contains(b) <==> kept_image(s, keep, f, b),
        (forall|i: int| 0 <= i < s.len() ==> !keep(#[trigger] s[i])) ==> s.filter(
            keep,
        ).map_values(f).len() == 0,
    decreases s.len(),
{
    let out = s.filter(keep).map_values(f);
    if s.len() == 0 {
        assert(s.filter(keep) =~= Seq::empty()) by {
            reveal(Seq::filter);
        }
        assert forall|b: B| #[trigger] out.contains(b) <==> kept_image(s, keep, f, b) by {}
    } else {
        let rest = s.drop_last();
        let last = s.last();
        assert(s =~= rest.push(last));
        lemma_filter_map_values(rest, keep, f);
        rest.lemma_filter_push(last, keep);
        rest.filter(keep).lemma_push_map_commute(f, last);
        let rest_out = rest.filter(keep).map_values(f);
        assert(out == if keep(last) {
            rest_out.push(f(last))
        } else {
            rest_out
        });
        assert forall|b: B| #[trigger] out.contains(b) <==> kept_image(s, keep, f, b) by {
            if out.contains(b) {
                let k = choose|k: int| 0 <= k < out.len() && out[k] == b;
                if keep(last) && k == out.len() - 1 {
                    assert(f(s[s.len() - 1]) == b);
                } else {
                    assert(rest_out[k] == b);
                    assert(rest_out.contains(b));
                    assert(kept_image(rest, keep, f, b));
                    let i = choose|i: int|
                        0 <= i < rest.len() && keep(rest[i]) && #[trigger] f(rest[i]) == b;
                    assert(f(s[i]) == b);
                }
            }
            if kept_image(s, keep, f, b) {
                let i = choose|i: int| 0 <= i < s.len() && keep(s[i]) && #[trigger] f(s[i]) == b;
                if i == s.len() - 1 {
                    assert(out[out.len() - 1] == b);
                } else {
                    assert(f(rest[i]) == b);
                    assert(kept_image(rest, keep, f, b));
                    assert(rest_out.contains(b));
                    let k = choose|k: int| 0 <= k < rest_out.len() && rest_out[k] == b;
                    assert(out[k] == b);
                }
            }
        }
        if forall|i: int| 0 <= i < s.len() ==> !keep(#[trigger] s[i]) {
            assert(!keep(s[s.len() - 1]));
            assert forall|i: int| 0 <= i < rest.len() implies !keep(#[trigger] rest[i]) by {
                assert(rest[i] == s[i]);
            }
        }
    }
}

/// A filtered and mapped sequence holds nothing twice if no two elements
/// of the sequence have the same image.
pub proof fn lemma_filter_map_distinct<A, B>(s: Seq<A>, keep: spec_fn(A) -> bool, f: spec_fn(A) -> B)
    requires
        forall|i: int, j: int| 0 <= i < j < s.len() ==> f(s[i]) != f(s[j]),
    ensures
        s.filter(keep).map_values(f).no_duplicates(),
    decreases s.len(),
{
    let out = s.filter(keep).map_values(f);
    if s.len() == 0 {
        assert(s.filter(keep) =~= Seq::empty()) by {
            reveal(Seq::filter);
        }
    } else {
        let rest = s.drop_last();
        let last = s.last();
        assert(s =~= rest.push(last));
        assert forall|i: int, j: int| 0 <= i < j < rest.len() implies f(rest[i]) != f(rest[j]) by {
            assert(rest[i] == s[i] && rest[j] == s[j]);
        }
        lemma_filter_map_distinct(rest, keep, f);
        lemma_filter_map_values(rest, keep, f);
        rest.lemma_filter_push(last, keep);
        rest.filter(keep).lemma_push_map_commute(f, last);
        let rest_out = rest.filter(keep).map_values(f);
        if keep(last) {
            assert(out == rest_out.push(f(last)));
            if rest_out.contains(f(last)) {
                assert(kept_image(rest, keep, f, f(last)));
                let i = choose|i: int|
                    0 <= i < rest.len() && keep(rest[i]) && #[trigger] f(rest[i]) == f(last);
                assert(f(s[i]) == f(s[s.len() - 1]));
            }
            assert forall|a: int, b: int|
                0 <= a < out.len() && 0 <= b < out.len() && a != b implies out[a] != out[b] by {
                if a < rest_out.len() && b < rest_out.len() {
                    assert(out[a] == rest_out[a] && out[b] == rest_out[b]);
                } else if a < rest_out.len() {
                    assert(rest_out[a] == out[a]);
                    assert(rest_out.contains(out[a]));
                } else {
                    assert(rest_out[b] == out[b]);
                    assert(rest_out.contains(out[b]));
                }
            }
        } else {
            assert(out == rest_out);
        }
    }
}

} // verus!
