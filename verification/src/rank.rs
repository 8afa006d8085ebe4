//! Putting a list in order without disturbing it more than the order asks:
//! elements that need not change places keep their places.

use vstd::prelude::*;
use vstd::seq_lib::{lemma_multiset_commutative, to_multiset_build};

verus! {

/// Something that is listed in an order.
pub trait Ranked: Sized {
    /// Whether `self` has to stand before `other`.
    spec fn before(&self, other: &Self) -> bool;

    fn is_before(&self, other: &Self) -> (r: bool)
        ensures
            r == self.before(other),
    ;
}

/// `list` with `x` put in: behind every element that `x` need not stand
/// before, and before every element that it has to stand before.
pub open spec fn placed<T: Ranked>(list: Seq<T>, x: T) -> Seq<T> {
    list.filter(|y: T| !x.before(&y)).push(x) + list.filter(|y: T| x.before(&y))
}

/// The elements of `list` in order. Each element is put in behind those
/// that came before it in `list`, so elements of which neither has to
/// stand before the other keep the order they had.
pub open spec fn ranked<T: Ranked>(list: Seq<T>) -> Seq<T>
    decreases list.len(),
{
    if list.len() == 0 {
        Seq::empty()
    } else {
        placed(ranked(list.drop_last()), list.last())
    }
}

/// Whether `before` is an order: nothing stands before itself, and what
/// stands before an element stands before all that the element stands
/// before.
pub open spec fn is_order<T: Ranked>() -> bool {
    &&& forall|a: T| !(#[trigger] a.before(&a))
    &&& forall|a: T, b: T, c: T|
        #[trigger] a.before(&b) && #[trigger] b.before(&c) ==> a.before(&c)
}

/// Whether no element of `list` has to stand before one that precedes it.
pub open spec fn in_order<T: Ranked>(list: Seq<T>) -> bool {
    forall|i: int, j: int|
        #![trigger list[i], list[j]]
        0 <= i < j < list.len() ==> !list[j].before(&list[i])
}

/// What is picked out of a list that is in order is in order.
proof fn lemma_filter_in_order<T: Ranked>(list: Seq<T>, keep: spec_fn(T) -> bool)
    requires
        in_order(list),
    ensures
        in_order(list.filter(keep)),
    decreases list.len(),
{
    let out = list.filter(keep);
    if list.len() == 0 {
        assert(out =~= Seq::empty()) by {
            reveal(Seq::filter);
        }
    } else {
        let rest = list.drop_last();
        let last = list.last();
        assert(list =~= rest.push(last));
        assert(in_order(rest)) by {
            assert forall|i: int, j: int|
                #![trigger rest[i], rest[j]]
                0 <= i < j < rest.len() implies !rest[j].before(&rest[i]) by {
                assert(rest[i] == list[i] && rest[j] == list[j]);
            }
        }
        lemma_filter_in_order(rest, keep);
        rest.lemma_filter_push(last, keep);
        let rest_out = rest.filter(keep);
        if keep(last) {
            assert forall|i: int, j: int|
                #![trigger out[i], out[j]]
                0 <= i < j < out.len() implies !out[j].before(&out[i]) by {
                if j < rest_out.len() {
                    assert(out[i] == rest_out[i] && out[j] == rest_out[j]);
                } else {
                    assert(out[i] == rest_out[i]);
                    assert(rest_out.contains(rest_out[i]));
                    rest.lemma_filter_contains_rev(keep, rest_out[i]);
                    let k = choose|k: int| 0 <= k < rest.len() && rest[k] == rest_out[i];
                    assert(list[k] == rest_out[i]);
                    assert(list[list.len() - 1] == last);
                }
            }
        }
    }
}

/// A list that is put in order is in order.
pub proof fn lemma_ranked_in_order<T: Ranked>(list: Seq<T>)
    requires
        is_order::<T>(),
    ensures
        in_order(ranked(list)),
    decreases list.len(),
{
    if list.len() > 0 {
        let x = list.last();
        let rest = ranked(list.drop_last());
        lemma_ranked_in_order(list.drop_last());
        let stay = |y: T| !x.before(&y);
        let give_way = |y: T| x.before(&y);
        let front = rest.filter(stay);
        let back = rest.filter(give_way);
        lemma_filter_in_order(rest, stay);
        lemma_filter_in_order(rest, give_way);
        let out = ranked(list);
        assert(out == front.push(x) + back);
        assert forall|i: int, j: int|
            #![trigger out[i], out[j]]
            0 <= i < j < out.len() implies !out[j].before(&out[i]) by {
            if i < front.len() {
                assert(out[i] == front[i]);
                rest.lemma_filter_pred(stay, i);
                assert(!x.before(&out[i]));
            }
            if j > front.len() {
                assert(out[j] == back[j - front.len() - 1]);
                rest.lemma_filter_pred(give_way, j - front.len() - 1);
                assert(x.before(&out[j]));
            }
            if j < front.len() {
                assert(out[j] == front[j]);
            } else if j == front.len() {
                assert(out[j] == x);
            } else if i == front.len() {
                assert(out[i] == x);
                if out[j].before(&x) {
                    assert(x.before(&x));
                }
            } else if i > front.len() {
                assert(out[i] == back[i - front.len() - 1]);
            } else {
                if out[j].before(&out[i]) {
                    assert(x.before(&out[i]));
                }
            }
        }
    }
}

/// What is picked out of a list and what is left make up the list.
proof fn lemma_filter_splits<T>(list: Seq<T>, keep: spec_fn(T) -> bool, leave: spec_fn(T) -> bool)
    requires
        forall|y: T| #[trigger] leave(y) == !keep(y),
    ensures
        list.filter(keep).to_multiset().add(list.filter(leave).to_multiset())
            =~= list.to_multiset(),
    decreases list.len(),
{
    if list.len() == 0 {
        assert(list.filter(keep) =~= list) by {
            reveal(Seq::filter);
        }
        assert(list.filter(leave) =~= list) by {
            reveal(Seq::filter);
        }
        assert(list =~= Seq::empty());
        list.to_multiset_ensures();
    } else {
        let rest = list.drop_last();
        let last = list.last();
        assert(list =~= rest.push(last));
        lemma_filter_splits(rest, keep, leave);
        rest.lemma_filter_push(last, keep);
        rest.lemma_filter_push(last, leave);
        to_multiset_build(rest, last);
        to_multiset_build(rest.filter(keep), last);
        to_multiset_build(rest.filter(leave), last);
        assert(leave(last) == !keep(last));
    }
}

/// A list that is put in order holds what it held before, each element as
/// often as before.
pub proof fn lemma_ranked_same_elements<T: Ranked>(list: Seq<T>)
    ensures
        ranked(list).to_multiset() =~= list.to_multiset(),
    decreases list.len(),
{
    if list.len() == 0 {
        assert(list =~= Seq::empty());
    } else {
        let x = list.last();
        let before = list.drop_last();
        let rest = ranked(before);
        lemma_ranked_same_elements(before);
        let give_way = |y: T| x.before(&y);
        let stay = |y: T| !x.before(&y);
        let front = rest.filter(stay);
        let back = rest.filter(give_way);
        assert(ranked(list) == front.push(x) + back);
        lemma_filter_splits(rest, give_way, stay);
        lemma_multiset_commutative(front.push(x), back);
        to_multiset_build(front, x);
        assert(list =~= before.push(x));
        to_multiset_build(before, x);
        assert(ranked(list).to_multiset() =~= front.to_multiset().insert(x).add(
            back.to_multiset(),
        ));
        assert(back.to_multiset().add(front.to_multiset()) =~= rest.to_multiset());
        assert(list.to_multiset() =~= before.to_multiset().insert(x));
    }
}

/// Puts `x` into `list`.
pub fn place<T: Ranked>(list: Vec<T>, x: T) -> (result: Vec<T>)
    ensures
        result@ == placed(list@, x),
{
    let ghost all = list@;
    let ghost stay = |y: T| !x.before(&y);
    let ghost give_way = |y: T| x.before(&y);
    let mut front: Vec<T> = Vec::new();
    let mut back: Vec<T> = Vec::new();
    assert(all.take(0) =~= Seq::empty());
    assert(Seq::<T>::empty().filter(stay) =~= Seq::empty()) by {
        reveal(Seq::filter);
    }
    assert(Seq::<T>::empty().filter(give_way) =~= Seq::empty()) by {
        reveal(Seq::filter);
    }
    for y in it: list
        invariant
            it.seq() == all,
            stay == |y: T| !x.before(&y),
            give_way == |y: T| x.before(&y),
            front@ == all.take(it.index() as int).filter(stay),
            back@ == all.take(it.index() as int).filter(give_way),
    {
        proof {
            let seen = all.take(it.index() as int);
            assert(all.take(it.index() + 1) =~= seen.push(y));
            seen.lemma_filter_push(y, stay);
            seen.lemma_filter_push(y, give_way);
        }
        if x.is_before(&y) {
            back.push(y);
        } else {
            front.push(y);
        }
    }
    assert(all.take(all.len() as int) =~= all);
    front.push(x);
    front.append(&mut back);
    front
}

/// Puts `list` in order.
pub fn sort_ranked<T: Ranked>(list: Vec<T>) -> (result: Vec<T>)
    ensures
        result@ == ranked(list@),
{
    let ghost all = list@;
    let mut result: Vec<T> = Vec::new();
    assert(all.take(0) =~= Seq::empty());
    for x in it: list
        invariant
            it.seq() == all,
            result@ == ranked(all.take(it.index() as int)),
    {
        proof {
            let next = all.take(it.index() + 1);
            assert(next.last() == x);
            assert(next.drop_last() =~= all.take(it.index() as int));
        }
        result = place(result, x);
    }
    assert(all.take(all.len() as int) =~= all);
    result
}

} // verus!
