//! The order in which the sweep visits the boxes: ascending by their
//! minimum along the x axis. The boxes stay where they are; what is sorted
//! is a list of their indices.

use crate::bounds::aabb::GlobalAabb;
use bevy::ecs::entity::Entity;
use std::cmp::Ordering;
use vstd::prelude::*;

verus! {

/// Compares two entries by the minimum x of their boxes.
pub fn cmp_x_axis(a: &(Entity, GlobalAabb), b: &(Entity, GlobalAabb)) -> (o: Ordering)
    ensures
        o is Less <==> a.1.minimums.x < b.1.minimums.x,
        o is Equal <==> a.1.minimums.x == b.1.minimums.x,
        o is Greater <==> a.1.minimums.x > b.1.minimums.x,
{
    let min_a: i32 = a.1.minimums.x;
    let min_b: i32 = b.1.minimums.x;
    if min_a < min_b {
        return Ordering::Less;
    }
    if min_a > min_b {
        return Ordering::Greater;
    }
    Ordering::Equal
}

/// Compares two entries by the minimum y of their boxes.
pub fn cmp_y_axis(a: &(Entity, GlobalAabb), b: &(Entity, GlobalAabb)) -> (o: Ordering)
    ensures
        o is Less <==> a.1.minimums.y < b.1.minimums.y,
        o is Equal <==> a.1.minimums.y == b.1.minimums.y,
        o is Greater <==> a.1.minimums.y > b.1.minimums.y,
{
    let min_a: i32 = a.1.minimums.y;
    let min_b: i32 = b.1.minimums.y;
    if min_a < min_b {
        return Ordering::Less;
    }
    if min_a > min_b {
        return Ordering::Greater;
    }
    Ordering::Equal
}

/// Compares two entries by the minimum z of their boxes.
pub fn cmp_z_axis(a: &(Entity, GlobalAabb), b: &(Entity, GlobalAabb)) -> (o: Ordering)
    ensures
        o is Less <==> a.1.minimums.z < b.1.minimums.z,
        o is Equal <==> a.1.minimums.z == b.1.minimums.z,
        o is Greater <==> a.1.minimums.z > b.1.minimums.z,
{
    let min_a: i32 = a.1.minimums.z;
    let min_b: i32 = b.1.minimums.z;
    if min_a < min_b {
        return Ordering::Less;
    }
    if min_a > min_b {
        return Ordering::Greater;
    }
    Ordering::Equal
}

/// Whether `a` may stand before `b` in the sweep order.
pub fn precedes(a: &(Entity, GlobalAabb), b: &(Entity, GlobalAabb)) -> (r: bool)
    ensures
        r == (a.1.minimums.x <= b.1.minimums.x),
{
    match cmp_x_axis(a, b) {
        Ordering::Greater => false,
        _ => true,
    }
}

/// Every index in `order` is a position in a list of `n` entries.
pub open spec fn indices_below(order: Seq<usize>, n: nat) -> bool {
    forall|k: int| 0 <= k < order.len() ==> (#[trigger] order[k]) < n
}

/// The minimum x of the box of entry `i`.
pub open spec fn min_x(entries: Seq<(Entity, GlobalAabb)>, i: usize) -> i32 {
    entries[i as int].1.minimums.x
}

/// Read through `order`, the boxes come with ascending minimum x.
pub open spec fn ascending(entries: Seq<(Entity, GlobalAabb)>, order: Seq<usize>) -> bool {
    forall|p: int, q: int|
        0 <= p <= q < order.len() ==> min_x(entries, #[trigger] order[p]) <= min_x(
            entries,
            #[trigger] order[q],
        )
}

/// The indices `0, 1, .., n - 1`.
pub open spec fn identity_order(n: nat) -> Seq<usize> {
    Seq::new(n, |i: int| i as usize)
}

/// `order` visits every entry exactly once, by ascending minimum x.
pub open spec fn is_sweep_order(entries: Seq<(Entity, GlobalAabb)>, order: Seq<usize>) -> bool {
    &&& order.len() == entries.len()
    &&& indices_below(order, entries.len())
    &&& order.no_duplicates()
    &&& forall|i: usize| i < entries.len() ==> order.contains(i)
    &&& ascending(entries, order)
}

/// Merges two runs of indices, each ascending, into one.
fn merge(
    entries: &Vec<(Entity, GlobalAabb)>,
    left: &Vec<usize>,
    right: &Vec<usize>,
) -> (out: Vec<usize>)
    requires
        indices_below(left@, entries@.len()),
        indices_below(right@, entries@.len()),
        ascending(entries@, left@),
        ascending(entries@, right@),
    ensures
        out@.to_multiset() == left@.to_multiset().add(right@.to_multiset()),
        indices_below(out@, entries@.len()),
        ascending(entries@, out@),
{
    let mut out: Vec<usize> = Vec::new();
    let mut i: usize = 0;
    let mut j: usize = 0;
    proof {
        let none = Seq::<usize>::empty();
        assert(left@.subrange(0, 0) =~= none);
        assert(right@.subrange(0, 0) =~= none);
        assert(out@ =~= none + none);
        vstd::seq_lib::lemma_multiset_commutative(none, none);
    }
    while i < left.len() || j < right.len()
        invariant
            i <= left.len(),
            j <= right.len(),
            indices_below(left@, entries@.len()),
            indices_below(right@, entries@.len()),
            ascending(entries@, left@),
            ascending(entries@, right@),
            out@.to_multiset() == left@.subrange(0, i as int).to_multiset().add(
                right@.subrange(0, j as int).to_multiset(),
            ),
            indices_below(out@, entries@.len()),
            ascending(entries@, out@),
            forall|k: int|
                0 <= k < out@.len() && i < left@.len() ==> min_x(entries@, #[trigger] out@[k])
                    <= min_x(entries@, left@[i as int]),
            forall|k: int|
                0 <= k < out@.len() && j < right@.len() ==> min_x(entries@, #[trigger] out@[k])
                    <= min_x(entries@, right@[j as int]),
        decreases left.len() - i + right.len() - j,
    {
        let take_left: bool = if i >= left.len() {
            false
        } else if j >= right.len() {
            true
        } else {
            precedes(&entries[left[i]], &entries[right[j]])
        };
        let ghost before = out@;
        if take_left {
            let x: usize = left[i];
            out.push(x);
            proof {
                assert(left@.subrange(0, i + 1) =~= left@.subrange(0, i as int).push(x));
                vstd::seq_lib::to_multiset_build(left@.subrange(0, i as int), x);
                vstd::seq_lib::to_multiset_build(before, x);
            }
            i = i + 1;
        } else {
            let x: usize = right[j];
            out.push(x);
            proof {
                assert(right@.subrange(0, j + 1) =~= right@.subrange(0, j as int).push(x));
                vstd::seq_lib::to_multiset_build(right@.subrange(0, j as int), x);
                vstd::seq_lib::to_multiset_build(before, x);
            }
            j = j + 1;
        }
    }
    proof {
        assert(left@.subrange(0, i as int) =~= left@);
        assert(right@.subrange(0, j as int) =~= right@);
    }
    out
}

/// Sorts `order` by the minimum x of the boxes it points at.
fn sort_by_min_x(entries: &Vec<(Entity, GlobalAabb)>, order: Vec<usize>) -> (sorted: Vec<usize>)
    requires
        indices_below(order@, entries@.len()),
    ensures
        sorted@.to_multiset() == order@.to_multiset(),
        indices_below(sorted@, entries@.len()),
        ascending(entries@, sorted@),
    decreases order@.len(),
{
    let n: usize = order.len();
    if n <= 1 {
        return order;
    }
    let mut left: Vec<usize> = order;
    let ghost whole = left@;
    let right: Vec<usize> = left.split_off(n / 2);
    proof {
        assert(whole =~= left@ + right@);
        vstd::seq_lib::lemma_multiset_commutative(left@, right@);
    }
    let left_sorted: Vec<usize> = sort_by_min_x(entries, left);
    let right_sorted: Vec<usize> = sort_by_min_x(entries, right);
    merge(entries, &left_sorted, &right_sorted)
}

/// The order in which the sweep visits `entries`.
pub fn sweep_order(entries: &Vec<(Entity, GlobalAabb)>) -> (order: Vec<usize>)
    ensures
        is_sweep_order(entries@, order@),
{
    let n: usize = entries.len();
    let mut order: Vec<usize> = Vec::new();
    let mut i: usize = 0;
    while i < n
        invariant
            i <= n,
            order@ == identity_order(i as nat),
        decreases n - i,
    {
        order.push(i);
        assert(order@ =~= identity_order((i + 1) as nat));
        i = i + 1;
    }
    let ghost start = order@;
    let sorted: Vec<usize> = sort_by_min_x(entries, order);
    proof {
        assert(start.no_duplicates());
        start.lemma_multiset_has_no_duplicates();
        sorted@.lemma_multiset_has_no_duplicates_conv();
        vstd::seq_lib::to_multiset_len(start);
        vstd::seq_lib::to_multiset_len(sorted@);
        assert forall|i: usize| i < entries@.len() implies sorted@.contains(i) by {
            assert(start[i as int] == i);
            assert(start.contains(i));
            vstd::seq_lib::to_multiset_contains(start, i);
            vstd::seq_lib::to_multiset_contains(sorted@, i);
        }
    }
    sorted
}

} // verus!
