//! Sweep and prune over world boxes.

use crate::bounds::aabb::GlobalAabb;
use crate::contact::BroadContact;
use crate::phases::axis::{is_sweep_order, min_x, sweep_order};
use bevy::ecs::entity::Entity;
use vstd::prelude::*;

verus! {

/// Whether two world boxes overlap on all three axes.
pub fn aabb_aabb_intersect(a: &GlobalAabb, b: &GlobalAabb) -> (hit: bool)
    ensures
        hit == a.intersects(b),
{
    if a.minimums.x >= b.maximums.x {
        return false;
    }
    if a.maximums.x <= b.minimums.x {
        return false;
    }
    if a.minimums.y >= b.maximums.y {
        return false;
    }
    if a.maximums.y <= b.minimums.y {
        return false;
    }
    if a.minimums.z >= b.maximums.z {
        return false;
    }
    if a.maximums.z <= b.minimums.z {
        return false;
    }
    true
}

/// No two entries carry the same handle.
pub open spec fn distinct_handles(entries: Seq<(Entity, GlobalAabb)>) -> bool {
    forall|i: int, j: int|
        0 <= i < j < entries.len() ==> (#[trigger] entries[i]).0 != (#[trigger] entries[j]).0
}

/// Entries `i` and `j` are two different entries whose boxes overlap.
pub open spec fn overlap_at(entries: Seq<(Entity, GlobalAabb)>, i: int, j: int) -> bool {
    &&& 0 <= i < entries.len()
    &&& 0 <= j < entries.len()
    &&& i != j
    &&& entries[i].1.intersects(&entries[j].1)
}

/// What an exhaustive comparison finds: the handles of every two different
/// entries whose boxes overlap, as a pair in either order.
pub open spec fn overlapping_pairs(entries: Seq<(Entity, GlobalAabb)>) -> Set<(Entity, Entity)> {
    Set::new(
        |p: (Entity, Entity)|
            exists|i: int, j: int|
                #[trigger] overlap_at(entries, i, j) && entries[i].0 == p.0 && entries[j].0 == p.1,
    )
}

/// The contact names the two handles of `p`, in this order or the other.
pub open spec fn names(c: BroadContact, p: (Entity, Entity)) -> bool {
    (c.a == p.0 && c.b == p.1) || (c.a == p.1 && c.b == p.0)
}

/// The handle pairs that the contacts name, each in both orders.
pub open spec fn emitted_pairs(contacts: Seq<BroadContact>) -> Set<(Entity, Entity)> {
    Set::new(
        |p: (Entity, Entity)|
            exists|k: int| 0 <= k < contacts.len() && names(#[trigger] contacts[k], p),
    )
}

/// Contact `k` stands for the entries `sources[k].0` and `sources[k].1`, of
/// which the first begins no later along x; no two contacts stand for the
/// same two entries; and every two different entries whose boxes overlap
/// have their contact.
pub open spec fn pairing(
    entries: Seq<(Entity, GlobalAabb)>,
    contacts: Seq<BroadContact>,
    sources: Seq<(int, int)>,
) -> bool {
    &&& sources.len() == contacts.len()
    &&& forall|k: int|
        0 <= k < sources.len() ==> {
            &&& overlap_at(entries, (#[trigger] sources[k]).0, sources[k].1)
            &&& contacts[k].a == entries[sources[k].0].0
            &&& contacts[k].b == entries[sources[k].1].0
            &&& entries[sources[k].0].1.minimums.x <= entries[sources[k].1].1.minimums.x
        }
    &&& forall|k: int, l: int|
        0 <= k < l < sources.len() ==> {
            &&& #[trigger] sources[k] != #[trigger] sources[l]
            &&& sources[k] != (sources[l].1, sources[l].0)
        }
    &&& forall|i: int, j: int| #[trigger]
        overlap_at(entries, i, j) ==> sources.contains((i, j)) || sources.contains((j, i))
}

/// The boxes at positions `p` and `q` of the sweep order overlap.
spec fn hit(entries: Seq<(Entity, GlobalAabb)>, order: Seq<usize>, p: int, q: int) -> bool {
    entries[order[p] as int].1.intersects(&entries[order[q] as int].1)
}

/// The pair of positions `c` has been visited when the sweep stands at row
/// `i`, column `j`.
spec fn visited(c: (int, int), i: int, j: int) -> bool {
    c.0 < i || (c.0 == i && c.1 < j)
}

/// Row-major order on pairs of positions.
spec fn earlier(c: (int, int), d: (int, int)) -> bool {
    c.0 < d.0 || (c.0 == d.0 && c.1 < d.1)
}

/// The state of the sweep at row `i`, column `j`: `places[k]` holds the two
/// positions in the sweep order that contact `k` came from, in row-major
/// order, and every visited pair of positions whose boxes overlap has its
/// contact.
spec fn swept(
    entries: Seq<(Entity, GlobalAabb)>,
    order: Seq<usize>,
    contacts: Seq<BroadContact>,
    places: Seq<(int, int)>,
    i: int,
    j: int,
) -> bool {
    &&& places.len() == contacts.len()
    &&& forall|k: int|
        0 <= k < places.len() ==> {
            &&& 0 <= (#[trigger] places[k]).0 < places[k].1 < order.len()
            &&& visited(places[k], i, j)
            &&& hit(entries, order, places[k].0, places[k].1)
            &&& contacts[k].a == entries[order[places[k].0] as int].0
            &&& contacts[k].b == entries[order[places[k].1] as int].0
        }
    &&& forall|k: int, l: int|
        0 <= k < l < places.len() ==> earlier(#[trigger] places[k], #[trigger] places[l])
    &&& forall|p: int, q: int|
        0 <= p < q < order.len() && visited((p, q), i, j) && #[trigger] hit(entries, order, p, q)
            ==> places.contains((p, q))
}

/// Recording the pair under the cursor, whose boxes overlap, moves the sweep
/// one column on.
proof fn lemma_record(
    entries: Seq<(Entity, GlobalAabb)>,
    order: Seq<usize>,
    contacts: Seq<BroadContact>,
    places: Seq<(int, int)>,
    i: int,
    j: int,
    c: BroadContact,
)
    requires
        swept(entries, order, contacts, places, i, j),
        0 <= i < j < order.len(),
        hit(entries, order, i, j),
        c.a == entries[order[i] as int].0,
        c.b == entries[order[j] as int].0,
    ensures
        swept(entries, order, contacts.push(c), places.push((i, j)), i, j + 1),
{
    let extended = places.push((i, j));
    assert forall|p: int, q: int|
        0 <= p < q < order.len() && visited((p, q), i, j + 1) && #[trigger] hit(
            entries,
            order,
            p,
            q,
        ) implies extended.contains((p, q)) by {
        if p == i && q == j {
            assert(extended[places.len() as int] == (p, q));
        } else {
            assert(places.contains((p, q)));
            let k = choose|k: int| 0 <= k < places.len() && places[k] == (p, q);
            assert(extended[k] == (p, q));
        }
    }
}

/// A row is done when no box from the cursor on overlaps the row's own.
proof fn lemma_row_done(
    entries: Seq<(Entity, GlobalAabb)>,
    order: Seq<usize>,
    contacts: Seq<BroadContact>,
    places: Seq<(int, int)>,
    i: int,
    j: int,
)
    requires
        swept(entries, order, contacts, places, i, j),
        0 <= i < j <= order.len(),
        forall|q: int| j <= q < order.len() ==> !#[trigger] hit(entries, order, i, q),
    ensures
        swept(entries, order, contacts, places, i + 1, i + 2),
{
}

/// After the last row, the positions that the contacts came from, read
/// through the sweep order, are the entries that they stand for.
proof fn lemma_swept_gives_pairing(
    entries: Seq<(Entity, GlobalAabb)>,
    order: Seq<usize>,
    contacts: Seq<BroadContact>,
    places: Seq<(int, int)>,
)
    requires
        is_sweep_order(entries, order),
        entries.len() <= usize::MAX,
        swept(entries, order, contacts, places, order.len() as int, order.len() as int + 1),
    ensures
        exists|sources: Seq<(int, int)>| pairing(entries, contacts, sources),
{
    let sources = Seq::new(
        places.len(),
        |k: int| (order[places[k].0] as int, order[places[k].1] as int),
    );
    assert forall|k: int| 0 <= k < sources.len() implies {
        &&& overlap_at(entries, (#[trigger] sources[k]).0, sources[k].1)
        &&& contacts[k].a == entries[sources[k].0].0
        &&& contacts[k].b == entries[sources[k].1].0
        &&& entries[sources[k].0].1.minimums.x <= entries[sources[k].1].1.minimums.x
    } by {
        let c = places[k];
        assert(hit(entries, order, c.0, c.1));
        assert(order[c.0] != order[c.1]);
        assert(min_x(entries, order[c.0]) <= min_x(entries, order[c.1]));
    }
    assert forall|k: int, l: int| 0 <= k < l < sources.len() implies {
        &&& #[trigger] sources[k] != #[trigger] sources[l]
        &&& sources[k] != (sources[l].1, sources[l].0)
    } by {
        let c = places[k];
        let d = places[l];
        assert(earlier(c, d));
        if sources[k] == sources[l] {
            assert(order[c.0] == order[d.0]);
            assert(order[c.1] == order[d.1]);
        }
        if sources[k] == (sources[l].1, sources[l].0) {
            assert(order[c.0] == order[d.1]);
            assert(order[c.1] == order[d.0]);
        }
    }
    assert forall|i: int, j: int| #[trigger] overlap_at(entries, i, j) implies sources.contains(
        (i, j),
    ) || sources.contains((j, i)) by {
        assert(order.contains(i as usize));
        assert(order.contains(j as usize));
        let p = choose|p: int| 0 <= p < order.len() && order[p] == i as usize;
        let q = choose|q: int| 0 <= q < order.len() && order[q] == j as usize;
        if p < q {
            assert(hit(entries, order, p, q));
            assert(places.contains((p, q)));
            let k = choose|k: int| 0 <= k < places.len() && places[k] == (p, q);
            assert(sources[k] == (i, j));
        } else {
            assert(hit(entries, order, q, p));
            assert(places.contains((q, p)));
            let k = choose|k: int| 0 <= k < places.len() && places[k] == (q, p);
            assert(sources[k] == (j, i));
        }
    }
    assert(pairing(entries, contacts, sources));
}

/// Walks the boxes in sweep order and tests each against those that follow
/// it, for as long as they begin no later along x than it ends.
fn sweep(entries: &Vec<(Entity, GlobalAabb)>, order: &Vec<usize>) -> (contacts: Vec<BroadContact>)
    requires
        is_sweep_order(entries@, order@),
    ensures
        exists|sources: Seq<(int, int)>| pairing(entries@, contacts@, sources),
{
    let n: usize = order.len();
    let mut contacts: Vec<BroadContact> = Vec::new();
    let ghost mut places: Seq<(int, int)> = Seq::empty();
    let mut i: usize = 0;
    while i < n
        invariant
            n == order@.len(),
            i <= n,
            is_sweep_order(entries@, order@),
            swept(entries@, order@, contacts@, places, i as int, i + 1),
        decreases n - i,
    {
        let a: (Entity, GlobalAabb) = entries[order[i]];
        let mut j: usize = i + 1;
        while j < n
            invariant
                n == order@.len(),
                i < j <= n,
                is_sweep_order(entries@, order@),
                a == entries@[order@[i as int] as int],
                swept(entries@, order@, contacts@, places, i as int, j as int),
            ensures
                i < j <= n,
                swept(entries@, order@, contacts@, places, i as int, j as int),
                forall|q: int| j <= q < n ==> !#[trigger] hit(entries@, order@, i as int, q),
            decreases n - j,
        {
            let b: (Entity, GlobalAabb) = entries[order[j]];
            if b.1.minimums.x > a.1.maximums.x {
                break ;
            }
            if aabb_aabb_intersect(&a.1, &b.1) {
                let c = BroadContact { a: a.0, b: b.0 };
                proof {
                    lemma_record(entries@, order@, contacts@, places, i as int, j as int, c);
                    places = places.push((i as int, j as int));
                }
                contacts.push(c);
            }
            j = j + 1;
        }
        proof {
            lemma_row_done(entries@, order@, contacts@, places, i as int, j as int);
        }
        i = i + 1;
    }
    proof {
        lemma_swept_gives_pairing(entries@, order@, contacts@, places);
    }
    contacts
}

/// A pairing emits exactly what an exhaustive comparison finds.
pub proof fn lemma_pairing_emits_overlaps(
    entries: Seq<(Entity, GlobalAabb)>,
    contacts: Seq<BroadContact>,
    sources: Seq<(int, int)>,
)
    requires
        pairing(entries, contacts, sources),
    ensures
        emitted_pairs(contacts) == overlapping_pairs(entries),
{
    let emitted = emitted_pairs(contacts);
    let overlapping = overlapping_pairs(entries);
    assert forall|p: (Entity, Entity)| emitted.contains(p) implies overlapping.contains(p) by {
        let k = choose|k: int| 0 <= k < contacts.len() && names(#[trigger] contacts[k], p);
        let i = sources[k].0;
        let j = sources[k].1;
        assert(overlap_at(entries, i, j));
        if contacts[k].a == p.0 && contacts[k].b == p.1 {
        } else {
            assert(overlap_at(entries, j, i));
        }
    }
    assert forall|p: (Entity, Entity)| overlapping.contains(p) implies emitted.contains(p) by {
        let (i, j) = choose|i: int, j: int|
            #[trigger] overlap_at(entries, i, j) && entries[i].0 == p.0 && entries[j].0 == p.1;
        if sources.contains((i, j)) {
            let k = choose|k: int| 0 <= k < sources.len() && sources[k] == (i, j);
            assert(names(contacts[k], p));
        } else {
            let k = choose|k: int| 0 <= k < sources.len() && sources[k] == (j, i);
            assert(names(contacts[k], p));
        }
    }
    assert(emitted =~= overlapping);
}

/// Where every entry has a handle of its own, a pairing names no body with
/// itself and no two bodies twice.
pub proof fn lemma_pairing_unique(
    entries: Seq<(Entity, GlobalAabb)>,
    contacts: Seq<BroadContact>,
    sources: Seq<(int, int)>,
)
    requires
        pairing(entries, contacts, sources),
        distinct_handles(entries),
    ensures
        forall|k: int| 0 <= k < contacts.len() ==> (#[trigger] contacts[k]).a != contacts[k].b,
        forall|k: int, l: int|
            0 <= k < l < contacts.len() ==> !names(
                #[trigger] contacts[k],
                ((#[trigger] contacts[l]).a, contacts[l].b),
            ),
{
    assert forall|i: int, j: int|
        0 <= i < entries.len() && 0 <= j < entries.len() && (#[trigger] entries[i]).0 == (
        #[trigger] entries[j]).0 implies i == j by {
        if i < j {
            assert(entries[i].0 != entries[j].0);
        }
        if j < i {
            assert(entries[j].0 != entries[i].0);
        }
    }
    assert forall|k: int| 0 <= k < contacts.len() implies (#[trigger] contacts[k]).a
        != contacts[k].b by {
        assert(overlap_at(entries, sources[k].0, sources[k].1));
    }
    assert forall|k: int, l: int| 0 <= k < l < contacts.len() implies !names(
        #[trigger] contacts[k],
        ((#[trigger] contacts[l]).a, contacts[l].b),
    ) by {
        assert(overlap_at(entries, sources[k].0, sources[k].1));
        assert(overlap_at(entries, sources[l].0, sources[l].1));
        assert(sources[k] != sources[l]);
        assert(sources[k] != (sources[l].1, sources[l].0));
    }
}

/// The broad phase: finds the pairs of bodies whose world boxes overlap.
///
/// Each entry is a body's handle with its world box. The result names every
/// two different entries whose boxes overlap, once, and no others.
pub fn broadphase_system(entries: &Vec<(Entity, GlobalAabb)>) -> (contacts: Vec<BroadContact>)
    ensures
        exists|sources: Seq<(int, int)>| pairing(entries@, contacts@, sources),
        emitted_pairs(contacts@) == overlapping_pairs(entries@),
        distinct_handles(entries@) ==> forall|k: int|
            0 <= k < contacts@.len() ==> (#[trigger] contacts@[k]).a != contacts@[k].b,
        distinct_handles(entries@) ==> forall|k: int, l: int|
            0 <= k < l < contacts@.len() ==> !names(
                #[trigger] contacts@[k],
                ((#[trigger] contacts@[l]).a, contacts@[l].b),
            ),
{
    let order: Vec<usize> = sweep_order(entries);
    let contacts: Vec<BroadContact> = sweep(entries, &order);
    proof {
        let sources = choose|sources: Seq<(int, int)>| pairing(entries@, contacts@, sources);
        lemma_pairing_emits_overlaps(entries@, contacts@, sources);
        if distinct_handles(entries@) {
            lemma_pairing_unique(entries@, contacts@, sources);
        }
    }
    contacts
}

} // verus!
