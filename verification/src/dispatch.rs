use vstd::prelude::*;

use crate::entity::Entity;
use crate::view::FULL_DELETE_MASK;

verus! {

/// The order in which dispatched entities are handed to a system: by id,
/// then by generation.
pub open spec fn entity_lt(a: Entity, b: Entity) -> bool {
    a.id < b.id || (a.id == b.id && a.version < b.version)
}

/// Strictly ascending under `entity_lt`, so also free of duplicates.
pub open spec fn sorted_distinct(s: Seq<Entity>) -> bool {
    forall|i: int, j: int| 0 <= i < j < s.len() ==> entity_lt(s[i], s[j])
}

/// Whether an event concerns a system with interest mask `m`: the event's
/// mask bits and the interest bits intersect, or the event carries the
/// all-bits sentinel of a full deletion, which matches every interest mask
/// unconditionally.
pub open spec fn event_hits(ev: (u32, Entity), m: u32) -> bool {
    ev.0 & m != 0 || ev.0 == FULL_DELETE_MASK
}

/// The entities a system with interest mask `m` must be told about, given
/// the events of one frame: those named by at least one intersecting event,
/// each once, however many such events the frame logged.
pub open spec fn dispatch_set(events: Seq<(u32, Entity)>, m: u32) -> Set<Entity> {
    Set::new(
        |e: Entity| exists|k: int| 0 <= k < events.len() && #[trigger] event_hits(events[k], m)
            && events[k].1 == e,
    )
}

/// Exact comparison under `entity_lt`.
fn entity_before(a: &Entity, b: &Entity) -> (r: bool)
    ensures
        r == entity_lt(*a, *b),
{
    a.id < b.id || (a.id == b.id && a.version < b.version)
}

/// Puts `e` into a strictly sorted list, keeping it strictly sorted; if `e`
/// is already there the list is left alone.
fn insert_sorted(list: &mut Vec<Entity>, e: Entity)
    requires
        sorted_distinct(old(list)@),
    ensures
        sorted_distinct(final(list)@),
        forall|x: Entity|
            final(list)@.contains(x) <==> (old(list)@.contains(x) || x == e),
{
    let mut i: usize = 0;
    while i < list.len() && entity_before(&list[i], &e)
        invariant
            sorted_distinct(list@),
            i <= list@.len(),
            forall|k: int| 0 <= k < i ==> entity_lt(list@[k], e),
        decreases list@.len() - i,
    {
        i = i + 1;
    }
    if i < list.len() && list[i] == e {
        proof {
            assert(list@.contains(e));
        }
        return ;
    }
    proof {
        if i < list@.len() {
            assert(!entity_lt(list@[i as int], e) && list@[i as int] != e);
            assert(entity_lt(e, list@[i as int]));
        }
    }
    list.insert(i, e);
    proof {
        let new = final(list)@;
        let prior = old(list)@;
        assert forall|p: int, q: int| 0 <= p < q < new.len() implies entity_lt(
            new[p],
            new[q],
        ) by {
            if q < i {
                assert(new[p] == prior[p] && new[q] == prior[q]);
            } else if q == i {
                assert(new[p] == prior[p] && new[q] == e);
            } else {
                assert(new[q] == prior[q - 1]);
                if p < i {
                    assert(new[p] == prior[p]);
                    if p < q - 1 {
                        assert(entity_lt(prior[p], prior[q - 1]));
                    }
                } else if p == i {
                    assert(new[p] == e);
                    if i < q - 1 {
                        assert(entity_lt(prior[i as int], prior[q - 1]));
                    }
                } else {
                    assert(new[p] == prior[p - 1]);
                }
            }
        }
        assert forall|x: Entity| new.contains(x) implies (prior.contains(x) || x == e) by {
            let k = choose|k: int| 0 <= k < new.len() && new[k] == x;
            if k < i {
                assert(prior[k] == x);
            } else if k > i {
                assert(prior[k - 1] == x);
            }
        }
        assert forall|x: Entity| prior.contains(x) implies new.contains(x) by {
            let k = choose|k: int| 0 <= k < prior.len() && prior[k] == x;
            if k < i {
                assert(new[k] == x);
            } else {
                assert(new[k + 1] == x);
            }
        }
        assert(new.contains(e)) by {
            assert(new[i as int] == e);
        }
    }
}

/// The entities that the events of one frame make relevant to a system with
/// interest mask `m`: projected from the intersecting events, sorted by id
/// and generation, each entity reported once.
pub(crate) fn interested_entities(events: &Vec<(u32, Entity)>, m: u32) -> (r: Vec<Entity>)
    ensures
        sorted_distinct(r@),
        forall|x: Entity| r@.contains(x) <==> dispatch_set(events@, m).contains(x),
{
    let mut r: Vec<Entity> = Vec::new();
    let n = events.len();
    for j in 0..n
        invariant
            n == events@.len(),
            sorted_distinct(r@),
            forall|x: Entity|
                r@.contains(x) <==> dispatch_set(events@.take(j as int), m).contains(x),
    {
        let ev = events[j];
        if ev.0 & m != 0 || ev.0 == FULL_DELETE_MASK {
            insert_sorted(&mut r, ev.1);
        }
        proof {
            let prefix = events@.take(j as int);
            let full = events@.take(j as int + 1);
            assert(full[j as int] == events@[j as int]);
            assert forall|x: Entity|
                dispatch_set(full, m).contains(x) == (dispatch_set(prefix, m).contains(x) || (
                event_hits(events@[j as int], m) && events@[j as int].1 == x)) by {
                if dispatch_set(full, m).contains(x) {
                    let k = choose|k: int| 0 <= k < full.len() && #[trigger] event_hits(
                        full[k],
                        m,
                    ) && full[k].1 == x;
                    if k < j as int {
                        assert(event_hits(prefix[k], m) && prefix[k].1 == x);
                    }
                }
                if dispatch_set(prefix, m).contains(x) {
                    let k = choose|k: int| 0 <= k < prefix.len() && #[trigger] event_hits(
                        prefix[k],
                        m,
                    ) && prefix[k].1 == x;
                    assert(event_hits(full[k], m) && full[k].1 == x);
                }
                if event_hits(events@[j as int], m) && events@[j as int].1 == x {
                    assert(event_hits(full[j as int], m) && full[j as int].1 == x);
                }
            }
        }
    }
    proof {
        assert(events@.take(n as int) =~= events@);
    }
    r
}

} // verus!
