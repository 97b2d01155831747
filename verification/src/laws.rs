use vstd::prelude::*;

use crate::dispatch::{dispatch_set, entity_lt, event_hits, sorted_distinct};
use crate::entity::Entity;
use crate::view::WorldView;

verus! {

/// Allocation preserves the registry invariant; the handle it returns is
/// valid, its slot's mask is exactly the alive bit — so it owns no
/// component whatever the schema — and no queue gains an entry: adding an
/// entity is not a structural change the change log reports.
pub proof fn lemma_allocate_wf(v: WorldView)
    requires
        v.wf(),
        v.entities.len() < usize::MAX,
    ensures
        v.allocate().0.wf(),
        v.allocate().0.valid(v.allocate().1),
        v.allocate().0.components[v.allocate().1.id as int] == 1,
        v.allocate().0.added == v.added,
        v.allocate().0.removed == v.removed,
        v.allocate().0.to_delete == v.to_delete,
{
    assert(1u32 & 1 == 1) by (bit_vector);
    if v.recycled.len() > 0 {
        assert(v.recycled[v.recycled.len() - 1] == v.recycled.last());
    }
}

/// A handle that is invalid stays invalid through the rest of a sweep: the
/// sweep only clears masks, it never revives a slot.
proof fn lemma_sweep_preserves_invalid(v: WorldView, i: int, e: Entity)
    requires
        v.components.len() == v.entities.len(),
        !v.valid(e),
    ensures
        !v.sweep_from(i).valid(e),
    decreases v.to_delete.len() - i,
{
    if 0 <= i < v.to_delete.len() {
        lemma_sweep_preserves_invalid(v.sweep_step(v.to_delete[i]), i + 1, e);
    }
}

/// A handle still queued for deletion at or after position `i` is invalid
/// once the sweep from `i` has run.
proof fn lemma_sweep_kills(v: WorldView, i: int, e: Entity)
    requires
        v.components.len() == v.entities.len(),
        0 <= i,
        exists|k: int| i <= k < v.to_delete.len() && v.to_delete[k] == e,
    ensures
        !v.sweep_from(i).valid(e),
    decreases v.to_delete.len() - i,
{
    let k = choose|k: int| i <= k < v.to_delete.len() && v.to_delete[k] == e;
    let stepped = v.sweep_step(v.to_delete[i]);
    if v.to_delete[i] == e {
        lemma_sweep_preserves_invalid(stepped, i + 1, e);
    } else {
        assert(i < k);
        assert(stepped.to_delete[k] == e);
        lemma_sweep_kills(stepped, i + 1, e);
    }
}

/// Copies of a handle share fate: validity is a function of the handle's
/// id and version alone, so after the update that sweeps a deletion, the
/// deleted handle and every duplicate of it are invalid together.
pub proof fn lemma_shared_fate(v: WorldView, e: Entity, dup: Entity)
    requires
        v.wf(),
        dup.id == e.id,
        dup.version == e.version,
    ensures
        v.valid(dup) == v.valid(e),
        !v.mark_delete(e).frame().valid(e),
        !v.mark_delete(e).frame().valid(dup),
{
    let marked = v.mark_delete(e);
    assert(marked.to_delete[marked.to_delete.len() - 1] == e);
    lemma_sweep_kills(marked, 0, e);
}

/// Entity recycling: allocate two entities into a world with nothing
/// pending deletion, delete the first, run the structural frame; the first
/// handle is then invalid, the second still valid, and the next allocation
/// returns the first one's slot with its generation bumped by one.
///
/// The one family of inputs left out: a world whose next recycled slot has
/// a generation counter one short of its ceiling, since such a slot is
/// retired, not recycled, when it is next swept.
pub proof fn lemma_recycling(v0: WorldView)
    requires
        v0.wf(),
        v0.entities.len() + 2 <= usize::MAX,
        v0.to_delete.len() == 0,
        v0.recycled.len() > 0 ==> v0.recycled.last().version + 1 < usize::MAX,
    ensures
        ({
            let (v1, e1) = v0.allocate();
            let (v2, e2) = v1.allocate();
            let v3 = v2.mark_delete(e1);
            let v4 = v3.frame();
            let (v5, e3) = v4.allocate();
            &&& !v4.valid(e1)
            &&& v4.valid(e2)
            &&& e3.id == e1.id
            &&& e3.version == e1.version + 1
            &&& v5.valid(e3)
        }),
{
    let (v1, e1) = v0.allocate();
    let (v2, e2) = v1.allocate();
    let v3 = v2.mark_delete(e1);
    let v4 = v3.frame();
    lemma_allocate_wf(v0);
    lemma_allocate_wf(v1);
    if v0.recycled.len() > 0 {
        assert(v0.recycled[v0.recycled.len() - 1] == v0.recycled.last());
    }
    assert(v1.components[e1.id as int] == 1);
    if v1.recycled.len() > 0 {
        assert(v1.recycled[v1.recycled.len() - 1] == v1.recycled.last());
        assert(v1.components[v1.recycled.last().id as int] == 0);
    } else {
        assert(e2.id == v1.entities.len());
    }
    assert(e1.id != e2.id);
    assert(v3.to_delete =~= seq![e1]);
    reveal_with_fuel(WorldView::sweep_from, 3);
    let swept = v3.sweep_step(e1);
    assert(v3.sweep_from(0) == swept);
    assert(v4.recycled.last() == e1);
    assert(!v4.valid(e1));
    assert(v4.valid(e2));
    let (v5, e3) = v4.allocate();
    assert(e3.id == e1.id && e3.version == e1.version + 1);
}

/// The component lifecycle for a fresh entity and a well-formed schema bit
/// `m` (nonzero, not the reserved alive bit): the entity starts without the
/// component; adding sets it and logs exactly one added event; removing
/// clears it, restoring the alive-only mask, and logs exactly one removed
/// event; removing it again is a no-op that logs nothing. The entity stays
/// valid throughout, and no step touches the other change-log queue.
pub proof fn lemma_component_lifecycle(v: WorldView, m: u32)
    requires
        v.wf(),
        m != 0,
        m & 1 == 0,
    ensures
        ({
            let (v1, e) = v.allocate();
            let v2 = v1.comp_add(e, m);
            let v3 = v2.comp_remove(e, m);
            &&& v1.components[e.id as int] & m == 0
            &&& v2.components[e.id as int] == 1 | m
            &&& v2.components[e.id as int] & m != 0
            &&& v2.added == v1.added.push((m, e))
            &&& v2.removed == v1.removed
            &&& v3.components[e.id as int] == 1
            &&& v3.components[e.id as int] & m == 0
            &&& v3.removed == v2.removed.push((m, e))
            &&& v3.added == v2.added
            &&& v1.valid(e) && v2.valid(e) && v3.valid(e)
            &&& v3.comp_remove(e, m) == v3
        }),
{
    let (v1, e) = v.allocate();
    if v.recycled.len() > 0 {
        assert(v.recycled[v.recycled.len() - 1] == v.recycled.last());
    }
    assert(v1.components[e.id as int] == 1);
    assert(1u32 & m == 0) by (bit_vector)
        requires
            m & 1 == 0,
    ;
    assert((1u32 | m) != 0 && (1u32 | m) & m != 0 && (1u32 | m) ^ m == 1) by (bit_vector)
        requires
            m != 0 && 1u32 & m == 0,
    ;
}

/// Granting a schema bit to any valid entity: the entity owns every bit of
/// `m` afterwards and is still valid, exactly one added event is logged —
/// and only on the transition from not owning any of it — the removed
/// queue is untouched, and every mask bit outside `m`, the alive bit among
/// them, keeps its value.
pub proof fn lemma_add_grants(v: WorldView, e: Entity, m: u32)
    requires
        v.wf(),
        v.valid(e),
        m != 0,
        m & 1 == 0,
    ensures
        ({
            let v1 = v.comp_add(e, m);
            &&& v1.components[e.id as int] & m == m
            &&& v1.valid(e)
            &&& v1.removed == v.removed
            &&& v1.to_delete == v.to_delete
            &&& (v.components[e.id as int] & m == 0 ==> v1.added == v.added.push((m, e)))
            &&& (v.components[e.id as int] & m != 0 ==> v1.added == v.added)
            &&& forall|b: u32|
                b & m == 0 ==> v1.components[e.id as int] & b == v.components[e.id as int] & b
        }),
{
    let x = v.components[e.id as int];
    assert((x | m) & m == m && (x | m) != 0 && (forall|b: u32|
        b & m == 0 ==> (x | m) & b == x & b)) by (bit_vector)
        requires
            x != 0,
    ;
}

/// Revoking a schema bit that a valid entity wholly owns: the bit is
/// cleared, exactly one removed event is logged, the added queue is
/// untouched, the entity stays valid — the alive bit survives — and every
/// mask bit outside `m` keeps its value.
pub proof fn lemma_remove_clears(v: WorldView, e: Entity, m: u32)
    requires
        v.wf(),
        v.valid(e),
        v.components[e.id as int] & m == m,
        m != 0,
        m & 1 == 0,
    ensures
        ({
            let v1 = v.comp_remove(e, m);
            &&& v1.components[e.id as int] & m == 0
            &&& v1.valid(e)
            &&& v1.removed == v.removed.push((m, e))
            &&& v1.added == v.added
            &&& v1.to_delete == v.to_delete
            &&& forall|b: u32|
                b & m == 0 ==> v1.components[e.id as int] & b == v.components[e.id as int] & b
        }),
{
    let x = v.components[e.id as int];
    assert(x & 1 == 1);
    assert(x & m != 0 && (x ^ m) & m == 0 && (x ^ m) & 1 == 1 && (x ^ m) != 0 && (forall|b: u32|
        b & m == 0 ==> (x ^ m) & b == x & b)) by (bit_vector)
        requires
            x & m == m && m != 0 && m & 1 == 0 && x & 1 == 1,
    ;
}

/// Re-adding is not a structural change: granting a schema bit that a valid
/// entity already owns leaves the registry exactly as it was, so two
/// identical adds in a row leave the same registry state as one — and the
/// same storage aggregate, by `World::add`'s overwrite clause for an entry
/// that already holds the value.
pub proof fn lemma_comp_add_idempotent(v: WorldView, e: Entity, m: u32)
    requires
        v.wf(),
        v.valid(e),
        m != 0,
    ensures
        v.comp_add(e, m).comp_add(e, m) == v.comp_add(e, m),
{
    let x = v.components[e.id as int];
    assert(((x | m) | m) == (x | m) && (x | m) & m != 0) by (bit_vector)
        requires
            m != 0,
    ;
    assert(v.comp_add(e, m).comp_add(e, m) =~= v.comp_add(e, m));
}

/// One notification per system per entity: a system whose interest mask is
/// hit by at least one of the frame's events for an entity finds that
/// entity in its dispatch list exactly once, however many overlapping
/// events the frame logged for it.
pub proof fn lemma_dispatch_once(r: Seq<Entity>, events: Seq<(u32, Entity)>, m: u32, e: Entity)
    requires
        sorted_distinct(r),
        forall|x: Entity| r.contains(x) <==> dispatch_set(events, m).contains(x),
        exists|k: int|
            0 <= k < events.len() && #[trigger] event_hits(events[k], m) && events[k].1 == e,
    ensures
        r.contains(e),
        forall|i: int, j: int|
            0 <= i < r.len() && 0 <= j < r.len() && r[i] == e && r[j] == e ==> i == j,
{
    assert(dispatch_set(events, m).contains(e));
    assert forall|i: int, j: int|
        0 <= i < r.len() && 0 <= j < r.len() && r[i] == e && r[j] == e implies i == j by {
        if i < j {
            assert(entity_lt(r[i], r[j]));
        }
        if j < i {
            assert(entity_lt(r[j], r[i]));
        }
    }
}

/// The structural frame is idempotent: it leaves all three queues empty, so
/// a second frame with no intervening mutation changes nothing at all — in
/// particular every handle's validity is unchanged, and the second frame's
/// dispatch queues are empty.
pub proof fn lemma_frame_idempotent(v: WorldView)
    ensures
        v.frame().to_delete.len() == 0,
        v.frame().added.len() == 0,
        v.frame().removed.len() == 0,
        v.frame().frame() == v.frame(),
        forall|e: Entity| v.frame().frame().valid(e) == v.frame().valid(e),
{
    assert(v.frame().frame() =~= v.frame());
}

/// Everything a filtered sequence holds came from the source sequence.
proof fn lemma_filter_source(s: Seq<Entity>, pred: spec_fn(Entity) -> bool)
    ensures
        forall|i: int|
            0 <= i < s.filter(pred).len() ==> s.contains(#[trigger] s.filter(pred)[i]),
    decreases s.len(),
{
    reveal(Seq::filter);
    if s.len() > 0 {
        lemma_filter_source(s.drop_last(), pred);
        let sub = s.drop_last().filter(pred);
        assert forall|i: int|
            0 <= i < s.filter(pred).len() implies s.contains(#[trigger] s.filter(pred)[i]) by {
            if i < sub.len() {
                assert(sub[i] == s.filter(pred)[i]);
                let j = choose|j: int| 0 <= j < s.drop_last().len() && s.drop_last()[j] == sub[i];
                assert(s[j] == sub[i]);
            } else {
                assert(s[s.len() - 1] == s.filter(pred)[i]);
            }
        }
    }
}

/// Everything the query returns is currently valid: a free slot's mask is
/// zero, and zero owns no alive bit.
pub proof fn lemma_query_all_valid(v: WorldView, m: u32)
    requires
        v.wf(),
    ensures
        forall|i: int|
            0 <= i < v.with_mask(m).len() ==> v.valid(#[trigger] v.with_mask(m)[i]),
{
    let pred = |x: Entity| v.components[x.id as int] & (m | 1) == (m | 1);
    lemma_filter_source(v.entities, pred);
    assert forall|i: int|
        0 <= i < v.with_mask(m).len() implies v.valid(#[trigger] v.with_mask(m)[i]) by {
        let e = v.with_mask(m)[i];
        v.entities.lemma_filter_pred(pred, i);
        let j = choose|j: int| 0 <= j < v.entities.len() && v.entities[j] == e;
        assert(e.id == j);
        assert(forall|c: u32| c & (m | 1) == (m | 1) ==> c != 0) by (bit_vector);
    }
}

/// The query with an empty interest mask returns a handle exactly when it
/// is valid: the test degenerates to the alive bit, which a well-formed
/// world's slots carry exactly while their mask is nonzero.
pub proof fn lemma_entities_exactly_valid(v: WorldView, e: Entity)
    requires
        v.wf(),
    ensures
        v.with_mask(0).contains(e) <==> v.valid(e),
{
    lemma_query_membership(v, 0, e);
    assert(forall|c: u32| (c & (0u32 | 1) == (0u32 | 1)) == (c & 1 == 1)) by (bit_vector);
    if v.valid(e) {
        assert(v.components[e.id as int] != 0);
        assert(v.components[e.id as int] & 1 == 1);
    }
}

/// Query membership: the query for mask `m` returns a handle exactly when
/// it is currently valid and its slot owns every component bit of `m`.
pub proof fn lemma_query_membership(v: WorldView, m: u32, e: Entity)
    requires
        v.wf(),
    ensures
        v.with_mask(m).contains(e) <==> (v.valid(e) && v.components[e.id as int] & (m | 1) == (m
            | 1)),
{
    let pred = |x: Entity| v.components[x.id as int] & (m | 1) == (m | 1);
    assert((m | 1) != 0 && forall|c: u32| c & (m | 1) == (m | 1) ==> c != 0) by (bit_vector);
    if v.with_mask(m).contains(e) {
        let i = choose|i: int| 0 <= i < v.with_mask(m).len() && v.with_mask(m)[i] == e;
        v.entities.lemma_filter_pred(pred, i);
        lemma_filter_source(v.entities, pred);
        let j = choose|j: int| 0 <= j < v.entities.len() && v.entities[j] == e;
        assert(e.id == j);
    }
    if v.valid(e) && v.components[e.id as int] & (m | 1) == (m | 1) {
        assert(v.entities[e.id as int].id == e.id);
        assert(v.entities[e.id as int] == e);
        v.entities.lemma_filter_contains(pred, e.id as int);
    }
}

} // verus!
