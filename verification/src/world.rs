use vstd::prelude::*;

use crate::dispatch::interested_entities;
use crate::entity::Entity;
use crate::schema::{ComponentAccess, Components};
use crate::system::System;
use crate::view::{WorldView, FULL_DELETE_MASK};

verus! {

/// The entity-component runtime: entity identity and recycling, the
/// per-slot component masks, the change log, and — through the schema
/// aggregate `T` — every component column. `C` is room for whatever global
/// data the application wants carried alongside.
pub struct World<T, C> {
    entities: Vec<Entity>,
    // All the component columns, as the application's schema lays them out.
    // Reached only through `get`/`get_mut`/`add`: a column entry is
    // meaningful only while the matching mask bit is set.
    component_data: T,
    // Data that is not tied to any entity.
    global_data: C,
    recycled_ids: Vec<Entity>,
    entities_to_delete: Vec<Entity>,
    components: Vec<u32>,
    next_id: usize,
    added: Vec<(u32, Entity)>,
    removed: Vec<(u32, Entity)>,
}

impl<T, C> View for World<T, C> {
    type V = WorldView;

    closed spec fn view(&self) -> WorldView {
        WorldView {
            entities: self.entities@,
            components: self.components@,
            recycled: self.recycled_ids@,
            to_delete: self.entities_to_delete@,
            added: self.added@,
            removed: self.removed@,
        }
    }
}

impl<T: Components, C> World<T, C> {
    /// The world's invariant: the registry view is consistent, the slot
    /// counter continues the slot table, and every component column is as
    /// long as the slot table.
    pub closed spec fn wf(&self) -> bool {
        &&& self@.wf()
        &&& self.next_id == self.entities@.len()
        &&& self.component_data.slots() == self.entities@.len()
    }

    /// The registry view of a well-formed world is itself well-formed, so
    /// the model-level lemmas apply to it.
    pub proof fn lemma_wf_view(&self)
        requires
            self.wf(),
        ensures
            self@.wf(),
            self@.entities.len() <= usize::MAX,
            self.spec_data().slots() == self@.entities.len(),
    {
    }

    /// The component storage aggregate; contracts name a column of it
    /// through `ComponentAccess::column`.
    pub closed spec fn spec_data(&self) -> T {
        self.component_data
    }

    /// The global data carried alongside the entities.
    pub closed spec fn spec_global(&self) -> C {
        self.global_data
    }

    /// Read access to the global data.
    pub fn global_data(&self) -> (r: &C)
        ensures
            *r == self.spec_global(),
    {
        &self.global_data
    }

    /// Mutable access to the global data; nothing else in the world moves.
    pub fn global_data_mut(&mut self) -> (r: &mut C)
        ensures
            *r == old(self).spec_global(),
            final(self).spec_global() == *final(r),
            final(self)@ == old(self)@,
            final(self).spec_data() == old(self).spec_data(),
            old(self).wf() ==> final(self).wf(),
    {
        &mut self.global_data
    }

    /// Creates a world with no entities, empty columns and empty queues.
    pub fn new(global_data: C) -> (w: World<T, C>)
        ensures
            w.wf(),
            w@ == WorldView::init(),
            w.spec_global() == global_data,
    {
        let w = World {
            component_data: T::new(),
            global_data,
            entities: Vec::new(),
            recycled_ids: Vec::new(),
            entities_to_delete: Vec::new(),
            components: Vec::new(),
            next_id: 0,
            added: Vec::new(),
            removed: Vec::new(),
        };
        proof {
            assert(w@ =~= WorldView::init());
        }
        w
    }

    /// Adds an entity with no components, reusing the most recently freed
    /// slot if there is one and opening a fresh slot otherwise. The returned
    /// handle is valid as soon as this returns.
    pub fn add_entity(&mut self) -> (e: Entity)
        requires
            old(self).wf(),
        ensures
            final(self).wf(),
            final(self)@ == old(self)@.allocate().0,
            e == old(self)@.allocate().1,
            final(self)@.valid(e),
            old(self)@.recycled.len() > 0 ==> final(self).spec_data() == old(self).spec_data(),
            final(self).spec_global() == old(self).spec_global(),
    {
        let popped = self.recycled_ids.pop();
        match popped {
            Some(r) => {
                proof {
                    let v0 = old(self)@;
                    assert(v0.recycled[v0.recycled.len() - 1] == r);
                }
                let bumped = Entity { id: r.id, version: r.version + 1 };
                self.entities[r.id] = bumped;
                self.components[r.id] = 1;
                proof {
                    assert(1u32 & 1 == 1) by (bit_vector);
                    assert(final(self)@ =~= old(self)@.allocate().0);
                }
                bumped
            },
            None => {
                let en = Entity { id: self.next_id, version: 0 };
                self.entities.push(en);
                self.components.push(1);
                self.component_data.extend();
                self.next_id = self.entities.len();
                proof {
                    assert(1u32 & 1 == 1) by (bit_vector);
                    assert(final(self)@ =~= old(self)@.allocate().0);
                }
                en
            },
        }
    }

    /// Marks an entity for deletion and logs the all-bits removal event.
    /// The entity stays valid — queryable and mutable — until the next
    /// `update` call sweeps it; deletion is deferred on purpose, so code
    /// running later in the same frame can still reach its components.
    pub fn delete_entity(&mut self, e: &Entity)
        requires
            old(self).wf(),
            old(self)@.valid(*e),
        ensures
            final(self).wf(),
            final(self)@ == old(self)@.mark_delete(*e),
            final(self).spec_data() == old(self).spec_data(),
            final(self).spec_global() == old(self).spec_global(),
    {
        self.removed.push((FULL_DELETE_MASK, *e));
        self.entities_to_delete.push(*e);
        proof {
            assert(final(self)@ =~= old(self)@.mark_delete(*e));
        }
    }

    /// Whether a handle still names a live slot: its slot's mask is nonzero
    /// and the slot's generation counter equals the handle's. A handle whose
    /// id was never allocated is simply not valid.
    pub fn entity_valid(&self, e: &Entity) -> (r: bool)
        requires
            self.wf(),
        ensures
            r == self@.valid(*e),
    {
        e.id < self.components.len() && self.components[e.id] != 0
            && self.entities[e.id].version == e.version
    }

    /// All valid entities owning at least the component types in `mask`:
    /// every slot whose mask, with the alive bit folded in, is a superset of
    /// `mask | 1`, in ascending id order.
    pub fn entities_with_components(&self, mask: u32) -> (r: Vec<Entity>)
        requires
            self.wf(),
        ensures
            r@ == self@.with_mask(mask),
            forall|p: int, q: int| 0 <= p < q < r@.len() ==> r@[p].id < r@[q].id,
    {
        let m2 = mask | 1;
        let mut r: Vec<Entity> = Vec::new();
        let n = self.entities.len();
        let ghost keep = |e: Entity| self@.components[e.id as int] & (mask | 1) == (mask | 1);
        for i in 0..n
            invariant
                n == self.entities@.len(),
                m2 == mask | 1,
                self.wf(),
                r@ == self.entities@.take(i as int).filter(keep),
                keep == (|e: Entity|
                    self@.components[e.id as int] & (mask | 1) == (mask | 1)),
                forall|k: int| 0 <= k < r@.len() ==> (#[trigger] r@[k]).id < i,
                forall|p: int, q: int| 0 <= p < q < r@.len() ==> r@[p].id < r@[q].id,
        {
            let e = self.entities[i];
            if self.components[e.id] & m2 == m2 {
                r.push(e);
            }
            proof {
                reveal_with_fuel(Seq::filter, 2);
                assert(self.entities@.take(i as int + 1).drop_last() =~= self.entities@.take(
                    i as int,
                ));
            }
        }
        proof {
            assert(self.entities@.take(n as int) =~= self.entities@);
        }
        r
    }

    /// All valid entities, in ascending id order.
    pub fn entities(&self) -> (r: Vec<Entity>)
        requires
            self.wf(),
        ensures
            r@ == self@.with_mask(0),
            forall|p: int, q: int| 0 <= p < q < r@.len() ==> r@[p].id < r@[q].id,
    {
        self.entities_with_components(0)
    }

    /// Whether `entity` currently owns a component of type `Z`.
    pub fn has<Z: ComponentAccess<T>>(&self, entity: &Entity) -> (r: bool)
        requires
            self.wf(),
            self@.valid(*entity),
        ensures
            r == (self@.components[entity.id as int] & Z::spec_mask() != 0),
    {
        self.components[entity.id] & Z::mask() != 0
    }

    /// A reference to `entity`'s component of type `Z`, if its bit is set;
    /// absent otherwise.
    pub fn get<Z: ComponentAccess<T>>(&self, entity: &Entity) -> (r: Option<&Z>)
        requires
            self.wf(),
            self@.valid(*entity),
        ensures
            match r {
                Some(c) => self@.components[entity.id as int] & Z::spec_mask() != 0 && *c
                    == Z::column(&self.spec_data())@[entity.id as int] && Z::column(
                    &self.spec_data(),
                )@.len() == self@.entities.len(),
                None => self@.components[entity.id as int] & Z::spec_mask() == 0,
            },
    {
        if self.has::<Z>(entity) {
            let col = Z::get_data(&self.component_data);
            Some(&col[entity.id])
        } else {
            None
        }
    }

    /// A mutable reference to `entity`'s component of type `Z`, if its bit
    /// is set; absent otherwise. Whatever the caller writes through it is
    /// what the column then holds at `entity`'s slot; the registry itself
    /// does not move.
    pub fn get_mut<Z: ComponentAccess<T>>(&mut self, entity: &Entity) -> (r: Option<&mut Z>)
        requires
            old(self).wf(),
            old(self)@.valid(*entity),
        ensures
            final(self).wf(),
            final(self)@ == old(self)@,
            final(self).spec_global() == old(self).spec_global(),
            old(self)@.components[entity.id as int] & Z::spec_mask() == 0 ==> r is None
                && *final(self) == *old(self),
            old(self)@.components[entity.id as int] & Z::spec_mask() != 0 ==> {
                &&& r is Some
                &&& *r.unwrap() == Z::column(&old(self).spec_data())@[entity.id as int]
                &&& Z::column(&old(self).spec_data())@.len() == old(self)@.entities.len()
                &&& Z::column(&final(self).spec_data())@ == Z::column(&old(self).spec_data())@
                    .update(entity.id as int, *final(r.unwrap()))
                &&& final(self).spec_data() == Z::store_at(
                    old(self).spec_data(),
                    entity.id,
                    *final(r.unwrap()),
                )
                &&& *final(r.unwrap()) == Z::column(&old(self).spec_data())@[entity.id as int]
                    ==> final(self).spec_data() == old(self).spec_data()
            },
    {
        if self.components[entity.id] & Z::mask() != 0 {
            Some(Z::entry_mut(&mut self.component_data, entity.id))
        } else {
            None
        }
    }

    /// Gives `entity` a component of type `Z`, overwriting any value it
    /// already had. The added event is logged only when the bit was clear
    /// before: re-adding is a silent overwrite, not a structural change.
    pub fn add<Z: ComponentAccess<T>>(&mut self, entity: &Entity, comp: Z)
        requires
            old(self).wf(),
            old(self)@.valid(*entity),
        ensures
            final(self).wf(),
            final(self)@ == old(self)@.comp_add(*entity, Z::spec_mask()),
            Z::column(&old(self).spec_data())@.len() == old(self)@.entities.len(),
            Z::column(&final(self).spec_data())@ == Z::column(&old(self).spec_data())@.update(
                entity.id as int,
                comp,
            ),
            final(self).spec_data() == Z::store_at(old(self).spec_data(), entity.id, comp),
            Z::column(&old(self).spec_data())@[entity.id as int] == comp
                ==> final(self).spec_data() == old(self).spec_data(),
            final(self).spec_global() == old(self).spec_global(),
    {
        let slot = Z::entry_mut(&mut self.component_data, entity.id);
        *slot = comp;
        if self.components[entity.id] & Z::mask() == 0 {
            self.added.push((Z::mask(), *entity));
        }
        let cur = self.components[entity.id];
        self.components[entity.id] = cur | Z::mask();
        proof {
            let m = Z::spec_mask();
            assert(old(self)@.components[entity.id as int] == cur);
            assert(cur | m != 0 && (cur & 1 == 1 ==> (cur | m) & 1 == 1)) by (bit_vector)
                requires
                    cur != 0,
            ;
            assert(final(self)@ =~= old(self)@.comp_add(*entity, m));
        }
    }

    /// Takes the component of type `Z` away from `entity` and logs the
    /// removed event; if the bit was already clear this does nothing and
    /// logs nothing. The column entry itself is left in place, unreadable
    /// through `get` until the bit is set again.
    pub fn remove<Z: ComponentAccess<T>>(&mut self, entity: &Entity)
        requires
            old(self).wf(),
            old(self)@.valid(*entity),
            Z::spec_mask() & 1 == 0,
        ensures
            final(self).wf(),
            final(self)@ == old(self)@.comp_remove(*entity, Z::spec_mask()),
            final(self).spec_data() == old(self).spec_data(),
            final(self).spec_global() == old(self).spec_global(),
    {
        if self.components[entity.id] & Z::mask() != 0 {
            self.removed.push((Z::mask(), *entity));
            let cur = self.components[entity.id];
            self.components[entity.id] = cur ^ Z::mask();
            proof {
                let m = Z::spec_mask();
                assert(old(self)@.components[entity.id as int] == cur);
                assert((cur ^ m) & 1 == 1) by (bit_vector)
                    requires
                        cur & 1 == 1 && m & 1 == 0,
                ;
                assert(final(self)@ =~= old(self)@.comp_remove(*entity, m));
            }
        }
    }

    /// The sweep phase: deactivates every entity queued for deletion since
    /// the previous update, recycling its slot, and clears the queue. An
    /// entry that is no longer valid — deleted twice, or already superseded
    /// — is skipped silently; several deletions of one entity within a
    /// frame are legitimate.
    fn sweep(&mut self)
        requires
            old(self).wf(),
        ensures
            final(self).wf(),
            final(self)@ == (WorldView { to_delete: Seq::empty(), ..old(self)@.sweep_from(0) }),
            final(self).spec_data() == old(self).spec_data(),
            final(self).spec_global() == old(self).spec_global(),
    {
        let ghost v0 = self@;
        let n_del = self.entities_to_delete.len();
        for i in 0..n_del
            invariant
                n_del == self.entities_to_delete@.len(),
                self.wf(),
                self@.sweep_from(i as int) == v0.sweep_from(0),
                self@.to_delete == v0.to_delete,
                self.spec_data() == old(self).spec_data(),
                self.spec_global() == old(self).spec_global(),
        {
            let e = self.entities_to_delete[i];
            let ghost pre = self@;
            if self.entity_valid(&e) {
                let slot = self.entities[e.id];
                self.components[e.id] = 0;
                if slot.version < usize::MAX {
                    self.recycled_ids.push(slot);
                }
            }
            proof {
                assert(self@ =~= pre.sweep_step(e));
            }
        }
        self.entities_to_delete.clear();
        proof {
            assert(self@ =~= (WorldView { to_delete: Seq::empty(), ..v0.sweep_from(0) }));
        }
    }

    /// Runs one frame: four phases, each walking the system list in its
    /// given order.
    ///
    /// First the sweep deactivates every entity queued for deletion since
    /// the previous update — tolerating entries that are no longer valid,
    /// since several deletions of one entity within a frame are legitimate —
    /// and recycles their slots. Then each system's `process` runs on the
    /// entities matching its interest mask. Then both change-log queues are
    /// swapped out, so events logged by the callbacks below accumulate for
    /// the next frame, and each system's `process_added`, then each
    /// system's `process_removed`, runs on the drained events that
    /// intersect its mask, projected to entities, sorted and deduplicated.
    ///
    /// With no systems registered the whole effect is the structural
    /// `WorldView::frame` transition; with systems it is that transition
    /// interleaved with whatever the callbacks did to the world.
    ///
    /// The system list is homogeneous in `S`; an application mixing several
    /// system types runs them through one enum that implements `System` and
    /// dispatches to them.
    pub fn update<S: System<T, C>>(&mut self, systems: &mut Vec<S>)
        requires
            old(self).wf(),
        ensures
            final(self).wf(),
            final(systems)@.len() == old(systems)@.len(),
            old(systems)@.len() == 0 ==> {
                &&& final(self)@ == old(self)@.frame()
                &&& final(self).spec_data() == old(self).spec_data()
                &&& final(self).spec_global() == old(self).spec_global()
            },
    {
        let ghost v0 = self@;
        let ghost d0 = self.spec_data();
        let ghost g0 = self.spec_global();

        self.sweep();

        let ghost v_swept = self@;
        let n_sys = systems.len();
        for s in 0..n_sys
            invariant
                n_sys == systems@.len(),
                self.wf(),
                n_sys == 0 ==> self@ == v_swept && self.spec_data() == d0 && self.spec_global()
                    == g0,
        {
            let mask = systems[s].get_entity_mask();
            let list = self.entities_with_components(mask);
            proof {
                crate::laws::lemma_query_all_valid(self@, mask);
            }
            let sys = &mut systems[s];
            sys.process(list, self);
        }

        let ghost v_pre_swap = self@;
        let mut added_events: Vec<(u32, Entity)> = Vec::new();
        core::mem::swap(&mut self.added, &mut added_events);
        let mut removed_events: Vec<(u32, Entity)> = Vec::new();
        core::mem::swap(&mut self.removed, &mut removed_events);
        proof {
            assert(self@.entities == v_pre_swap.entities);
            assert(self@.components == v_pre_swap.components);
            assert(self@.recycled == v_pre_swap.recycled);
            assert(self@.added == Seq::<(u32, Entity)>::empty());
            assert(self@.removed == Seq::<(u32, Entity)>::empty());
        }

        let ghost v_drained = self@;
        for s in 0..n_sys
            invariant
                n_sys == systems@.len(),
                self.wf(),
                n_sys == 0 ==> self@ == v_drained && self.spec_data() == d0 && self.spec_global()
                    == g0,
        {
            let mask = systems[s].get_entity_mask();
            let list = interested_entities(&added_events, mask);
            let sys = &mut systems[s];
            sys.process_added(list, self);
        }

        for s in 0..n_sys
            invariant
                n_sys == systems@.len(),
                self.wf(),
                n_sys == 0 ==> self@ == v_drained && self.spec_data() == d0 && self.spec_global()
                    == g0,
        {
            let mask = systems[s].get_entity_mask();
            let list = interested_entities(&removed_events, mask);
            let sys = &mut systems[s];
            sys.process_removed(list, self);
        }

        proof {
            if n_sys == 0 {
                assert(self@ =~= v0.frame());
            }
        }
    }
}

} // verus!
