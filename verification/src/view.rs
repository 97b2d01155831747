use vstd::prelude::*;

use crate::entity::Entity;

verus! {

/// The event mask a full deletion logs on the removed queue: all bits set,
/// so it intersects every component bit and is never a component mask
/// itself (the schema hands out single bits).
pub const FULL_DELETE_MASK: u32 = 0xFFFF_FFFF;

/// The mathematical state of a world's registry: the slot table, the
/// per-slot component masks, the recycle stack, the deletion queue and the
/// two change-log queues. Component column contents and the global data are
/// not part of it; contracts speak of those separately.
#[verifier::ext_equal]
pub struct WorldView {
    /// One handle per slot ever allocated; the entry at index `i` has id `i`
    /// and carries the slot's current generation counter.
    pub entities: Seq<Entity>,
    /// One bitmask per slot: bit 0 is the alive flag, every other set bit is
    /// a component type the entity currently owns. Zero means the slot is
    /// free or pending reuse.
    pub components: Seq<u32>,
    /// Freed handles awaiting reuse, last in first out.
    pub recycled: Seq<Entity>,
    /// Handles marked for deletion since the last sweep.
    pub to_delete: Seq<Entity>,
    /// Component-added events `(mask bit, entity)` logged this frame.
    pub added: Seq<(u32, Entity)>,
    /// Component-removed events logged this frame; a full deletion logs the
    /// all-bits sentinel mask.
    pub removed: Seq<(u32, Entity)>,
}

impl WorldView {
    /// The state of a freshly created world: no slots, nothing queued.
    pub open spec fn init() -> WorldView {
        WorldView {
            entities: Seq::empty(),
            components: Seq::empty(),
            recycled: Seq::empty(),
            to_delete: Seq::empty(),
            added: Seq::empty(),
            removed: Seq::empty(),
        }
    }

    /// Internal consistency of the registry: the mask table is parallel to
    /// the slot table, every nonzero mask carries the alive bit (a slot is
    /// alive or free, never half of each), every slot knows its own index,
    /// and the recycle stack holds distinct freed slots that still agree
    /// with the slot table.
    pub open spec fn wf(self) -> bool {
        &&& self.entities.len() <= usize::MAX
        &&& self.components.len() == self.entities.len()
        &&& forall|i: int|
            0 <= i < self.components.len() ==> ((#[trigger] self.components[i]) != 0
                ==> self.components[i] & 1 == 1)
        &&& forall|i: int|
            0 <= i < self.entities.len() ==> (#[trigger] self.entities[i]).id == i
        &&& forall|j: int|
            0 <= j < self.recycled.len() ==> {
                let r = #[trigger] self.recycled[j];
                &&& r.id < self.entities.len()
                &&& self.entities[r.id as int] == r
                &&& self.components[r.id as int] == 0
                &&& r.version < usize::MAX
            }
        &&& forall|j: int, k: int|
            0 <= j < k < self.recycled.len() ==> self.recycled[j].id != self.recycled[k].id
    }

    /// A handle is valid when its slot is alive (nonzero mask) and the
    /// slot's generation counter still equals the one in the handle.
    pub open spec fn valid(self, e: Entity) -> bool {
        &&& e.id < self.entities.len()
        &&& self.components[e.id as int] != 0
        &&& self.entities[e.id as int].version == e.version
    }

    /// Allocating an entity: pop the most recently freed slot and bump its
    /// generation, or open a fresh slot at the end of the table. Either way
    /// the new slot's mask is exactly the alive bit.
    pub open spec fn allocate(self) -> (WorldView, Entity) {
        if self.recycled.len() > 0 {
            let r = self.recycled.last();
            let e = Entity { id: r.id, version: (r.version + 1) as usize };
            (
                WorldView {
                    entities: self.entities.update(r.id as int, e),
                    components: self.components.update(r.id as int, 1),
                    recycled: self.recycled.drop_last(),
                    ..self
                },
                e,
            )
        } else {
            let e = Entity { id: self.entities.len() as usize, version: 0 };
            (
                WorldView {
                    entities: self.entities.push(e),
                    components: self.components.push(1),
                    ..self
                },
                e,
            )
        }
    }

    /// Marking an entity for deletion: the handle joins the deletion queue
    /// and an all-bits removal event is logged. The slot itself is untouched
    /// until the next sweep.
    pub open spec fn mark_delete(self, e: Entity) -> WorldView {
        WorldView {
            to_delete: self.to_delete.push(e),
            removed: self.removed.push((FULL_DELETE_MASK, e)),
            ..self
        }
    }

    /// One sweep step: if the queued handle is still valid, clear its mask
    /// and push the freed slot onto the recycle stack; otherwise do nothing.
    /// A slot whose generation counter has reached its ceiling is retired
    /// rather than recycled, so a later bump cannot wrap around.
    pub open spec fn sweep_step(self, e: Entity) -> WorldView {
        if self.valid(e) {
            WorldView {
                components: self.components.update(e.id as int, 0),
                recycled: if self.entities[e.id as int].version < usize::MAX {
                    self.recycled.push(self.entities[e.id as int])
                } else {
                    self.recycled
                },
                ..self
            }
        } else {
            self
        }
    }

    /// The sweep from queue position `i` on: apply `sweep_step` to each
    /// queued handle in order.
    pub open spec fn sweep_from(self, i: int) -> WorldView
        decreases self.to_delete.len() - i,
    {
        if 0 <= i < self.to_delete.len() {
            self.sweep_step(self.to_delete[i]).sweep_from(i + 1)
        } else {
            self
        }
    }

    /// The structural part of one update with no systems registered: sweep
    /// the whole deletion queue, then start the next frame with all three
    /// queues empty.
    pub open spec fn frame(self) -> WorldView {
        WorldView {
            to_delete: Seq::empty(),
            added: Seq::empty(),
            removed: Seq::empty(),
            ..self.sweep_from(0)
        }
    }

    /// Granting a component bit: set it, and log an added event only on the
    /// transition from clear to set (re-adding is not a structural change).
    pub open spec fn comp_add(self, e: Entity, m: u32) -> WorldView {
        WorldView {
            components: self.components.update(e.id as int, self.components[e.id as int] | m),
            added: if self.components[e.id as int] & m == 0 {
                self.added.push((m, e))
            } else {
                self.added
            },
            ..self
        }
    }

    /// Revoking a component bit: if it is set, clear it and log a removed
    /// event; if it is already clear, nothing happens and nothing is logged.
    pub open spec fn comp_remove(self, e: Entity, m: u32) -> WorldView {
        if self.components[e.id as int] & m != 0 {
            WorldView {
                components: self.components.update(
                    e.id as int,
                    self.components[e.id as int] ^ m,
                ),
                removed: self.removed.push((m, e)),
                ..self
            }
        } else {
            self
        }
    }

    /// The query result for an interest mask: every slot whose mask, with
    /// the alive bit folded in, is a superset of `m | 1`, in ascending id
    /// order. Only valid entities qualify, since a free slot's mask is zero.
    pub open spec fn with_mask(self, m: u32) -> Seq<Entity> {
        self.entities.filter(|e: Entity| self.components[e.id as int] & (m | 1) == (m | 1))
    }
}

} // verus!
