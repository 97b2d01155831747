use vstd::prelude::*;

use crate::dispatch::sorted_distinct;
use crate::entity::Entity;
use crate::schema::Components;
use crate::world::World;

verus! {

/// An application-supplied behavior unit that the world runs once per
/// frame.
///
/// A system declares a constant interest mask and receives, in turn, the
/// entities currently matching that mask (`process`), the entities that
/// gained a matching component bit last frame (`process_added`), and the
/// entities that lost one (`process_removed`). Each callback gets full
/// mutable access to the world; whatever it does, it must hand the world
/// back well-formed, which any callback that goes through the world's
/// public methods does without further ado.
pub trait System<T: Components, C>: Sized {
    /// The interest mask as this system's state carries it; `get_entity_mask`
    /// returns it, and no callback changes it. An implementation returns
    /// the same constant, or the same field, from both.
    spec fn spec_entity_mask(&self) -> u32;

    /// Processes the entities that currently own every bit of the interest
    /// mask. The scheduler hands over only currently-valid entities, once
    /// each, in ascending id order. Structural changes made here are
    /// visible to later systems in the same frame, but entity deletions are
    /// swept only by the next update.
    fn process(&mut self, entities: Vec<Entity>, world: &mut World<T, C>)
        requires
            old(world).wf(),
            forall|i: int|
                0 <= i < entities@.len() ==> old(world)@.valid(#[trigger] entities@[i]),
            sorted_distinct(entities@),
        ensures
            final(world).wf(),
            final(self).spec_entity_mask() == old(self).spec_entity_mask(),
    ;

    /// The interest mask: the minimum set of component bits an entity must
    /// own for this system to process it. It must not vary across calls.
    fn get_entity_mask(&self) -> (m: u32)
        ensures
            m == self.spec_entity_mask(),
    ;

    /// Processes the entities that gained a component bit intersecting the
    /// interest mask last frame, each reported once, in ascending id order.
    fn process_added(&mut self, entities: Vec<Entity>, world: &mut World<T, C>)
        requires
            old(world).wf(),
            sorted_distinct(entities@),
        ensures
            final(world).wf(),
            final(self).spec_entity_mask() == old(self).spec_entity_mask(),
    {
    }

    /// Processes the entities that lost a component bit intersecting the
    /// interest mask last frame — a full deletion counts as losing every
    /// bit — each reported once, in ascending id order.
    fn process_removed(&mut self, entities: Vec<Entity>, world: &mut World<T, C>)
        requires
            old(world).wf(),
            sorted_distinct(entities@),
        ensures
            final(world).wf(),
            final(self).spec_entity_mask() == old(self).spec_entity_mask(),
    {
    }
}

} // verus!
