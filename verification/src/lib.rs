//! A small entity-component-system runtime.
//!
//! A [`World`] hands out [`Entity`] handles (an index plus a generation
//! counter), tracks which component types each entity owns in a per-slot
//! bitmask, and runs application-supplied [`System`]s once per frame.
//! Component values live in typed columns supplied by the application
//! through the [`Components`] and [`ComponentAccess`] traits; the runtime
//! only ever touches a column at a valid entity's index.

mod dispatch;
mod entity;
mod laws;
mod schema;
mod system;
mod view;
mod world;

pub use dispatch::{entity_lt, sorted_distinct, event_hits, dispatch_set};
pub use entity::Entity;
pub use system::System;
pub use view::{WorldView, FULL_DELETE_MASK};
pub use schema::{Components, ComponentAccess};
pub use laws::{lemma_allocate_wf, lemma_add_grants, lemma_remove_clears, lemma_comp_add_idempotent, lemma_entities_exactly_valid, lemma_shared_fate, lemma_recycling, lemma_component_lifecycle, lemma_dispatch_once, lemma_frame_idempotent, lemma_query_membership};
pub use world::World;
