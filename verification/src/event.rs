//! Events that reach the coordinator, and what it asks of its host.

use vstd::prelude::*;
use crate::entity::Entity;

verus! {

/// A request to close one window, as the windowing glue reports it.
#[derive(Clone, Copy, Debug, PartialEq, Eq, Structural)]
pub struct WindowCloseRequested {
    pub window: Entity,
}

/// A structural change that the host applies to its entity store after the
/// procedure that queued it has returned.
#[derive(Clone, Copy, Debug, PartialEq, Eq, Structural)]
pub enum Command {
    /// Remove the entity from the store.
    Despawn(Entity),
    /// Attach a newly made default surface token to the entity.
    InsertSurfaceToken(Entity),
}

/// One despawn command for each entity, in the same order.
pub open spec fn despawns(entities: Seq<Entity>) -> Seq<Command> {
    entities.map_values(|entity: Entity| Command::Despawn(entity))
}

/// One token insertion for each entity, in the same order.
pub open spec fn token_insertions(entities: Seq<Entity>) -> Seq<Command> {
    entities.map_values(|entity: Entity| Command::InsertSurfaceToken(entity))
}

} // verus!
