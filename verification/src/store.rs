//! The entities that a procedure can see during one tick.

use vstd::prelude::*;
use crate::entity::Entity;

verus! {

/// The window record of an entity. Only the focus flag is read here.
#[derive(Clone, Copy, Debug, PartialEq, Eq, Structural)]
pub struct Window {
    pub focused: bool,
}

/// What the owner of a window's surface reports about it at this tick.
#[derive(Clone, Copy, Debug, PartialEq, Eq, Structural)]
pub struct SurfaceToken {
    pub safe_to_close: bool,
}

impl SurfaceToken {
    /// Whether the surface owner is done with the window, so that it may be
    /// despawned.
    pub fn is_safe_to_close_window(&self) -> (safe: bool)
        ensures
            safe == self.safe_to_close,
    {
        self.safe_to_close
    }
}

/// One entity with the components that the coordinator reads.
#[derive(Clone, Copy, Debug, PartialEq, Eq, Structural)]
pub struct EntityRecord {
    pub entity: Entity,
    /// The window record, if the entity is a window.
    pub window: Option<Window>,
    /// Whether the entity carries the primary-window marker.
    pub primary: bool,
    /// The surface token, if one has been attached.
    pub token: Option<SurfaceToken>,
}

impl EntityRecord {
    /// The entity carries a window record.
    pub open spec fn is_window(self) -> bool {
        self.window is Some
    }

    /// The entity carries a window record and the primary-window marker.
    pub open spec fn is_primary_window(self) -> bool {
        self.window is Some && self.primary
    }

    /// The entity carries a window record that has the focus.
    pub open spec fn is_focused_window(self) -> bool {
        self.window matches Some(window) && window.focused
    }

    /// The entity is a window to which no surface token is attached.
    pub open spec fn is_window_without_token(self) -> bool {
        self.window is Some && self.token is None
    }
}

/// No entity has two records.
pub open spec fn distinct_entities(records: Seq<EntityRecord>) -> bool {
    forall|i: int, j: int|
        0 <= i < j < records.len() ==> (#[trigger] records[i]).entity != (#[trigger] records[j]).entity
}

/// The entities of the host's store as one procedure sees them: the state at
/// the start of its run, in the order in which the host walks them. Commands
/// that the procedure queues do not show here.
pub struct EntityStore {
    records: Vec<EntityRecord>,
}

impl View for EntityStore {
    type V = Seq<EntityRecord>;

    closed spec fn view(&self) -> Seq<EntityRecord> {
        self.records@
    }
}

impl Default for EntityStore {
    /// A store without entities.
    fn default() -> (store: EntityStore)
        ensures
            store@ == Seq::<EntityRecord>::empty(),
    {
        EntityStore::new()
    }
}

impl EntityStore {
    #[verifier::type_invariant]
    spec fn well_formed(&self) -> bool {
        distinct_entities(self.records@)
    }

    /// Some record is that of `entity`.
    pub open spec fn holds(&self, entity: Entity) -> bool {
        exists|i: int| 0 <= i < self@.len() && (#[trigger] self@[i]).entity == entity
    }

    /// The record of `entity`, where the store holds it.
    pub open spec fn record_of(&self, entity: Entity) -> Option<EntityRecord> {
        if self.holds(entity) {
            Some(self@[choose|i: int| 0 <= i < self@.len() && (#[trigger] self@[i]).entity == entity])
        } else {
            None
        }
    }

    /// The surface token of `entity`: `None` where the store does not hold
    /// the entity, or holds it without a token.
    pub open spec fn token_of(&self, entity: Entity) -> Option<SurfaceToken> {
        match self.record_of(entity) {
            Some(record) => record.token,
            None => None,
        }
    }

    /// The surface owner reports that `entity` may be despawned now.
    pub open spec fn safe_to_close(&self, entity: Entity) -> bool {
        self.token_of(entity) matches Some(token) && token.safe_to_close
    }

    /// The entity has a surface token, and its owner is not yet done.
    pub open spec fn not_yet_safe(&self, entity: Entity) -> bool {
        self.token_of(entity) matches Some(token) && !token.safe_to_close
    }

    /// A store without entities.
    pub fn new() -> (store: EntityStore)
        ensures
            store@ == Seq::<EntityRecord>::empty(),
    {
        EntityStore { records: Vec::new() }
    }

    /// The number of entities.
    pub fn len(&self) -> (count: usize)
        ensures
            count == self@.len(),
    {
        self.records.len()
    }

    /// The records, in the store's order.
    pub fn records(&self) -> (records: &Vec<EntityRecord>)
        ensures
            records@ == self@,
            distinct_entities(records@),
    {
        proof {
            use_type_invariant(self);
        }
        &self.records
    }

    /// The place of the record of `entity`.
    fn position(&self, entity: Entity) -> (place: Option<usize>)
        ensures
            match place {
                Some(i) => i < self@.len() && self@[i as int].entity == entity,
                None => !self.holds(entity),
            },
    {
        let mut i: usize = 0;
        while i < self.records.len()
            invariant
                i <= self.records@.len(),
                forall|k: int| 0 <= k < i ==> (#[trigger] self.records@[k]).entity != entity,
            decreases self.records@.len() - i,
        {
            if self.records[i].entity == entity {
                return Some(i);
            }
            i += 1;
        }
        None
    }

    /// Looks `entity` up.
    pub fn get(&self, entity: Entity) -> (record: Option<EntityRecord>)
        ensures
            record == self.record_of(entity),
    {
        proof {
            use_type_invariant(self);
        }
        match self.position(entity) {
            Some(i) => Some(self.records[i]),
            None => None,
        }
    }

    /// Looks the surface token of `entity` up.
    pub fn token(&self, entity: Entity) -> (token: Option<SurfaceToken>)
        ensures
            token == self.token_of(entity),
    {
        match self.get(entity) {
            Some(record) => record.token,
            None => None,
        }
    }

    /// Whether the token of `entity` reports that it is safe to close.
    pub fn is_safe_to_close(&self, entity: Entity) -> (safe: bool)
        ensures
            safe == self.safe_to_close(entity),
    {
        match self.token(entity) {
            Some(token) => token.is_safe_to_close_window(),
            None => false,
        }
    }

    /// Adds the record of an entity behind the others. An entity that the
    /// store already holds is not added again, and the store stays as it was.
    pub fn insert(&mut self, record: EntityRecord) -> (added: bool)
        ensures
            added == !old(self).holds(record.entity),
            final(self)@ == if added { old(self)@.push(record) } else { old(self)@ },
    {
        proof {
            use_type_invariant(&*self);
        }
        match self.position(record.entity) {
            Some(_) => false,
            None => {
                let mut records: Vec<EntityRecord> = Vec::new();
                core::mem::swap(&mut self.records, &mut records);
                records.push(record);
                core::mem::swap(&mut self.records, &mut records);
                true
            },
        }
    }
}

} // verus!
