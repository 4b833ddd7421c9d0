//! The windows whose close was asked for and has not yet been safe.

use vstd::prelude::*;
use crate::entity::Entity;
use crate::store::EntityStore;

verus! {

/// The set of windows that wait for their release.
///
/// It keeps the bits of each handle in a `bevy_utils::HashSet<u64>`, which is
/// the `HashSet` of hashbrown with a hasher of its own. Verus does not look
/// inside: what is known of the set is what the functions below state about
/// `waiting_entities`.
#[verifier::external_body]
pub struct PendingCloses {
    set: bevy_utils::HashSet<u64>,
}

/// The entities whose bits the hash set of `pending` holds.
pub uninterp spec fn waiting_entities(pending: PendingCloses) -> Set<Entity>;

impl View for PendingCloses {
    type V = Set<Entity>;

    open spec fn view(&self) -> Set<Entity> {
        waiting_entities(*self)
    }
}

/// Calls `HashSet::default` of hashbrown: the new set holds nothing.
#[verifier::external_body]
fn set_default() -> (pending: PendingCloses)
    ensures
        waiting_entities(pending) == Set::<Entity>::empty(),
{
    PendingCloses { set: bevy_utils::HashSet::default() }
}

/// Calls `HashSet::insert` of hashbrown: afterwards the set holds the value
/// besides what it held, and the call returns whether the value was new.
#[verifier::external_body]
fn set_insert(pending: &mut PendingCloses, entity: Entity) -> (fresh: bool)
    ensures
        waiting_entities(*final(pending)) == waiting_entities(*old(pending)).insert(entity),
        fresh == !waiting_entities(*old(pending)).contains(entity),
{
    pending.set.insert(entity.bits)
}

/// Calls `HashSet::contains` of hashbrown: whether the set holds the value.
#[verifier::external_body]
fn set_contains(pending: &PendingCloses, entity: Entity) -> (found: bool)
    ensures
        found == waiting_entities(*pending).contains(entity),
{
    pending.set.contains(&entity.bits)
}

/// Calls `HashSet::iter` of hashbrown, which visits every value of the set
/// once, in an order that it does not promise. The values are collected as
/// entity handles.
#[verifier::external_body]
fn set_members(pending: &PendingCloses) -> (members: Vec<Entity>)
    ensures
        members@.no_duplicates(),
        members@.to_set() == waiting_entities(*pending),
{
    pending.set.iter().map(|bits| Entity { bits: *bits }).collect()
}

/// Calls `HashSet::retain` of hashbrown, which removes every value for which
/// the closure returns `false` and keeps the others. The closure asks
/// `keeps_waiting`, so what stays is what `tokens` does not report as safe
/// to close.
#[verifier::external_body]
fn set_retain_waiting(pending: &mut PendingCloses, tokens: &EntityStore)
    ensures
        waiting_entities(*final(pending)) == waiting_entities(*old(pending)).filter(
            |entity: Entity| !tokens.safe_to_close(entity),
        ),
{
    pending.set.retain(|bits| keeps_waiting(tokens, *bits));
}

/// Whether the entity with these bits stays in the waiting set: it does
/// unless its token reports that it is safe to close.
fn keeps_waiting(tokens: &EntityStore, bits: u64) -> (keep: bool)
    ensures
        keep == !tokens.safe_to_close(Entity { bits }),
{
    !tokens.is_safe_to_close(Entity::from_bits(bits))
}

impl Default for PendingCloses {
    /// A set in which nothing waits.
    fn default() -> (pending: PendingCloses)
        ensures
            pending@ == Set::<Entity>::empty(),
    {
        PendingCloses::new()
    }
}

impl PendingCloses {
    /// A set in which nothing waits.
    pub fn new() -> (pending: PendingCloses)
        ensures
            pending@ == Set::<Entity>::empty(),
    {
        set_default()
    }

    /// Puts `entity` among the waiting. An entity that waits already is not
    /// entered a second time. Returns whether the entity was new.
    pub fn insert(&mut self, entity: Entity) -> (fresh: bool)
        ensures
            final(self)@ == old(self)@.insert(entity),
            fresh == !old(self)@.contains(entity),
    {
        set_insert(self, entity)
    }

    /// Whether `entity` waits.
    pub fn contains(&self, entity: Entity) -> (found: bool)
        ensures
            found == self@.contains(entity),
    {
        set_contains(self, entity)
    }

    /// The waiting entities, each once, in no particular order.
    pub fn entities(&self) -> (members: Vec<Entity>)
        ensures
            members@.no_duplicates(),
            members@.to_set() == self@,
    {
        set_members(self)
    }

    /// How many entities wait. The count is taken from a walk over the set.
    pub fn len(&self) -> (count: usize)
        ensures
            self@.finite(),
            count == self@.len(),
    {
        let members = self.entities();
        proof {
            members@.unique_seq_to_set();
            vstd::seq_lib::seq_to_set_is_finite(members@);
        }
        members.len()
    }

    /// Lets go of every entity that `tokens` reports as safe to close, and
    /// keeps the others.
    pub fn release_safe(&mut self, tokens: &EntityStore)
        ensures
            final(self)@ == old(self)@.filter(|entity: Entity| !tokens.safe_to_close(entity)),
    {
        set_retain_waiting(self, tokens)
    }
}

} // verus!
