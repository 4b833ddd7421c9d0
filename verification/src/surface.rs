//! Providing windows with surface tokens.

use vstd::prelude::*;
use crate::entity::Entity;
use crate::event::{token_insertions, Command};
use crate::sequences::{lemma_filter_push, lemma_filter_to_set, lemma_take_next};
use crate::store::{EntityRecord, EntityStore};

verus! {

/// The windows to which no surface token is attached, in the store's order.
pub open spec fn windows_without_token(store: EntityStore) -> Seq<Entity> {
    store@.filter(|record: EntityRecord| record.is_window_without_token()).map_values(
        |record: EntityRecord| record.entity,
    )
}

/// Where every window has its token there is nothing to provide, however
/// often the procedure runs.
pub proof fn lemma_provided_windows_need_nothing(store: EntityStore)
    requires
        forall|i: int| 0 <= i < store@.len() ==> !(#[trigger] store@[i]).is_window_without_token(),
    ensures
        windows_without_token(store) == Seq::<Entity>::empty(),
{
    let missing = |record: EntityRecord| record.is_window_without_token();
    let found = store@.filter(missing);
    if found.len() > 0 {
        lemma_filter_to_set(store@, missing);
        assert(found.to_set().contains(found[0]));
        assert(store@.contains(found[0]));
    }
}

/// Gives every window that has no surface token a new default one.
///
/// A window needs its token before a close request for it can be answered.
/// Entities that have a token, and entities that are no windows, get no
/// command.
pub fn fixup_window_surface(commands: &mut Vec<Command>, missing_surface_token: &EntityStore)
    ensures
        final(commands)@ == old(commands)@ + token_insertions(
            windows_without_token(*missing_surface_token),
        ),
{
    let ghost commands_before = commands@;
    let ghost missing = |record: EntityRecord| record.is_window_without_token();
    let ghost entity_of = |record: EntityRecord| record.entity;
    let records = missing_surface_token.records();
    let mut i: usize = 0;
    proof {
        reveal(Seq::filter);
    }
    while i < records.len()
        invariant
            i <= records@.len(),
            missing == |record: EntityRecord| record.is_window_without_token(),
            entity_of == |record: EntityRecord| record.entity,
            commands@ == commands_before + token_insertions(
                records@.take(i as int).filter(missing).map_values(entity_of),
            ),
        decreases records@.len() - i,
    {
        let record = records[i];
        proof {
            lemma_take_next(records@, i as int);
            lemma_filter_push(records@.take(i as int), record, missing);
        }
        if record.window.is_some() && record.token.is_none() {
            commands.push(Command::InsertSurfaceToken(record.entity));
        }
        i += 1;
    }
    assert(records@.take(records@.len() as int) =~= records@);
}

} // verus!
