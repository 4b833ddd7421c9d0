//! Closing the focused window on a press of the escape key.

use vstd::prelude::*;
use bevy_input::keyboard::KeyCode;
use bevy_input::Input;
use crate::entity::Entity;
use crate::event::{despawns, Command};
use crate::sequences::{lemma_filter_push, lemma_take_next};
use crate::store::{EntityRecord, EntityStore};

verus! {

/// `bevy_input::Input`, the pressed, just pressed and just released inputs of
/// one device. Verus does not look inside.
#[verifier::external_type_specification]
#[verifier::external_body]
#[verifier::reject_recursive_types(T)]
pub struct ExInput<T: Copy + Eq + core::hash::Hash + Send + Sync + 'static>(Input<T>);

/// `bevy_input::keyboard::KeyCode`, the keys of a keyboard: an enum whose
/// variants carry nothing, so that a key can be named here.
#[verifier::external_type_specification]
pub struct ExKeyCode(KeyCode);

/// The keys that `input` holds as just pressed: those that went down since
/// the state was last cleared.
pub uninterp spec fn just_pressed_keys(input: Input<KeyCode>) -> Set<KeyCode>;

/// Calls `Input::just_pressed` of bevy_input, which looks the key up among
/// the just pressed keys of `input` and changes nothing.
#[verifier::external_body]
fn key_just_pressed(input: &Input<KeyCode>, key: KeyCode) -> (pressed: bool)
    ensures
        pressed == just_pressed_keys(*input).contains(key),
{
    input.just_pressed(key)
}

/// The windows that a press of the close key despawns: every window that has
/// the focus, in the store's order, where the key has just been pressed, and
/// none where it has not.
pub open spec fn closed_by_key(windows: EntityStore, just_pressed: bool) -> Seq<Entity> {
    if just_pressed {
        windows@.filter(|record: EntityRecord| record.is_focused_window()).map_values(
            |record: EntityRecord| record.entity,
        )
    } else {
        Seq::empty()
    }
}

/// Closes the focused window when the escape key has just been pressed.
///
/// The key has just been pressed in the tick in which it went down; while it
/// is held down after that it has not. Each focused window is despawned
/// directly, whatever its surface token says.
pub fn close_on_esc(
    commands: &mut Vec<Command>,
    focused_windows: &EntityStore,
    input: &Input<KeyCode>,
)
    ensures
        final(commands)@ == old(commands)@ + despawns(
            closed_by_key(*focused_windows, just_pressed_keys(*input).contains(KeyCode::Escape)),
        ),
{
    let escape_pressed = key_just_pressed(input, KeyCode::Escape);
    close_focused_windows(commands, focused_windows, escape_pressed);
}

/// Despawns every focused window where `just_pressed` holds, and none where
/// it does not.
pub fn close_focused_windows(
    commands: &mut Vec<Command>,
    focused_windows: &EntityStore,
    just_pressed: bool,
)
    ensures
        final(commands)@ == old(commands)@ + despawns(
            closed_by_key(*focused_windows, just_pressed),
        ),
{
    let ghost commands_before = commands@;
    let ghost focused = |record: EntityRecord| record.is_focused_window();
    let ghost entity_of = |record: EntityRecord| record.entity;
    let records = focused_windows.records();
    let mut i: usize = 0;
    proof {
        reveal(Seq::filter);
    }
    while i < records.len()
        invariant
            i <= records@.len(),
            focused == |record: EntityRecord| record.is_focused_window(),
            entity_of == |record: EntityRecord| record.entity,
            commands@ == commands_before + despawns(
                if just_pressed {
                    records@.take(i as int).filter(focused).map_values(entity_of)
                } else {
                    Seq::empty()
                },
            ),
        decreases records@.len() - i,
    {
        let record = records[i];
        proof {
            lemma_take_next(records@, i as int);
            lemma_filter_push(records@.take(i as int), record, focused);
        }
        let has_focus = match record.window {
            Some(window) => window.focused,
            None => false,
        };
        if has_focus && just_pressed {
            commands.push(Command::Despawn(record.entity));
        }
        i += 1;
    }
    assert(records@.take(records@.len() as int) =~= records@);
}

} // verus!
