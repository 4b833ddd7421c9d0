//! Deciding that the application should exit.

use vstd::prelude::*;
use bevy_app::AppExit;
use crate::store::{EntityRecord, EntityStore};

verus! {

/// `bevy_app::AppExit`, the event that tells the application to shut down.
/// It carries nothing.
#[verifier::external_type_specification]
pub struct ExAppExit(AppExit);

/// Some entity of the store carries a window record.
pub open spec fn any_window(windows: EntityStore) -> bool {
    exists|i: int| 0 <= i < windows@.len() && (#[trigger] windows@[i]).is_window()
}

/// Some entity of the store carries a window record and the primary-window
/// marker.
pub open spec fn any_primary_window(windows: EntityStore) -> bool {
    exists|i: int| 0 <= i < windows@.len() && (#[trigger] windows@[i]).is_primary_window()
}

/// Exits the application when no window is open.
///
/// The store is the one that is left after the despawns of the tick. One
/// exit signal is sent where no entity carries a window record, and none
/// where one does.
pub fn exit_on_all_closed(app_exit_events: &mut Vec<AppExit>, windows: &EntityStore)
    ensures
        final(app_exit_events)@ == if any_window(*windows) {
            old(app_exit_events)@
        } else {
            old(app_exit_events)@.push(AppExit)
        },
{
    let records = windows.records();
    let mut i: usize = 0;
    while i < records.len()
        invariant
            i <= records@.len(),
            records@ == windows@,
            app_exit_events@ == old(app_exit_events)@,
            forall|k: int| 0 <= k < i ==> !(#[trigger] records@[k]).is_window(),
        decreases records@.len() - i,
    {
        if records[i].window.is_some() {
            return;
        }
        i += 1;
    }
    app_exit_events.push(AppExit);
}

/// Exits the application when the primary window has been closed.
///
/// One exit signal is sent where no entity carries both a window record and
/// the primary-window marker, and none where one does.
pub fn exit_on_primary_closed(app_exit_events: &mut Vec<AppExit>, windows: &EntityStore)
    ensures
        final(app_exit_events)@ == if any_primary_window(*windows) {
            old(app_exit_events)@
        } else {
            old(app_exit_events)@.push(AppExit)
        },
{
    let records = windows.records();
    let mut i: usize = 0;
    while i < records.len()
        invariant
            i <= records@.len(),
            records@ == windows@,
            app_exit_events@ == old(app_exit_events)@,
            forall|k: int| 0 <= k < i ==> !(#[trigger] records@[k]).is_primary_window(),
        decreases records@.len() - i,
    {
        if records[i].window.is_some() && records[i].primary {
            return;
        }
        i += 1;
    }
    app_exit_events.push(AppExit);
}

} // verus!
