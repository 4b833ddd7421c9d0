//! Closing windows on request: at once where that is safe, and otherwise as
//! soon as their surface has been released.
//!
//! One call of [`close_when_requested`] is a pass. The functions
//! [`still_waiting`] and [`despawned`] say what a pass leaves waiting and what
//! it despawns; the lemmas below them say what follows for a single window.

use vstd::prelude::*;
use crate::entity::Entity;
use crate::event::{despawns, Command, WindowCloseRequested};
use crate::pending::PendingCloses;
use crate::sequences::{
    lemma_filter_no_duplicates, lemma_filter_push, lemma_filter_to_set, lemma_push_to_set,
    lemma_take_next,
};
use crate::store::EntityStore;

verus! {

/// The windows that the requests name, one for each request, in their order.
pub open spec fn requested(closed: Seq<WindowCloseRequested>) -> Seq<Entity> {
    closed.map_values(|event: WindowCloseRequested| event.window)
}

/// The requests that are honoured at once: those whose window has a token
/// that reports it safe to close. A window that is named twice stands twice.
pub open spec fn closed_at_once(tokens: EntityStore, closed: Seq<WindowCloseRequested>) -> Seq<
    Entity,
> {
    requested(closed).filter(|entity: Entity| tokens.safe_to_close(entity))
}

/// The windows that the requests put off: those with a token that does not
/// yet report them safe to close.
pub open spec fn deferred(tokens: EntityStore, closed: Seq<WindowCloseRequested>) -> Set<Entity> {
    requested(closed).to_set().filter(|entity: Entity| tokens.not_yet_safe(entity))
}

/// The waiting windows that have become safe to close.
pub open spec fn released(waiting: Set<Entity>, tokens: EntityStore) -> Set<Entity> {
    waiting.filter(|entity: Entity| tokens.safe_to_close(entity))
}

/// The windows that wait after a pass: those that waited before and those
/// that the requests put off, without those that are safe to close. One
/// whose token cannot be found stays.
pub open spec fn still_waiting(
    waiting: Set<Entity>,
    tokens: EntityStore,
    closed: Seq<WindowCloseRequested>,
) -> Set<Entity> {
    (waiting + deferred(tokens, closed)).filter(|entity: Entity| !tokens.safe_to_close(entity))
}

/// The windows that a pass despawns: those of the requests that are honoured
/// at once, and the waiting ones that have become safe to close.
pub open spec fn despawned(
    waiting: Set<Entity>,
    tokens: EntityStore,
    closed: Seq<WindowCloseRequested>,
) -> Set<Entity> {
    closed_at_once(tokens, closed).to_set() + released(waiting, tokens)
}

/// A request for a window that is put off adds it to the deferred windows;
/// any other request adds nothing. A request for a window that is safe to
/// close adds it to those closed at once.
proof fn lemma_next_request(tokens: EntityStore, closed: Seq<WindowCloseRequested>, n: int)
    requires
        0 <= n < closed.len(),
    ensures
        closed_at_once(tokens, closed.take(n + 1)) == if tokens.safe_to_close(closed[n].window) {
            closed_at_once(tokens, closed.take(n)).push(closed[n].window)
        } else {
            closed_at_once(tokens, closed.take(n))
        },
        deferred(tokens, closed.take(n + 1)) == if tokens.not_yet_safe(closed[n].window) {
            deferred(tokens, closed.take(n)).insert(closed[n].window)
        } else {
            deferred(tokens, closed.take(n))
        },
{
    let before = requested(closed.take(n));
    let window = closed[n].window;
    lemma_take_next(closed, n);
    assert(requested(closed.take(n + 1)) =~= before.push(window));
    lemma_filter_push(before, window, |entity: Entity| tokens.safe_to_close(entity));
    lemma_push_to_set(before, window);
}

/// Closes windows in answer to close requests.
///
/// Each request is looked up in `tokens`. A window without a token is passed
/// over. A window whose token reports it safe to close is despawned at once.
/// Any other window is put into `waiting_to_close`. Then every waiting window
/// is looked up again: one that has become safe to close is despawned and
/// waits no longer; the others stay, also those whose token cannot be found.
///
/// The despawn commands are added to `commands`: first those of the requests,
/// in the order of the requests, then those of the waiting windows, each
/// once, in the order in which the set is walked.
pub fn close_when_requested(
    commands: &mut Vec<Command>,
    tokens: &EntityStore,
    closed: &Vec<WindowCloseRequested>,
    waiting_to_close: &mut PendingCloses,
)
    ensures
        final(waiting_to_close)@ == still_waiting(old(waiting_to_close)@, *tokens, closed@),
        exists|retried: Seq<Entity>|
            #[trigger] retried.no_duplicates() && retried.to_set() == released(
                old(waiting_to_close)@,
                *tokens,
            ) && final(commands)@ == old(commands)@ + despawns(closed_at_once(*tokens, closed@))
                + despawns(retried),
{
    let ghost commands_before = commands@;
    let ghost waiting_before = waiting_to_close@;
    let mut i: usize = 0;
    proof {
        reveal(Seq::filter);
    }
    while i < closed.len()
        invariant
            i <= closed@.len(),
            commands@ == commands_before + despawns(closed_at_once(*tokens, closed@.take(i as int))),
            waiting_to_close@ == waiting_before + deferred(*tokens, closed@.take(i as int)),
        decreases closed@.len() - i,
    {
        let window = closed[i].window;
        proof {
            lemma_next_request(*tokens, closed@, i as int);
        }
        match tokens.token(window) {
            Some(token) => {
                if token.is_safe_to_close_window() {
                    commands.push(Command::Despawn(window));
                } else {
                    waiting_to_close.insert(window);
                }
            },
            None => {},
        }
        i += 1;
    }
    assert(closed@.take(closed@.len() as int) =~= closed@);
    let ghost commands_requests = commands@;
    let ghost safe = |entity: Entity| tokens.safe_to_close(entity);

    let members = waiting_to_close.entities();
    let mut j: usize = 0;
    while j < members.len()
        invariant
            j <= members@.len(),
            safe == |entity: Entity| tokens.safe_to_close(entity),
            commands@ == commands_requests + despawns(members@.take(j as int).filter(safe)),
        decreases members@.len() - j,
    {
        let window = members[j];
        proof {
            lemma_take_next(members@, j as int);
            lemma_filter_push(members@.take(j as int), window, safe);
        }
        if tokens.is_safe_to_close(window) {
            commands.push(Command::Despawn(window));
        }
        j += 1;
    }
    waiting_to_close.release_safe(tokens);

    proof {
        assert(members@.take(members@.len() as int) =~= members@);
        lemma_filter_no_duplicates(members@, safe);
        lemma_filter_to_set(members@, safe);
    }
}

/// A pass despawns a window exactly when its token reports it safe to close
/// and it either waited or is named by a request.
pub proof fn lemma_despawned_windows(
    waiting: Set<Entity>,
    tokens: EntityStore,
    closed: Seq<WindowCloseRequested>,
    window: Entity,
)
    ensures
        despawned(waiting, tokens, closed).contains(window) <==> tokens.safe_to_close(window) && (
        waiting.contains(window) || requested(closed).contains(window)),
{
    lemma_filter_to_set(requested(closed), |entity: Entity| tokens.safe_to_close(entity));
}

/// The commands that a pass adds despawn exactly the windows in `despawned`,
/// in whatever order the waiting set was walked.
pub proof fn lemma_commands_despawn_the_despawned(
    waiting: Set<Entity>,
    tokens: EntityStore,
    closed: Seq<WindowCloseRequested>,
    retried: Seq<Entity>,
    window: Entity,
)
    requires
        retried.to_set() == released(waiting, tokens),
    ensures
        (despawns(closed_at_once(tokens, closed)) + despawns(retried)).contains(
            Command::Despawn(window),
        ) <==> despawned(waiting, tokens, closed).contains(window),
{
    let at_once = closed_at_once(tokens, closed);
    let added = despawns(at_once) + despawns(retried);
    if added.contains(Command::Despawn(window)) {
        let i = choose|i: int| 0 <= i < added.len() && added[i] == Command::Despawn(window);
        if i < at_once.len() {
            assert(at_once[i] == window);
            assert(at_once.to_set().contains(window));
        } else {
            assert(retried[i - at_once.len()] == window);
            assert(retried.to_set().contains(window));
        }
    }
    if at_once.to_set().contains(window) {
        let i = choose|i: int| 0 <= i < at_once.len() && at_once[i] == window;
        assert(added[i] == Command::Despawn(window));
    }
    if released(waiting, tokens).contains(window) {
        assert(retried.to_set().contains(window));
        let i = choose|i: int| 0 <= i < retried.len() && retried[i] == window;
        assert(added[at_once.len() + i] == Command::Despawn(window));
    }
}

/// After a pass a window waits exactly when its token does not report it
/// safe to close and it either waited before or is named by a request while
/// its token reports it not yet safe.
pub proof fn lemma_waiting_windows(
    waiting: Set<Entity>,
    tokens: EntityStore,
    closed: Seq<WindowCloseRequested>,
    window: Entity,
)
    ensures
        still_waiting(waiting, tokens, closed).contains(window) <==> !tokens.safe_to_close(window)
            && (waiting.contains(window) || (tokens.not_yet_safe(window) && requested(
            closed,
        ).contains(window))),
{
}

/// However often a window that is not yet safe to close is asked to close
/// within one pass, it waits once: with nothing waiting before and no other
/// request, the waiting set is that one window.
pub proof fn lemma_repeated_requests_wait_once(
    tokens: EntityStore,
    closed: Seq<WindowCloseRequested>,
    window: Entity,
)
    requires
        tokens.not_yet_safe(window),
        closed.len() >= 1,
        forall|i: int| 0 <= i < closed.len() ==> (#[trigger] closed[i]).window == window,
    ensures
        still_waiting(Set::empty(), tokens, closed) == set![window],
        still_waiting(Set::empty(), tokens, closed).len() == 1,
{
    assert(requested(closed)[0] == window);
    assert forall|entity: Entity|
        still_waiting(Set::empty(), tokens, closed).contains(entity) implies entity == window by {
        let i = choose|i: int| 0 <= i < requested(closed).len() && requested(closed)[i] == entity;
        assert(closed[i].window == window);
    }
    assert(still_waiting(Set::empty(), tokens, closed) =~= set![window]);
}

/// A request for a window that waits already, and is still not safe to
/// close, changes nothing.
pub proof fn lemma_request_for_waiting_window(
    waiting: Set<Entity>,
    tokens: EntityStore,
    closed: Seq<WindowCloseRequested>,
    window: Entity,
)
    requires
        waiting.contains(window),
        tokens.not_yet_safe(window),
    ensures
        still_waiting(waiting, tokens, closed.push(WindowCloseRequested { window }))
            == still_waiting(waiting, tokens, closed),
        closed_at_once(tokens, closed.push(WindowCloseRequested { window })) == closed_at_once(
            tokens,
            closed,
        ),
{
    let more = closed.push(WindowCloseRequested { window });
    assert(requested(more) =~= requested(closed).push(window));
    lemma_filter_push(requested(closed), window, |entity: Entity| tokens.safe_to_close(entity));
    assert forall|entity: Entity|
        still_waiting(waiting, tokens, more).contains(entity) implies still_waiting(
        waiting,
        tokens,
        closed,
    ).contains(entity) by {
        if entity != window && !waiting.contains(entity) {
            let i = choose|i: int| 0 <= i < requested(more).len() && requested(more)[i] == entity;
            assert(requested(closed)[i] == entity);
        }
    }
    assert forall|entity: Entity|
        still_waiting(waiting, tokens, closed).contains(entity) implies still_waiting(
        waiting,
        tokens,
        more,
    ).contains(entity) by {
        if !waiting.contains(entity) {
            let i = choose|i: int|
                0 <= i < requested(closed).len() && requested(closed)[i] == entity;
            assert(requested(more)[i] == entity);
        }
    }
    assert(still_waiting(waiting, tokens, more) =~= still_waiting(waiting, tokens, closed));
}

/// A window without a token is left alone: no request for it is honoured or
/// put off, the waiting do not release it, and it waits afterwards exactly
/// if it waited before.
pub proof fn lemma_window_without_token(
    waiting: Set<Entity>,
    tokens: EntityStore,
    closed: Seq<WindowCloseRequested>,
    window: Entity,
)
    requires
        tokens.token_of(window) is None,
    ensures
        !closed_at_once(tokens, closed).contains(window),
        !deferred(tokens, closed).contains(window),
        !despawned(waiting, tokens, closed).contains(window),
        still_waiting(waiting, tokens, closed).contains(window) == waiting.contains(window),
{
    lemma_despawned_windows(waiting, tokens, closed, window);
    lemma_filter_to_set(requested(closed), |entity: Entity| tokens.safe_to_close(entity));
}

/// A request for a window without a token does nothing: with it the pass
/// despawns and keeps waiting the same windows as without it.
pub proof fn lemma_request_without_token(
    waiting: Set<Entity>,
    tokens: EntityStore,
    closed: Seq<WindowCloseRequested>,
    window: Entity,
    at: int,
)
    requires
        tokens.token_of(window) is None,
        0 <= at <= closed.len(),
    ensures
        closed_at_once(tokens, closed.insert(at, WindowCloseRequested { window }))
            == closed_at_once(tokens, closed),
        still_waiting(waiting, tokens, closed.insert(at, WindowCloseRequested { window }))
            == still_waiting(waiting, tokens, closed),
{
    let safe = |entity: Entity| tokens.safe_to_close(entity);
    let more = closed.insert(at, WindowCloseRequested { window });
    let head = requested(closed).subrange(0, at);
    let tail = requested(closed).subrange(at, closed.len() as int);
    assert(requested(closed) =~= head + tail);
    assert(requested(more) =~= head.push(window) + tail);
    Seq::filter_distributes_over_add(head, tail, safe);
    Seq::filter_distributes_over_add(head.push(window), tail, safe);
    lemma_filter_push(head, window, safe);

    assert forall|entity: Entity|
        still_waiting(waiting, tokens, more).contains(entity) implies still_waiting(
        waiting,
        tokens,
        closed,
    ).contains(entity) by {
        if !waiting.contains(entity) {
            let i = choose|i: int| 0 <= i < requested(more).len() && requested(more)[i] == entity;
            if i < at {
                assert(requested(closed)[i] == entity);
            } else {
                assert(requested(closed)[i - 1] == entity);
            }
        }
    }
    assert forall|entity: Entity|
        still_waiting(waiting, tokens, closed).contains(entity) implies still_waiting(
        waiting,
        tokens,
        more,
    ).contains(entity) by {
        if !waiting.contains(entity) {
            let i = choose|i: int|
                0 <= i < requested(closed).len() && requested(closed)[i] == entity;
            if i < at {
                assert(requested(more)[i] == entity);
            } else {
                assert(requested(more)[i + 1] == entity);
            }
        }
    }
    assert(still_waiting(waiting, tokens, more) =~= still_waiting(waiting, tokens, closed));
}

} // verus!
