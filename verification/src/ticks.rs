//! What holds of closing on request over any number of ticks, with one pass
//! in each tick.

use vstd::prelude::*;
use crate::close::{
    deferred, despawned, lemma_despawned_windows, lemma_repeated_requests_wait_once, requested,
    still_waiting,
};
use crate::entity::Entity;
use crate::event::WindowCloseRequested;
use crate::store::EntityStore;

verus! {

/// What the pass of one tick is handed: the store as it is when the pass
/// starts, and the close requests that arrived.
pub struct Tick {
    pub tokens: EntityStore,
    pub closed: Seq<WindowCloseRequested>,
}

/// The windows that wait after the first `n` ticks, where `start` waited
/// before the first.
pub open spec fn waiting_after(start: Set<Entity>, ticks: Seq<Tick>, n: nat) -> Set<Entity>
    decreases n,
{
    if n == 0 {
        start
    } else {
        still_waiting(
            waiting_after(start, ticks, (n - 1) as nat),
            ticks[n - 1].tokens,
            ticks[n - 1].closed,
        )
    }
}

/// The windows that tick `n` despawns, counting the first tick as 0.
pub open spec fn despawned_in(start: Set<Entity>, ticks: Seq<Tick>, n: nat) -> Set<Entity> {
    despawned(waiting_after(start, ticks, n), ticks[n as int].tokens, ticks[n as int].closed)
}

/// Over any number of ticks in which a window is asked to close again and
/// again while it is not yet safe to close, it waits once: with nothing
/// waiting before and no other request, the waiting set is that one window.
pub proof fn lemma_requests_over_ticks_wait_once(ticks: Seq<Tick>, window: Entity, n: nat)
    requires
        1 <= n <= ticks.len(),
        forall|t: int| 0 <= t < n ==> (#[trigger] ticks[t]).tokens.not_yet_safe(window),
        forall|t: int| 0 <= t < n ==> (#[trigger] ticks[t]).closed.len() >= 1,
        forall|t: int, i: int|
            0 <= t < n && 0 <= i < ticks[t].closed.len() ==> (#[trigger] ticks[t].closed[i]).window
                == window,
    ensures
        waiting_after(Set::empty(), ticks, n) == set![window],
        waiting_after(Set::empty(), ticks, n).len() == 1,
    decreases n,
{
    let tick = ticks[n - 1];
    assert(requested(tick.closed)[0] == tick.closed[0].window);
    if n == 1 {
        assert(waiting_after(Set::empty(), ticks, 0) == Set::<Entity>::empty());
        lemma_repeated_requests_wait_once(tick.tokens, tick.closed, window);
    } else {
        lemma_requests_over_ticks_wait_once(ticks, window, (n - 1) as nat);
        let before = waiting_after(Set::empty(), ticks, (n - 1) as nat);
        assert forall|entity: Entity|
            still_waiting(before, tick.tokens, tick.closed).contains(entity) implies entity
            == window by {
            if !before.contains(entity) {
                let i = choose|i: int|
                    0 <= i < requested(tick.closed).len() && requested(tick.closed)[i] == entity;
                assert(tick.closed[i].window == window);
            }
        }
        assert(still_waiting(before, tick.tokens, tick.closed) =~= set![window]);
    }
}

/// A window whose token never reports it safe to close is never despawned,
/// however many ticks pass and whatever is asked.
pub proof fn lemma_no_premature_despawn(start: Set<Entity>, ticks: Seq<Tick>, window: Entity)
    requires
        forall|t: int| 0 <= t < ticks.len() ==> !(#[trigger] ticks[t]).tokens.safe_to_close(window),
    ensures
        forall|t: nat| t < ticks.len() ==> !(#[trigger] despawned_in(start, ticks, t)).contains(window),
{
    assert forall|t: nat| t < ticks.len() implies !(#[trigger] despawned_in(
        start,
        ticks,
        t,
    )).contains(window) by {
        let tick = ticks[t as int];
        lemma_despawned_windows(waiting_after(start, ticks, t), tick.tokens, tick.closed, window);
    }
}

/// A window that is asked to close in tick `asked_at`, whose token reports
/// it not yet safe to close from then until tick `safe_at`, and safe to
/// close in tick `safe_at`, waits through every tick in between without
/// being despawned, is despawned in tick `safe_at`, and waits no longer after
/// it. With `asked_at == safe_at` the request comes when the window is safe
/// to close already, and the same tick despawns it.
pub proof fn lemma_released_when_safe(
    start: Set<Entity>,
    ticks: Seq<Tick>,
    window: Entity,
    asked_at: nat,
    safe_at: nat,
)
    requires
        asked_at <= safe_at < ticks.len(),
        requested(ticks[asked_at as int].closed).contains(window),
        forall|t: int|
            asked_at <= t < safe_at ==> (#[trigger] ticks[t]).tokens.not_yet_safe(window),
        ticks[safe_at as int].tokens.safe_to_close(window),
    ensures
        forall|t: nat|
            asked_at <= t < safe_at ==> !(#[trigger] despawned_in(start, ticks, t)).contains(
                window,
            ),
        forall|t: nat|
            asked_at < t <= safe_at ==> (#[trigger] waiting_after(start, ticks, t)).contains(
                window,
            ),
        despawned_in(start, ticks, safe_at).contains(window),
        !waiting_after(start, ticks, safe_at + 1).contains(window),
{
    assert forall|t: nat| asked_at <= t < safe_at implies !(#[trigger] despawned_in(
        start,
        ticks,
        t,
    )).contains(window) by {
        let tick = ticks[t as int];
        lemma_despawned_windows(waiting_after(start, ticks, t), tick.tokens, tick.closed, window);
    }
    assert forall|t: nat| asked_at < t <= safe_at implies (#[trigger] waiting_after(
        start,
        ticks,
        t,
    )).contains(window) by {
        lemma_waits_until(start, ticks, window, asked_at, t);
    }
    let tick = ticks[safe_at as int];
    lemma_despawned_windows(
        waiting_after(start, ticks, safe_at),
        tick.tokens,
        tick.closed,
        window,
    );
}

/// A window that is asked to close in tick `asked_at` and is not yet safe to
/// close from then until tick `t` waits when tick `t` starts.
proof fn lemma_waits_until(
    start: Set<Entity>,
    ticks: Seq<Tick>,
    window: Entity,
    asked_at: nat,
    t: nat,
)
    requires
        asked_at < t <= ticks.len(),
        requested(ticks[asked_at as int].closed).contains(window),
        forall|k: int| asked_at <= k < t ==> (#[trigger] ticks[k]).tokens.not_yet_safe(window),
    ensures
        waiting_after(start, ticks, t).contains(window),
    decreases t,
{
    if t - 1 > asked_at {
        lemma_waits_until(start, ticks, window, asked_at, (t - 1) as nat);
    }
    assert(ticks[t - 1].tokens.not_yet_safe(window));
}

/// Some tick before the `n`th put the window off, and no tick after that one
/// and before the `n`th found it safe to close.
pub open spec fn put_off_and_not_released(ticks: Seq<Tick>, window: Entity, n: nat) -> bool {
    exists|asked: int|
        0 <= asked < n && deferred((#[trigger] ticks[asked]).tokens, ticks[asked].closed).contains(
            window,
        ) && forall|t: int| asked < t < n ==> !(#[trigger] ticks[t]).tokens.safe_to_close(window)
}

/// Where nothing waited before the first tick, a window waits exactly when a
/// close was asked for it while it was not yet safe to close, and no look at
/// it since has found it safe to close.
pub proof fn lemma_waits_exactly_when_put_off(ticks: Seq<Tick>, window: Entity, n: nat)
    requires
        n <= ticks.len(),
    ensures
        waiting_after(Set::empty(), ticks, n).contains(window) <==> put_off_and_not_released(
            ticks,
            window,
            n,
        ),
    decreases n,
{
    if n > 0 {
        let before = (n - 1) as nat;
        let tick = ticks[n - 1];
        lemma_waits_exactly_when_put_off(ticks, window, before);
        if waiting_after(Set::empty(), ticks, n).contains(window) {
            // Either this tick put the window off, or an earlier one did and
            // this tick did not find it safe to close.
            assert(!tick.tokens.safe_to_close(window));
            assert(deferred(tick.tokens, tick.closed).contains(window)
                || put_off_and_not_released(ticks, window, before));
        }
        if put_off_and_not_released(ticks, window, n) {
            // The tick that put the window off is this one or an earlier one.
            assert(deferred(tick.tokens, tick.closed).contains(window)
                || put_off_and_not_released(ticks, window, before));
        }
    }
}

} // verus!
