use window_lifecycle::{
    close_when_requested, Command, Entity, EntityRecord, EntityStore, PendingCloses, SurfaceToken,
    Window, WindowCloseRequested,
};

fn entity(bits: u64) -> Entity {
    Entity::from_bits(bits)
}

fn request(bits: u64) -> WindowCloseRequested {
    WindowCloseRequested { window: entity(bits) }
}

fn window_with_token(bits: u64, safe_to_close: bool) -> EntityRecord {
    EntityRecord {
        entity: entity(bits),
        window: Some(Window { focused: false }),
        primary: false,
        token: Some(SurfaceToken { safe_to_close }),
    }
}

fn window_without_token(bits: u64) -> EntityRecord {
    EntityRecord {
        entity: entity(bits),
        window: Some(Window { focused: false }),
        primary: false,
        token: None,
    }
}

fn store_of(records: &[EntityRecord]) -> EntityStore {
    let mut store = EntityStore::new();
    for record in records {
        assert!(store.insert(*record));
    }
    store
}

fn sorted_bits(waiting: &PendingCloses) -> Vec<u64> {
    let mut bits: Vec<u64> = waiting.entities().iter().map(|entity| entity.to_bits()).collect();
    bits.sort();
    bits
}

#[test]
fn safe_window_is_despawned_at_once() {
    let store = store_of(&[window_with_token(7, true)]);
    let mut commands = Vec::new();
    let mut waiting = PendingCloses::new();
    close_when_requested(&mut commands, &store, &vec![request(7)], &mut waiting);
    assert_eq!(commands, vec![Command::Despawn(entity(7))]);
    assert_eq!(waiting.len(), 0);
    assert!(!waiting.contains(entity(7)));
}

#[test]
fn window_that_is_not_yet_safe_is_put_off() {
    let store = store_of(&[window_with_token(7, false)]);
    let mut commands = Vec::new();
    let mut waiting = PendingCloses::new();
    close_when_requested(&mut commands, &store, &vec![request(7)], &mut waiting);
    assert_eq!(commands, Vec::<Command>::new());
    assert_eq!(waiting.len(), 1);
    assert!(waiting.contains(entity(7)));
}

#[test]
fn request_without_token_is_dropped() {
    let store = store_of(&[window_without_token(7), window_with_token(8, false)]);
    let mut commands = Vec::new();
    let mut waiting = PendingCloses::new();
    close_when_requested(&mut commands, &store, &vec![request(7)], &mut waiting);
    assert_eq!(commands, Vec::<Command>::new());
    assert_eq!(waiting.len(), 0);
    assert!(!waiting.contains(entity(7)));
}

#[test]
fn request_for_unknown_entity_is_dropped() {
    let store = store_of(&[window_with_token(8, true)]);
    let mut commands = Vec::new();
    let mut waiting = PendingCloses::new();
    close_when_requested(&mut commands, &store, &vec![request(99)], &mut waiting);
    assert_eq!(commands, Vec::<Command>::new());
    assert_eq!(waiting.len(), 0);
}

#[test]
fn request_without_token_leaves_other_requests_alone() {
    let store = store_of(&[
        window_with_token(1, true),
        window_without_token(2),
        window_with_token(3, false),
    ]);
    let mut with_it = Vec::new();
    let mut waiting_with_it = PendingCloses::new();
    close_when_requested(
        &mut with_it,
        &store,
        &vec![request(1), request(2), request(3)],
        &mut waiting_with_it,
    );
    let mut without_it = Vec::new();
    let mut waiting_without_it = PendingCloses::new();
    close_when_requested(
        &mut without_it,
        &store,
        &vec![request(1), request(3)],
        &mut waiting_without_it,
    );
    assert_eq!(with_it, without_it);
    assert_eq!(with_it, vec![Command::Despawn(entity(1))]);
    assert_eq!(sorted_bits(&waiting_with_it), vec![3]);
    assert_eq!(sorted_bits(&waiting_without_it), vec![3]);
}

#[test]
fn repeated_requests_in_one_tick_wait_once() {
    let store = store_of(&[window_with_token(7, false)]);
    for count in 1..20 {
        let mut commands = Vec::new();
        let mut waiting = PendingCloses::new();
        let closed: Vec<WindowCloseRequested> = (0..count).map(|_| request(7)).collect();
        close_when_requested(&mut commands, &store, &closed, &mut waiting);
        assert_eq!(commands, Vec::<Command>::new());
        assert_eq!(waiting.len(), 1);
        assert_eq!(sorted_bits(&waiting), vec![7]);
    }
}

#[test]
fn repeated_requests_over_ticks_wait_once() {
    let store = store_of(&[window_with_token(7, false)]);
    let mut waiting = PendingCloses::new();
    for _ in 0..12 {
        let mut commands = Vec::new();
        close_when_requested(&mut commands, &store, &vec![request(7), request(7)], &mut waiting);
        assert_eq!(commands, Vec::<Command>::new());
        assert_eq!(waiting.len(), 1);
        assert!(waiting.contains(entity(7)));
    }
}

#[test]
fn repeated_requests_for_safe_window_despawn_once_each() {
    let store = store_of(&[window_with_token(7, true)]);
    let mut commands = Vec::new();
    let mut waiting = PendingCloses::new();
    close_when_requested(&mut commands, &store, &vec![request(7), request(7)], &mut waiting);
    assert_eq!(commands, vec![Command::Despawn(entity(7)), Command::Despawn(entity(7))]);
    assert_eq!(waiting.len(), 0);
}

#[test]
fn requests_are_answered_in_their_order() {
    let store = store_of(&[
        window_with_token(1, true),
        window_with_token(2, false),
        window_with_token(3, true),
        window_with_token(4, false),
    ]);
    let mut commands = vec![Command::InsertSurfaceToken(entity(50))];
    let mut waiting = PendingCloses::new();
    close_when_requested(
        &mut commands,
        &store,
        &vec![request(3), request(4), request(1), request(2)],
        &mut waiting,
    );
    assert_eq!(
        commands,
        vec![
            Command::InsertSurfaceToken(entity(50)),
            Command::Despawn(entity(3)),
            Command::Despawn(entity(1)),
        ]
    );
    assert_eq!(sorted_bits(&waiting), vec![2, 4]);
}

#[test]
fn waiting_window_is_released_once_safe() {
    let mut waiting = PendingCloses::new();
    let mut commands = Vec::new();
    let not_yet = store_of(&[window_with_token(7, false)]);
    close_when_requested(&mut commands, &not_yet, &vec![request(7)], &mut waiting);
    assert_eq!(commands, Vec::<Command>::new());
    assert!(waiting.contains(entity(7)));

    let now_safe = store_of(&[window_with_token(7, true)]);
    close_when_requested(&mut commands, &now_safe, &Vec::new(), &mut waiting);
    assert_eq!(commands, vec![Command::Despawn(entity(7))]);
    assert!(!waiting.contains(entity(7)));
    assert_eq!(waiting.len(), 0);
}

#[test]
fn window_is_released_in_the_tick_its_token_turns_safe() {
    for safe_tick in 0..6 {
        for asked_tick in 0..=safe_tick {
            let mut waiting = PendingCloses::new();
            for tick in 0..=safe_tick + 2 {
                let store = store_of(&[window_with_token(7, tick >= safe_tick)]);
                let closed = if tick == asked_tick { vec![request(7)] } else { Vec::new() };
                let mut commands = Vec::new();
                close_when_requested(&mut commands, &store, &closed, &mut waiting);
                if tick == safe_tick {
                    assert_eq!(commands, vec![Command::Despawn(entity(7))]);
                } else {
                    assert_eq!(commands, Vec::<Command>::new());
                }
                let waits = asked_tick <= tick && tick < safe_tick;
                assert_eq!(waiting.contains(entity(7)), waits);
                assert_eq!(waiting.len(), if waits { 1 } else { 0 });
            }
        }
    }
}

#[test]
fn request_after_the_token_turned_safe_is_honoured_at_once() {
    let mut waiting = PendingCloses::new();
    let mut commands = Vec::new();
    let store = store_of(&[window_with_token(7, true)]);
    close_when_requested(&mut commands, &store, &Vec::new(), &mut waiting);
    assert_eq!(commands, Vec::<Command>::new());
    close_when_requested(&mut commands, &store, &vec![request(7)], &mut waiting);
    assert_eq!(commands, vec![Command::Despawn(entity(7))]);
    assert_eq!(waiting.len(), 0);
}

#[test]
fn window_that_is_never_safe_is_never_despawned() {
    let store = store_of(&[window_with_token(7, false), window_with_token(8, true)]);
    let mut waiting = PendingCloses::new();
    for tick in 0..200 {
        let closed = if tick % 3 == 0 { vec![request(7)] } else { Vec::new() };
        let mut commands = Vec::new();
        close_when_requested(&mut commands, &store, &closed, &mut waiting);
        assert_eq!(commands, Vec::<Command>::new());
        assert_eq!(sorted_bits(&waiting), vec![7]);
    }
}

#[test]
fn waiting_window_whose_entity_vanished_stays_waiting() {
    let mut waiting = PendingCloses::new();
    let mut commands = Vec::new();
    let store = store_of(&[window_with_token(7, false)]);
    close_when_requested(&mut commands, &store, &vec![request(7)], &mut waiting);
    assert!(waiting.contains(entity(7)));

    let without_it = store_of(&[window_with_token(8, true)]);
    for _ in 0..5 {
        close_when_requested(&mut commands, &without_it, &Vec::new(), &mut waiting);
        assert_eq!(commands, Vec::<Command>::new());
        assert_eq!(sorted_bits(&waiting), vec![7]);
    }
}

#[test]
fn waiting_window_that_lost_its_token_stays_waiting() {
    let mut waiting = PendingCloses::new();
    let mut commands = Vec::new();
    let store = store_of(&[window_with_token(7, false)]);
    close_when_requested(&mut commands, &store, &vec![request(7)], &mut waiting);

    let tokenless = store_of(&[window_without_token(7)]);
    close_when_requested(&mut commands, &tokenless, &vec![request(7)], &mut waiting);
    assert_eq!(commands, Vec::<Command>::new());
    assert_eq!(sorted_bits(&waiting), vec![7]);
}

#[test]
fn waiting_window_that_is_asked_again_when_safe_is_despawned_by_both() {
    let mut waiting = PendingCloses::new();
    let mut commands = Vec::new();
    let store = store_of(&[window_with_token(7, false)]);
    close_when_requested(&mut commands, &store, &vec![request(7)], &mut waiting);

    let now_safe = store_of(&[window_with_token(7, true)]);
    close_when_requested(&mut commands, &now_safe, &vec![request(7)], &mut waiting);
    assert_eq!(commands, vec![Command::Despawn(entity(7)), Command::Despawn(entity(7))]);
    assert_eq!(waiting.len(), 0);
}

#[test]
fn run_without_requests_and_without_waiting_does_nothing() {
    let store = store_of(&[window_with_token(1, true), window_with_token(2, false)]);
    let mut waiting = PendingCloses::new();
    let mut commands = vec![Command::Despawn(entity(40))];
    close_when_requested(&mut commands, &store, &Vec::new(), &mut waiting);
    assert_eq!(commands, vec![Command::Despawn(entity(40))]);
    assert_eq!(waiting.len(), 0);
}

#[test]
fn only_the_safe_among_the_waiting_are_released() {
    let all_unsafe = store_of(&[
        window_with_token(1, false),
        window_with_token(2, false),
        window_with_token(3, false),
        window_with_token(4, false),
    ]);
    let mut waiting = PendingCloses::new();
    let mut commands = Vec::new();
    close_when_requested(
        &mut commands,
        &all_unsafe,
        &vec![request(1), request(2), request(3), request(4)],
        &mut waiting,
    );
    assert_eq!(sorted_bits(&waiting), vec![1, 2, 3, 4]);

    let some_safe = store_of(&[
        window_with_token(1, false),
        window_with_token(2, true),
        window_with_token(3, false),
        window_with_token(4, true),
    ]);
    close_when_requested(&mut commands, &some_safe, &Vec::new(), &mut waiting);
    let mut despawned: Vec<u64> = commands
        .iter()
        .map(|command| match command {
            Command::Despawn(entity) => entity.to_bits(),
            Command::InsertSurfaceToken(_) => panic!("no token is inserted here"),
        })
        .collect();
    despawned.sort();
    assert_eq!(despawned, vec![2, 4]);
    assert_eq!(sorted_bits(&waiting), vec![1, 3]);
}

#[test]
fn two_coordinators_do_not_share_their_waiting_windows() {
    let store = store_of(&[window_with_token(7, false)]);
    let mut first = PendingCloses::new();
    let mut second = PendingCloses::new();
    let mut commands = Vec::new();
    close_when_requested(&mut commands, &store, &vec![request(7)], &mut first);
    close_when_requested(&mut commands, &store, &Vec::new(), &mut second);
    assert!(first.contains(entity(7)));
    assert!(!second.contains(entity(7)));
}
