use window_lifecycle::{Entity, EntityRecord, EntityStore, SurfaceToken, Window};

fn record(bits: u64, focused: Option<bool>, primary: bool, safe: Option<bool>) -> EntityRecord {
    EntityRecord {
        entity: Entity::from_bits(bits),
        window: focused.map(|focused| Window { focused }),
        primary,
        token: safe.map(|safe_to_close| SurfaceToken { safe_to_close }),
    }
}

#[test]
fn entity_keeps_its_bits() {
    for bits in [0, 1, 42, 1 << 32, u64::MAX] {
        assert_eq!(Entity::from_bits(bits).to_bits(), bits);
        assert_eq!(Entity::from_bits(bits), Entity { bits });
    }
    assert_ne!(Entity::from_bits(1), Entity::from_bits(2));
}

#[test]
fn surface_token_reports_what_it_holds() {
    assert!(SurfaceToken { safe_to_close: true }.is_safe_to_close_window());
    assert!(!SurfaceToken { safe_to_close: false }.is_safe_to_close_window());
}

#[test]
fn new_store_holds_nothing() {
    let store = EntityStore::new();
    assert_eq!(store.len(), 0);
    assert!(store.records().is_empty());
    assert_eq!(store.get(Entity::from_bits(0)), None);
    assert_eq!(store.token(Entity::from_bits(0)), None);
    assert!(!store.is_safe_to_close(Entity::from_bits(0)));
}

#[test]
fn default_store_holds_nothing() {
    let store = EntityStore::default();
    assert_eq!(store.len(), 0);
    assert_eq!(store.get(Entity::from_bits(3)), None);
}

#[test]
fn insert_adds_records_in_order() {
    let mut store = EntityStore::new();
    let first = record(5, Some(true), true, Some(false));
    let second = record(2, None, false, None);
    assert!(store.insert(first));
    assert!(store.insert(second));
    assert_eq!(store.len(), 2);
    assert_eq!(store.records(), &vec![first, second]);
}

#[test]
fn insert_refuses_an_entity_twice() {
    let mut store = EntityStore::new();
    let first = record(5, Some(true), true, Some(false));
    assert!(store.insert(first));
    assert!(!store.insert(record(5, None, false, Some(true))));
    assert_eq!(store.len(), 1);
    assert_eq!(store.get(Entity::from_bits(5)), Some(first));
}

#[test]
fn get_finds_the_record_of_the_entity() {
    let mut store = EntityStore::new();
    let records = [
        record(5, Some(true), true, Some(false)),
        record(2, None, false, None),
        record(9, Some(false), false, Some(true)),
    ];
    for entry in records {
        assert!(store.insert(entry));
    }
    assert_eq!(store.get(Entity::from_bits(5)), Some(records[0]));
    assert_eq!(store.get(Entity::from_bits(2)), Some(records[1]));
    assert_eq!(store.get(Entity::from_bits(9)), Some(records[2]));
    assert_eq!(store.get(Entity::from_bits(7)), None);
}

#[test]
fn token_is_that_of_the_entity() {
    let mut store = EntityStore::new();
    assert!(store.insert(record(5, Some(true), true, Some(false))));
    assert!(store.insert(record(2, Some(true), false, None)));
    assert!(store.insert(record(9, None, false, Some(true))));
    assert_eq!(store.token(Entity::from_bits(5)), Some(SurfaceToken { safe_to_close: false }));
    assert_eq!(store.token(Entity::from_bits(2)), None);
    assert_eq!(store.token(Entity::from_bits(9)), Some(SurfaceToken { safe_to_close: true }));
    assert_eq!(store.token(Entity::from_bits(7)), None);
}

#[test]
fn safe_to_close_needs_a_token_that_says_so() {
    let mut store = EntityStore::new();
    assert!(store.insert(record(5, Some(true), true, Some(false))));
    assert!(store.insert(record(2, Some(true), false, None)));
    assert!(store.insert(record(9, Some(true), false, Some(true))));
    assert!(!store.is_safe_to_close(Entity::from_bits(5)));
    assert!(!store.is_safe_to_close(Entity::from_bits(2)));
    assert!(store.is_safe_to_close(Entity::from_bits(9)));
    assert!(!store.is_safe_to_close(Entity::from_bits(7)));
}
