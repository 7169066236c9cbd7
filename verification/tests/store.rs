use turn_scheduler::store::{Entity, Store};

#[test]
fn a_new_store_holds_nothing() {
    let store: Store<u8> = Store::new();
    assert_eq!(store.bound(), 0);
    assert!(!store.contains(Entity::from_raw(0)));
    assert!(store.get(Entity::from_raw(7)).is_none());
}

#[test]
fn insert_attaches_and_replaces() {
    let mut store: Store<char> = Store::new();
    let e = Entity::from_raw(3);
    assert_eq!(store.insert(e, 'a'), None);
    assert!(store.contains(e));
    assert_eq!(store.get(e), Some(&'a'));
    assert_eq!(store.insert(e, 'b'), Some('a'));
    assert_eq!(store.get(e), Some(&'b'));
    assert!(!store.contains(Entity::from_raw(2)));
    assert!(!store.contains(Entity::from_raw(4)));
    assert!(store.bound() >= 4);
}

#[test]
fn remove_detaches_once() {
    let mut store: Store<u32> = Store::new();
    let e = Entity::from_raw(1);
    let other = Entity::from_raw(0);
    store.insert(e, 10);
    store.insert(other, 20);
    assert_eq!(store.remove(e), Some(10));
    assert_eq!(store.remove(e), None);
    assert!(!store.contains(e));
    assert_eq!(store.get(other), Some(&20));
    assert_eq!(store.remove(Entity::from_raw(99)), None);
}

#[test]
fn entities_are_equal_by_identifier() {
    assert_eq!(Entity::from_raw(5), Entity { id: 5 });
    assert_ne!(Entity::from_raw(5), Entity::from_raw(6));
}
