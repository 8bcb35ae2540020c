use resource_cache::class_cache::{list_contains, ResourceClassCache};

fn filled() -> ResourceClassCache<u32, String, ()> {
    let mut cache = ResourceClassCache::new();
    cache.insert(3, String::from("three"));
    cache.insert(1, String::from("one"));
    cache.insert(2, String::from("two"));
    cache
}

#[test]
fn new_store_is_empty() {
    let cache: ResourceClassCache<u32, String, u8> = ResourceClassCache::new();
    assert!(cache.is_empty());
    assert_eq!(cache.len(), 0);
    assert_eq!(cache.user_data, 0);
    assert_eq!(cache.try_get(&1), None);
    assert!(!cache.contains_key(&1));
}

#[test]
fn inserted_values_are_found_under_their_keys() {
    let cache = filled();
    assert!(!cache.is_empty());
    assert_eq!(cache.len(), 3);
    assert_eq!(cache.get(&1), "one");
    assert_eq!(cache.try_get(&2), Some(&String::from("two")));
    assert_eq!(cache.try_get(&4), None);
    assert!(cache.contains_key(&3));
    // The keys come in the order in which they came in.
    assert_eq!(cache.key_at(0), 3);
    assert_eq!(cache.key_at(1), 1);
    assert_eq!(cache.key_at(2), 2);
    assert_eq!(cache.value_at(1), "one");
}

#[test]
fn inserting_under_a_known_key_replaces_the_value_in_place() {
    let mut cache = filled();
    cache.insert(1, String::from("uno"));
    assert_eq!(cache.len(), 3);
    assert_eq!(cache.get(&1), "uno");
    assert_eq!(cache.key_at(1), 1);
}

#[test]
fn removing_keeps_the_order_of_the_others() {
    let mut cache = filled();
    assert_eq!(cache.remove(&1), Some(String::from("one")));
    assert_eq!(cache.remove(&1), None);
    assert_eq!(cache.len(), 2);
    assert_eq!(cache.key_at(0), 3);
    assert_eq!(cache.key_at(1), 2);
    assert_eq!(cache.get(&2), "two");
    assert_eq!(cache.try_get(&1), None);
}

#[test]
fn values_are_changed_in_place() {
    let mut cache = filled();
    cache.get_mut(&2).push_str("!");
    assert_eq!(cache.get(&2), "two!");
    if let Some(value) = cache.try_get_mut(&3) {
        value.clear();
    }
    assert_eq!(cache.get(&3), "");
    assert!(cache.try_get_mut(&9).is_none());
    *cache.value_at_mut(0) = String::from("first");
    assert_eq!(cache.get(&3), "first");
    assert_eq!(cache.get(&1), "one");
}

#[test]
fn marked_entries_are_retained() {
    let mut cache = filled();
    let removed = cache.retain_marked(&vec![true, false, true]);
    assert_eq!(removed, vec![String::from("one")]);
    assert_eq!(cache.len(), 2);
    assert_eq!(cache.key_at(0), 3);
    assert_eq!(cache.key_at(1), 2);
    assert_eq!(cache.get(&3), "three");
    let removed = cache.retain_marked(&vec![false, false]);
    assert_eq!(removed, vec![String::from("three"), String::from("two")]);
    assert!(cache.is_empty());
    assert!(cache.retain_marked(&Vec::new()).is_empty());
}

#[test]
fn cleared_store_is_empty() {
    let mut cache = filled();
    cache.clear();
    assert!(cache.is_empty());
    assert_eq!(cache.try_get(&1), None);
    cache.insert(1, String::from("again"));
    assert_eq!(cache.key_at(0), 1);
}

#[test]
fn list_contains_finds_keys() {
    assert!(list_contains(&[1u32, 5, 7], &5));
    assert!(!list_contains(&[1u32, 5, 7], &6));
    assert!(!list_contains::<u64>(&[], &6));
}
