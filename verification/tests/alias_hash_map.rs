use mkutils::alias_hash_map::AliasHashMap;

#[test]
fn values_are_found_through_aliases() {
    let mut map = AliasHashMap::new();

    map.insert(1, "one");
    map.insert_alias(2, 1);
    map.insert_alias(3, 2);

    assert_eq!(map.get(&1), Some(&"one"));
    assert_eq!(map.get(&2), Some(&"one"));
    assert_eq!(map.get(&3), Some(&"one"));
    assert_eq!(map.get(&4), None);
}

#[test]
fn an_alias_to_a_missing_key_finds_nothing() {
    let mut map: AliasHashMap<u8> = AliasHashMap::default();

    map.insert_alias(1, 9);
    assert_eq!(map.get(&1), None);
}

#[test]
fn aliases_in_a_circle_find_nothing() {
    let mut map = AliasHashMap::new();

    map.insert_alias(1, 2);
    map.insert_alias(2, 3);
    map.insert_alias(3, 1);
    map.insert(4, 40);
    map.insert_alias(5, 5);

    assert_eq!(map.get(&1), None);
    assert_eq!(map.get(&3), None);
    assert_eq!(map.get(&5), None);
    assert_eq!(map.get(&4), Some(&40));
}

#[test]
fn inserting_replaces_an_alias_and_an_alias_replaces_a_value() {
    let mut map = AliasHashMap::new();

    map.insert(1, 10);
    map.insert_alias(2, 1);
    map.insert(2, 20);
    assert_eq!(map.get(&2), Some(&20));

    map.insert_alias(1, 2);
    assert_eq!(map.get(&1), Some(&20));
}

#[test]
fn values_lists_each_held_value() {
    let mut map = AliasHashMap::new();

    map.insert(1, 10);
    map.insert(2, 20);
    map.insert_alias(3, 1);

    let mut values: Vec<i32> = map.values().into_iter().copied().collect();
    values.sort();
    assert_eq!(values, vec![10, 20]);
}
