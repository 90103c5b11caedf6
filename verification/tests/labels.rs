use cyber_dungeon::game::labels::LabelMap;

#[test]
fn new_label_map_is_empty() {
    let map: LabelMap<usize> = LabelMap::new();
    assert_eq!(map.len(), 0);
    assert_eq!(map.get("north"), None);
    assert!(!map.contains_key("north"));
    assert_eq!(map.keys(), Vec::<String>::new());
}

#[test]
fn insert_then_get_finds_the_value() {
    let mut map: LabelMap<usize> = LabelMap::new();
    map.insert("north".to_string(), 1);
    map.insert("south".to_string(), 0);
    assert_eq!(map.len(), 2);
    assert_eq!(map.get("north"), Some(&1));
    assert_eq!(map.get("south"), Some(&0));
    assert_eq!(map.get("east"), None);
    assert_eq!(map.get("North"), None);
    assert!(map.contains_key("south"));
}

#[test]
fn insert_under_a_known_label_replaces_in_place() {
    let mut map: LabelMap<usize> = LabelMap::new();
    map.insert("north".to_string(), 1);
    map.insert("south".to_string(), 0);
    map.insert("north".to_string(), 7);
    assert_eq!(map.len(), 2);
    assert_eq!(map.get("north"), Some(&7));
    assert_eq!(map.get("south"), Some(&0));
    assert_eq!(map.keys(), vec!["north".to_string(), "south".to_string()]);
    assert_eq!(*map.value_at(0), 7);
    assert_eq!(*map.value_at(1), 0);
}

#[test]
fn keys_come_in_the_order_they_were_stored() {
    let mut map: LabelMap<bool> = LabelMap::new();
    map.insert("c".to_string(), true);
    map.insert("a".to_string(), false);
    map.insert("b".to_string(), true);
    assert_eq!(map.keys(), vec!["c".to_string(), "a".to_string(), "b".to_string()]);
}

#[test]
fn clone_keeps_labels_values_and_order() {
    let mut map: LabelMap<usize> = LabelMap::new();
    map.insert("b".to_string(), 2);
    map.insert("a".to_string(), 1);
    let copy = map.clone();
    map.insert("a".to_string(), 9);
    assert_eq!(copy.keys(), vec!["b".to_string(), "a".to_string()]);
    assert_eq!(copy.get("a"), Some(&1));
    assert_eq!(copy.get("b"), Some(&2));
    assert_eq!(map.get("a"), Some(&9));
}
