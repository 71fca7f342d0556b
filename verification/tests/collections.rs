use tagref::collections::{position, LabelMap, LabelSet};

#[test]
fn a_set_holds_each_label_once() {
    let mut set = LabelSet::new();
    assert!(set.is_empty());
    assert_eq!(set.len(), 0);
    assert!(!set.contains("a"));
    assert!(set.insert("a".to_owned()));
    assert!(set.insert("A".to_owned()));
    assert!(!set.insert("a".to_owned()));
    assert_eq!(set.len(), 2);
    assert!(!set.is_empty());
    assert!(set.contains("a"));
    assert!(set.contains("A"));
    assert!(!set.contains("b"));
    assert!(!set.contains(""));
}

#[test]
fn position_finds_the_first_place() {
    let labels = vec!["x".to_owned(), "y".to_owned(), "x".to_owned()];
    assert_eq!(position(&labels, "x"), Some(0));
    assert_eq!(position(&labels, "y"), Some(1));
    assert_eq!(position(&labels, "z"), None);
    assert_eq!(position(&Vec::new(), "x"), None);
}

#[test]
fn a_map_keeps_one_value_for_each_label() {
    let mut map: LabelMap<u32> = LabelMap::new();
    assert!(map.is_empty());
    assert_eq!(map.insert("one".to_owned(), 1), None);
    assert_eq!(map.insert("two".to_owned(), 2), None);
    assert_eq!(map.insert("three".to_owned(), 3), None);
    assert_eq!(map.len(), 3);
    assert_eq!(map.insert("two".to_owned(), 22), Some(2));
    assert_eq!(map.len(), 3);
    assert_eq!(map.get("one"), Some(&1));
    assert_eq!(map.get("two"), Some(&22));
    assert_eq!(map.get("three"), Some(&3));
    assert_eq!(map.get("Two"), None);
    assert!(map.contains_key("three"));
    assert!(!map.contains_key("four"));
    assert_eq!(map.index_of("one"), Some(0));
    assert_eq!(map.index_of("two"), Some(1));
    assert_eq!(map.index_of("three"), Some(2));
    assert_eq!(map.index_of("four"), None);
    assert_eq!(map.label_at(1), "two");
    assert_eq!(*map.value_at(1), 22);
}

#[test]
fn removing_keeps_the_order_of_the_rest() {
    let mut map: LabelMap<u32> = LabelMap::new();
    map.insert("a".to_owned(), 1);
    map.insert("b".to_owned(), 2);
    map.insert("c".to_owned(), 3);
    assert_eq!(map.remove("x"), None);
    assert_eq!(map.remove("a"), Some(1));
    assert_eq!(map.remove("a"), None);
    assert_eq!(map.len(), 2);
    assert_eq!(map.label_at(0), "b");
    assert_eq!(map.label_at(1), "c");
    assert_eq!(*map.value_at(0), 2);
    assert_eq!(*map.value_at(1), 3);
}

#[test]
fn adding_groups_items_by_label() {
    let mut map: LabelMap<Vec<u32>> = LabelMap::new();
    map.add("a".to_owned(), 1);
    map.add("b".to_owned(), 2);
    map.add("a".to_owned(), 3);
    map.add("c".to_owned(), 4);
    map.add("a".to_owned(), 5);
    assert_eq!(map.len(), 3);
    assert_eq!(map.get("a"), Some(&vec![1, 3, 5]));
    assert_eq!(map.get("b"), Some(&vec![2]));
    assert_eq!(map.get("c"), Some(&vec![4]));
    assert_eq!(map.label_at(0), "a");
    assert_eq!(map.label_at(1), "b");
    assert_eq!(map.label_at(2), "c");
}

#[test]
fn the_labels_of_a_map_make_a_set() {
    let mut map: LabelMap<u32> = LabelMap::new();
    map.insert("a".to_owned(), 1);
    map.insert("b".to_owned(), 2);
    let set = map.label_set();
    assert_eq!(set.len(), 2);
    assert!(set.contains("a"));
    assert!(set.contains("b"));
    assert!(!set.contains("c"));
}
