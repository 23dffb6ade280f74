use dmart::collections::{IndexedMap, IndexedSet};

fn s(x: &str) -> String {
    x.to_string()
}

#[test]
fn set_insert_reports_new_members() {
    let mut set = IndexedSet::new();
    assert!(set.insert(s("a")));
    assert!(set.insert(s("b")));
    assert!(!set.insert(s("a")));
    assert_eq!(set.len(), 2);
    assert!(set.contains(&s("a")));
    assert!(!set.contains(&s("c")));
    assert_eq!(set.to_vec(), vec![s("a"), s("b")]);
}

#[test]
fn set_remove_moves_last_member_into_the_gap() {
    let mut set = IndexedSet::new();
    for x in ["a", "b", "c", "d"] {
        set.insert(s(x));
    }
    assert!(set.remove(&s("b")));
    assert_eq!(set.to_vec(), vec![s("a"), s("d"), s("c")]);
    assert!(!set.remove(&s("b")));
    assert!(set.remove(&s("c")));
    assert_eq!(set.to_vec(), vec![s("a"), s("d")]);
    assert_eq!(set.get(1), &s("d"));
}

#[test]
fn set_duplicate_keeps_order() {
    let mut set = IndexedSet::new();
    set.insert(s("x"));
    set.insert(s("y"));
    let copy = set.duplicate();
    assert_eq!(copy.to_vec(), set.to_vec());
}

#[test]
fn map_read_after_write() {
    let mut m: IndexedMap<u32> = IndexedMap::new();
    assert_eq!(m.insert(s("k"), 1), None);
    assert_eq!(m.get(&s("k")), Some(&1));
    assert_eq!(m.insert(s("k"), 2), Some(1));
    assert_eq!(m.get(&s("k")), Some(&2));
    assert_eq!(m.get(&s("other")), None);
    assert_eq!(m.len(), 1);
}

#[test]
fn map_existing_key_keeps_its_place() {
    let mut m: IndexedMap<u32> = IndexedMap::new();
    m.insert(s("a"), 1);
    m.insert(s("b"), 2);
    m.insert(s("a"), 3);
    assert_eq!(m.key_at(0), &s("a"));
    assert_eq!(m.value_at(0), &3);
    assert_eq!(m.key_at(1), &s("b"));
}

#[test]
fn map_remove_swaps_in_last_entry() {
    let mut m: IndexedMap<u32> = IndexedMap::new();
    m.insert(s("a"), 1);
    m.insert(s("b"), 2);
    m.insert(s("c"), 3);
    assert_eq!(m.remove(&s("a")), Some(1));
    assert_eq!(m.len(), 2);
    assert_eq!(m.key_at(0), &s("c"));
    assert_eq!(m.value_at(0), &3);
    assert_eq!(m.key_at(1), &s("b"));
    assert_eq!(m.remove(&s("a")), None);
    assert!(!m.contains_key(&s("a")));
    assert!(m.contains_key(&s("b")));
}

#[test]
fn map_remove_of_only_entry_empties_it() {
    let mut m: IndexedMap<u32> = IndexedMap::new();
    m.insert(s("a"), 1);
    assert_eq!(m.remove(&s("a")), Some(1));
    assert_eq!(m.len(), 0);
}
