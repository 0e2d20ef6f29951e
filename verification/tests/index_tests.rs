use kdl_bind::index::{LevelIndex, LevelRef};

fn s(x: &str) -> String {
    x.to_string()
}

fn level(name: &str, display: &str, path: &str) -> LevelRef {
    LevelRef { name: s(name), display: s(display), path: s(path) }
}

#[test]
fn order_lists_names_in_index_order() {
    let index = LevelIndex::new(vec![
        level("one", "Level One", "levels/one.level.kdl"),
        level("two", "Level Two", "levels/two.level.kdl"),
    ]);
    assert_eq!(index.order(), vec![s("one"), s("two")]);
}

#[test]
fn lookup_finds_an_entry_by_name() {
    let index = LevelIndex::new(vec![
        level("one", "Level One", "levels/one.level.kdl"),
        level("two", "Level Two", "levels/two.level.kdl"),
    ]);
    let found = index.get(&s("two")).expect("entry exists");
    assert_eq!(found.display, "Level Two");
    assert_eq!(found.path, "levels/two.level.kdl");
    assert!(index.get(&s("three")).is_none());
}

#[test]
fn a_later_entry_replaces_an_earlier_one_of_the_same_name() {
    let index = LevelIndex::new(vec![
        level("one", "Old", "levels/old.level.kdl"),
        level("one", "New", "levels/new.level.kdl"),
    ]);
    let found = index.get(&s("one")).expect("entry exists");
    assert_eq!(found.display, "New");
    // the order still lists both occurrences
    assert_eq!(index.order(), vec![s("one"), s("one")]);
}
