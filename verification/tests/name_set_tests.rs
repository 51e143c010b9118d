use multi_agent_backend::name_set::NameSet;

#[test]
fn name_set_inserts_once_and_keeps_order() {
    let mut set = NameSet::new();
    assert_eq!(set.len(), 0);
    assert!(set.insert("b"));
    assert!(set.insert("a"));
    assert!(!set.insert("b"));
    assert_eq!(set.len(), 2);
    assert_eq!(set.to_vec(), vec!["b", "a"]);
    assert_eq!(set.get(0), "b");
    assert_eq!(set.get(1), "a");
    assert_eq!(set.position("a"), Some(1));
    assert_eq!(set.position("c"), None);
    assert!(set.contains("a"));
    assert!(!set.contains("ab"));
    assert!(!set.contains(""));
}

#[test]
fn name_set_removes_only_the_named() {
    let mut set = NameSet::new();
    for name in ["x", "y", "z"] {
        set.insert(name);
    }
    assert!(set.remove("y"));
    assert!(!set.remove("y"));
    assert!(!set.remove("w"));
    assert_eq!(set.to_vec(), vec!["x", "z"]);
    assert!(set.remove("x"));
    assert!(set.remove("z"));
    assert_eq!(set.len(), 0);
    assert!(set.insert("y"));
    assert_eq!(set.to_vec(), vec!["y"]);
}
