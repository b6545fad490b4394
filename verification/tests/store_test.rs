use pkl_bindgen::store::Pkl;

#[test]
fn test_store_set_get_remove() {
    let mut p: Pkl<i64> = Pkl::new();
    assert_eq!(p.get("a"), None);
    assert_eq!(p.set("b", 2), None);
    assert_eq!(p.set("a", 1), None);
    assert_eq!(p.set("c", 3), None);
    assert_eq!(p.get("a"), Some(&1));
    assert_eq!(p.get("b"), Some(&2));
    assert_eq!(p.set("b", 20), Some(2));
    assert_eq!(p.get("b"), Some(&20));
    assert_eq!(p.remove("b"), Some(20));
    assert_eq!(p.get("b"), None);
    assert_eq!(p.remove("b"), None);
    assert_eq!(p.get("c"), Some(&3));
    assert_eq!(p.get("a"), Some(&1));
}

#[test]
fn test_store_names_are_exact() {
    let mut p: Pkl<String> = Pkl::new();
    p.set("name", "x".to_string());
    assert_eq!(p.get("nam"), None);
    assert_eq!(p.get("names"), None);
    assert_eq!(p.get("name").map(|s| s.as_str()), Some("x"));
}

#[test]
fn test_read_after_history_of_writes() {
    let mut p: Pkl<i64> = Pkl::new();
    p.set("a", 1);
    p.set("b", 2);
    p.remove("a");
    p.set("c", 3);
    assert_eq!(p.get("a"), None);
    assert_eq!(p.get("b"), Some(&2));
    p.set("a", 4);
    p.set("b", 5);
    p.remove("c");
    assert_eq!(p.get("a"), Some(&4));
    assert_eq!(p.get("b"), Some(&5));
    assert_eq!(p.get("c"), None);
    assert_eq!(p.get("d"), None);
}
