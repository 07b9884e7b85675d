use remotemob::session::drivers::Drivers;

#[test]
fn insert_at_end() {
    let drivers = Drivers::new(vec!["a".to_string(), "b".to_string()]);
    let driver_added = drivers.insert(Some("b".to_string()), "c");
    assert_eq!(
        driver_added.all(),
        vec!["a".to_string(), "b".to_string(), "c".to_string()]
    );
}

#[test]
fn insert_in_middle() {
    let drivers = Drivers::new(vec!["a".to_string(), "b".to_string()]);
    let driver_added = drivers.insert(Some("a".to_string()), "c");
    assert_eq!(
        driver_added.all(),
        vec!["a".to_string(), "c".to_string(), "b".to_string()]
    );
}

#[test]
fn remove() {
    let drivers = Drivers::new(vec!["a".to_string(), "b".to_string(), "c".to_string()]);
    let driver_removed = drivers.remove("c");
    assert_eq!(driver_removed.all(), vec!["a".to_string(), "b".to_string()]);
}

#[test]
fn remove_middle() {
    let drivers = Drivers::new(vec!["a".to_string(), "b".to_string(), "c".to_string()]);
    let driver_removed = drivers.remove("b");
    assert_eq!(driver_removed.all(), vec!["a".to_string(), "c".to_string()]);
}

#[test]
fn no_next_below_two_members() {
    let empty: Vec<String> = Vec::new();
    let empty = Drivers::new(empty);
    assert_eq!(empty.next("a"), None);
    assert_eq!(empty.prev("a"), None);
    let solo = Drivers::new(vec!["a".to_string()]);
    assert_eq!(solo.next("a"), None);
    assert_eq!(solo.prev("a"), None);
}

#[test]
fn full_rotation_cycles_back() {
    let drivers = Drivers::new(vec!["a".to_string(), "b".to_string(), "c".to_string()]);
    let mut current = "b".to_string();
    let mut seen = Vec::new();
    for _ in 0..3 {
        current = drivers.next(&current).unwrap();
        seen.push(current.clone());
    }
    assert_eq!(current, "b");
    assert_eq!(seen, vec!["c".to_string(), "a".to_string(), "b".to_string()]);
}

#[test]
fn prev_wraps_around() {
    let drivers = Drivers::new(vec!["a".to_string(), "b".to_string(), "c".to_string()]);
    assert_eq!(drivers.prev("a"), Some("c".to_string()));
    assert_eq!(drivers.prev("c"), Some("b".to_string()));
}

#[test]
fn insert_is_idempotent() {
    let drivers = Drivers::new(vec!["a".to_string(), "b".to_string()]);
    let unchanged = drivers.insert(None, "b");
    assert_eq!(unchanged.all(), vec!["a".to_string(), "b".to_string()]);
    let unchanged = unchanged.insert(Some("a".to_string()), "b");
    assert_eq!(unchanged.all(), vec!["a".to_string(), "b".to_string()]);
}

#[test]
fn insert_after_absent_appends() {
    let drivers = Drivers::new(vec!["a".to_string(), "b".to_string()]);
    let added = drivers.insert(Some("zz".to_string()), "c");
    assert_eq!(
        added.all(),
        vec!["a".to_string(), "b".to_string(), "c".to_string()]
    );
    let added = added.insert(None, "d");
    assert_eq!(
        added.all(),
        vec![
            "a".to_string(),
            "b".to_string(),
            "c".to_string(),
            "d".to_string()
        ]
    );
}

#[test]
fn remove_then_insert_relocates_to_end() {
    let drivers = Drivers::new(vec!["a".to_string(), "b".to_string(), "c".to_string()]);
    let rejoined = drivers.remove("a").insert(None, "a");
    assert!(rejoined.contains("a"));
    assert_eq!(
        rejoined.all(),
        vec!["b".to_string(), "c".to_string(), "a".to_string()]
    );
}

#[test]
fn contains_members_only() {
    let drivers = Drivers::new(vec!["a".to_string(), "b".to_string()]);
    assert!(drivers.contains("a"));
    assert!(drivers.contains("b"));
    assert!(!drivers.contains("c"));
    assert!(!drivers.contains(""));
}
