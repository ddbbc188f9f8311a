use gallery::likes::LikeSet;

#[test]
fn toggle_twice_restores_membership() {
    let mut s = LikeSet::new();
    assert!(!s.contains("/p/a.png"));
    assert!(s.toggle("/p/a.png"));
    assert!(s.contains("/p/a.png"));
    assert!(!s.toggle("/p/a.png"));
    assert!(!s.contains("/p/a.png"));
    assert_eq!(s.len(), 0);
}

#[test]
fn toggle_leaves_other_paths_alone() {
    let mut s = LikeSet::from_paths(vec!["/p/a.png".to_string(), "/p/b.png".to_string()]);
    assert!(!s.toggle("/p/a.png"));
    assert!(s.contains("/p/b.png"));
    assert!(s.toggle("/p/c.png"));
    let mut v = s.to_vec();
    v.sort();
    assert_eq!(v, vec!["/p/b.png".to_string(), "/p/c.png".to_string()]);
}

#[test]
fn loading_drops_repeated_paths() {
    let s = LikeSet::from_paths(vec!["x".to_string(), "y".to_string(), "x".to_string()]);
    assert_eq!(s.len(), 2);
    assert_eq!(s.to_vec().len(), 2);
}
