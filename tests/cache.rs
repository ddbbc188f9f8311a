use gallery::cache::{join, needs_generation, reported_thumbnail, thumbnail_dir, thumbnail_path, thumbnail_path_for_source, ThumbnailRecord};
use std::collections::HashSet;

#[test]
fn thumbnail_folder_sits_in_the_folder() {
    assert_eq!(thumbnail_dir("/photos"), "/photos/miniatures");
    assert_eq!(thumbnail_dir("/photos/"), "/photos/miniatures");
    assert_eq!(thumbnail_dir(""), "miniatures");
    assert_eq!(join("/", "a.png"), "/a.png");
}

#[test]
fn destination_keeps_the_file_name() {
    assert_eq!(thumbnail_path("/photos/a.png", "/photos/miniatures"), Some("/photos/miniatures/a.png".to_string()));
    assert_eq!(thumbnail_path("/photos/", "/photos/miniatures"), None);
    assert_eq!(thumbnail_path_for_source("/photos/a.png"), Some("/photos/miniatures/a.png".to_string()));
    assert_eq!(thumbnail_path_for_source("/a.png"), Some("/miniatures/a.png".to_string()));
    assert_eq!(thumbnail_path_for_source("a.png"), Some("miniatures/a.png".to_string()));
}

#[test]
fn distinct_names_get_distinct_destinations() {
    let a = thumbnail_path("/p/a.png", "/p/miniatures").unwrap();
    let b = thumbnail_path("/p/b.png", "/p/miniatures").unwrap();
    assert_ne!(a, b);
}

#[test]
fn record_of_missing_thumbnail_needs_work() {
    let mut r = ThumbnailRecord::resolve("/p/a.png", "/p/miniatures", false).unwrap();
    assert_eq!(r.thumbnail, "/p/miniatures/a.png");
    assert!(r.needs_work());
    assert_eq!(r.outcome(), None);
    r.record_write(false);
    assert_eq!(r.outcome(), None);
    r.record_write(true);
    assert!(!r.needs_work());
    assert_eq!(r.outcome(), Some("/p/miniatures/a.png".to_string()));
}

#[test]
fn record_of_present_thumbnail_is_a_hit() {
    let r = ThumbnailRecord::resolve("/p/a.png", "/p/miniatures", true).unwrap();
    assert!(!r.needs_work());
    assert_eq!(r.outcome(), Some("/p/miniatures/a.png".to_string()));
    assert!(ThumbnailRecord::resolve("/p/", "/p/miniatures", true).is_none());
}

fn run(fs: &mut HashSet<String>, sources: &[&str], dir: &str) -> (usize, Vec<Option<String>>) {
    let mut work = 0;
    let mut out = Vec::new();
    for s in sources {
        let dest = thumbnail_path(s, dir).unwrap();
        let mut r = ThumbnailRecord::resolve(s, dir, fs.contains(&dest)).unwrap();
        if r.needs_work() {
            work += 1;
            fs.insert(r.thumbnail.clone());
            r.record_write(true);
        }
        out.push(r.outcome());
    }
    (work, out)
}

#[test]
fn second_run_does_no_work() {
    let mut fs = HashSet::new();
    let sources = ["/p/a.png", "/p/b.jpg", "/p/c.gif"];
    let (w1, out1) = run(&mut fs, &sources, "/p/miniatures");
    let (w2, out2) = run(&mut fs, &sources, "/p/miniatures");
    assert_eq!(w1, 3);
    assert_eq!(w2, 0);
    assert_eq!(out1, out2);
}

#[test]
fn work_is_due_only_on_a_miss() {
    assert!(needs_generation("/p/a.png", "/p/miniatures", false));
    assert!(!needs_generation("/p/a.png", "/p/miniatures", true));
    assert!(!needs_generation("/p/", "/p/miniatures", false));
    assert_eq!(reported_thumbnail("/p/a.png", "/p/miniatures", true, false), Some("/p/miniatures/a.png".to_string()));
    assert_eq!(reported_thumbnail("/p/a.png", "/p/miniatures", false, true), Some("/p/miniatures/a.png".to_string()));
    assert_eq!(reported_thumbnail("/p/a.png", "/p/miniatures", false, false), None);
    assert_eq!(reported_thumbnail("/p/", "/p/miniatures", true, true), None);
}

#[test]
fn parent_marker_names_no_file() {
    assert_eq!(thumbnail_path("/pics/..", "/pics/miniatures"), None);
    assert_eq!(thumbnail_path("/pics/..a.png", "/pics/miniatures"), Some("/pics/miniatures/..a.png".to_string()));
}
