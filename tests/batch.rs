use gallery::batch::{image_paths, pending_listing, should_notify, BatchProgress, DirEntry, NotifyPolicy};
use std::collections::HashSet;

fn entry(p: &str, is_file: bool) -> DirEntry {
    DirEntry { path: p.to_string(), is_file }
}

#[test]
fn scan_keeps_image_files_in_order() {
    let entries = vec![
        entry("/p/a.png", true),
        entry("/p/notes.txt", true),
        entry("/p/sub.jpg", false),
        entry("/p/B.JPEG", true),
        entry("/p/miniatures", false),
    ];
    assert_eq!(image_paths(&entries), vec!["/p/a.png".to_string(), "/p/B.JPEG".to_string()]);
    assert!(image_paths(&Vec::new()).is_empty());
}

#[test]
fn every_image_is_announced_once_in_any_order() {
    let items: Vec<String> = (0..5).map(|i| format!("/p/img{}.png", i)).collect();
    let mut b = BatchProgress::new(items.clone());
    assert_eq!(b.len(), 5);
    let mut seen = HashSet::new();
    let mut count = 0;
    for i in [3usize, 0, 4, 1, 2] {
        assert!(!b.is_finished());
        let e = b.complete(i, Some(format!("/p/miniatures/img{}.png", i))).unwrap();
        assert_eq!(e.image_path, items[i]);
        assert_eq!(e.file_name, format!("img{}.png", i));
        assert!(seen.insert(e.image_path.clone()));
        count += 1;
    }
    assert_eq!(count, 5);
    assert!(b.is_finished());
    assert_eq!(seen, items.into_iter().collect::<HashSet<_>>());
}

#[test]
fn repeated_or_unknown_completions_are_silent() {
    let mut b = BatchProgress::new(vec!["/p/a.png".to_string()]);
    assert!(b.complete(1, None).is_none());
    let e = b.complete(0, None).unwrap();
    assert_eq!(e.miniature_path, None);
    assert!(b.complete(0, Some("x".to_string())).is_none());
    assert!(b.is_finished());
    assert_eq!(b.item(0), "/p/a.png");
}

#[test]
fn empty_batch_is_finished() {
    let b = BatchProgress::new(Vec::new());
    assert!(b.is_finished());
}

#[test]
fn notify_policy_decides_about_hits() {
    assert!(should_notify(NotifyPolicy::EveryImage, true));
    assert!(should_notify(NotifyPolicy::EveryImage, false));
    assert!(!should_notify(NotifyPolicy::MissesOnly, true));
    assert!(should_notify(NotifyPolicy::MissesOnly, false));
}

#[test]
fn fire_and_forget_answer_lists_images_without_thumbnails() {
    let l = pending_listing(&vec!["/p/a.png".to_string(), "/p/b.png".to_string()]);
    assert_eq!(l, vec![("/p/a.png".to_string(), None), ("/p/b.png".to_string(), None)]);
}
