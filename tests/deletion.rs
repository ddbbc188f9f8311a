use gallery::deletion::{DeleteError, DeleteStep, Deletion};
use std::collections::HashSet;

/// Runs a deletion against a set of existing paths; removals of paths in
/// `stuck` fail.
fn run(fs: &mut HashSet<String>, stuck: &HashSet<String>, source: &str) -> Result<(), DeleteError> {
    let mut d = Deletion::new(source);
    loop {
        if let Some(r) = d.result() {
            return r;
        }
        let ok = match d.step {
            DeleteStep::CheckSource => fs.contains(&d.source),
            DeleteStep::RemoveSource => !stuck.contains(&d.source) && fs.remove(&d.source),
            DeleteStep::CheckThumbnail => fs.contains(d.thumbnail.as_ref().unwrap()),
            DeleteStep::RemoveThumbnail => {
                let t = d.thumbnail.clone().unwrap();
                !stuck.contains(&t) && fs.remove(&t)
            }
            DeleteStep::Finished(_) => unreachable!(),
        };
        d.advance(ok);
    }
}

fn set(items: &[&str]) -> HashSet<String> {
    items.iter().map(|s| s.to_string()).collect()
}

#[test]
fn delete_removes_source_and_thumbnail_then_not_found() {
    let mut fs = set(&["/p/a.png", "/p/miniatures/a.png", "/p/b.png"]);
    assert_eq!(run(&mut fs, &HashSet::new(), "/p/a.png"), Ok(()));
    assert_eq!(fs, set(&["/p/b.png"]));
    assert_eq!(run(&mut fs, &HashSet::new(), "/p/a.png"), Err(DeleteError::NotFound));
}

#[test]
fn delete_without_thumbnail_succeeds() {
    let mut fs = set(&["/p/a.png"]);
    assert_eq!(run(&mut fs, &HashSet::new(), "/p/a.png"), Ok(()));
    assert!(fs.is_empty());
}

#[test]
fn each_failing_step_has_its_own_error() {
    let mut fs = set(&["/p/a.png", "/p/miniatures/a.png"]);
    assert_eq!(run(&mut fs, &set(&["/p/a.png"]), "/p/a.png"), Err(DeleteError::SourceDeleteFailed));
    assert_eq!(run(&mut fs, &set(&["/p/miniatures/a.png"]), "/p/a.png"), Err(DeleteError::ThumbnailDeleteFailed));
    assert_eq!(fs, set(&["/p/miniatures/a.png"]));
}

#[test]
fn error_messages() {
    assert_eq!(DeleteError::NotFound.message(), "Image not found");
    assert_eq!(DeleteError::SourceDeleteFailed.message(), "Failed to delete the original image");
    assert_eq!(DeleteError::ThumbnailDeleteFailed.message(), "Failed to delete the miniature image");
}

#[test]
fn deletion_targets_the_derived_thumbnail() {
    let d = Deletion::new("/p/a.png");
    assert_eq!(d.thumbnail, Some("/p/miniatures/a.png".to_string()));
    assert!(d.result().is_none());
}
