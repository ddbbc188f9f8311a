//! Deleting an image together with its thumbnail, one filesystem step at a
//! time: the caller performs each step and reports how it went.

use vstd::prelude::*;
use crate::cache::{thumbnail_of_source, thumbnail_path_for_source};

verus! {

/// Why a deletion failed.
#[derive(Clone, Copy, Debug, PartialEq, Eq, Structural)]
pub enum DeleteError {
    /// The source image does not exist.
    NotFound,
    /// The source image exists but could not be removed.
    SourceDeleteFailed,
    /// The source is gone but its thumbnail could not be removed.
    ThumbnailDeleteFailed,
}

/// The reason for a failed deletion, in words, for the user.
pub open spec fn error_text(e: DeleteError) -> Seq<char> {
    match e {
        DeleteError::NotFound => "Image not found"@,
        DeleteError::SourceDeleteFailed => "Failed to delete the original image"@,
        DeleteError::ThumbnailDeleteFailed => "Failed to delete the miniature image"@,
    }
}

impl DeleteError {
    /// The reason, in words, for the user.
    pub fn message(&self) -> (r: String)
        ensures
            r@ == error_text(*self),
    {
        match self {
            DeleteError::NotFound => String::from_str("Image not found"),
            DeleteError::SourceDeleteFailed => String::from_str("Failed to delete the original image"),
            DeleteError::ThumbnailDeleteFailed => String::from_str("Failed to delete the miniature image"),
        }
    }
}

/// Where a deletion stands: the step to perform next, or its result.
#[derive(Clone, Copy, Debug)]
pub enum DeleteStep {
    /// Check that the source exists.
    CheckSource,
    /// Remove the source.
    RemoveSource,
    /// Check whether the thumbnail exists.
    CheckThumbnail,
    /// Remove the thumbnail.
    RemoveThumbnail,
    /// Done.
    Finished(Result<(), DeleteError>),
}

/// The step after `step`, whose check answered, or whose removal succeeded,
/// as `ok` says; `has_thumbnail` tells whether the source has a thumbnail
/// path at all.
pub open spec fn step_after(step: DeleteStep, ok: bool, has_thumbnail: bool) -> DeleteStep {
    match step {
        DeleteStep::CheckSource => if ok {
            DeleteStep::RemoveSource
        } else {
            DeleteStep::Finished(Err(DeleteError::NotFound))
        },
        DeleteStep::RemoveSource => if !ok {
            DeleteStep::Finished(Err(DeleteError::SourceDeleteFailed))
        } else if has_thumbnail {
            DeleteStep::CheckThumbnail
        } else {
            DeleteStep::Finished(Ok(()))
        },
        DeleteStep::CheckThumbnail => if ok {
            DeleteStep::RemoveThumbnail
        } else {
            DeleteStep::Finished(Ok(()))
        },
        DeleteStep::RemoveThumbnail => if ok {
            DeleteStep::Finished(Ok(()))
        } else {
            DeleteStep::Finished(Err(DeleteError::ThumbnailDeleteFailed))
        },
        DeleteStep::Finished(r) => DeleteStep::Finished(r),
    }
}

/// The deletion of one image and of its thumbnail.
pub struct Deletion {
    pub source: String,
    pub thumbnail: Option<String>,
    pub step: DeleteStep,
}

impl Deletion {
    /// The deletion of `source`, not begun.
    pub fn new(source: &str) -> (r: Deletion)
        ensures
            r.source@ == source@,
            r.thumbnail is None <==> thumbnail_of_source(source@) is None,
            r.thumbnail matches Some(t) ==> thumbnail_of_source(source@) == Some(t@),
            r.step == DeleteStep::CheckSource,
    {
        Deletion { source: String::from_str(source), thumbnail: thumbnail_path_for_source(source), step: DeleteStep::CheckSource }
    }

    /// Moves on once the current step has been performed with outcome `ok`.
    pub fn advance(&mut self, ok: bool)
        ensures
            final(self).source@ == old(self).source@,
            final(self).thumbnail == old(self).thumbnail,
            final(self).step == step_after(old(self).step, ok, old(self).thumbnail is Some),
    {
        self.step = match self.step {
            DeleteStep::CheckSource => if ok {
                DeleteStep::RemoveSource
            } else {
                DeleteStep::Finished(Err(DeleteError::NotFound))
            },
            DeleteStep::RemoveSource => if !ok {
                DeleteStep::Finished(Err(DeleteError::SourceDeleteFailed))
            } else if self.thumbnail.is_some() {
                DeleteStep::CheckThumbnail
            } else {
                DeleteStep::Finished(Ok(()))
            },
            DeleteStep::CheckThumbnail => if ok {
                DeleteStep::RemoveThumbnail
            } else {
                DeleteStep::Finished(Ok(()))
            },
            DeleteStep::RemoveThumbnail => if ok {
                DeleteStep::Finished(Ok(()))
            } else {
                DeleteStep::Finished(Err(DeleteError::ThumbnailDeleteFailed))
            },
            DeleteStep::Finished(r) => DeleteStep::Finished(r),
        };
    }

    /// The result, once the deletion is finished.
    pub fn result(&self) -> (r: Option<Result<(), DeleteError>>)
        ensures
            r is Some <==> self.step is Finished,
            r matches Some(x) ==> self.step == DeleteStep::Finished(x),
    {
        match self.step {
            DeleteStep::Finished(x) => Some(x),
            _ => None,
        }
    }
}

/// Performing `step` on a filesystem whose existing paths are `fs`, where
/// a removal succeeds exactly when the path exists: the outcome reported,
/// and the paths that exist afterwards.
pub open spec fn perform(step: DeleteStep, source: Seq<char>, thumbnail: Option<Seq<char>>, fs: Set<Seq<char>>) -> (bool, Set<Seq<char>>) {
    match step {
        DeleteStep::CheckSource => (fs.contains(source), fs),
        DeleteStep::RemoveSource => (fs.contains(source), fs.remove(source)),
        DeleteStep::CheckThumbnail => match thumbnail {
            Some(t) => (fs.contains(t), fs),
            None => (false, fs),
        },
        DeleteStep::RemoveThumbnail => match thumbnail {
            Some(t) => (fs.contains(t), fs.remove(t)),
            None => (false, fs),
        },
        DeleteStep::Finished(_) => (true, fs),
    }
}

/// A whole deletion of `source` on such a filesystem: the final step and
/// the paths that exist afterwards.
pub open spec fn run_deletion(source: Seq<char>, fs: Set<Seq<char>>) -> (DeleteStep, Set<Seq<char>>) {
    run_steps(DeleteStep::CheckSource, source, thumbnail_of_source(source), fs, 4)
}

pub open spec fn run_steps(step: DeleteStep, source: Seq<char>, thumbnail: Option<Seq<char>>, fs: Set<Seq<char>>, fuel: nat) -> (
    DeleteStep,
    Set<Seq<char>>,
)
    decreases fuel,
{
    if fuel == 0 {
        (step, fs)
    } else {
        let p = perform(step, source, thumbnail, fs);
        run_steps(step_after(step, p.0, thumbnail is Some), source, thumbnail, p.1, (fuel - 1) as nat)
    }
}

/// After a deletion of `p` succeeds, neither `p` nor its thumbnail exists,
/// and deleting `p` again fails with `NotFound`.
pub proof fn lemma_delete_round_trip(p: Seq<char>, fs: Set<Seq<char>>)
    requires
        run_deletion(p, fs).0 == DeleteStep::Finished(Ok::<(), DeleteError>(())),
    ensures
        !run_deletion(p, fs).1.contains(p),
        thumbnail_of_source(p) matches Some(t) ==> !run_deletion(p, fs).1.contains(t),
        run_deletion(p, run_deletion(p, fs).1).0 == DeleteStep::Finished(Err::<(), DeleteError>(DeleteError::NotFound)),
{
    reveal_with_fuel(run_steps, 5);
    let after = run_deletion(p, fs).1;
    assert(!after.contains(p));
}

} // verus!
