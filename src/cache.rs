//! The thumbnail cache: where the thumbnail of a source image lives, and
//! whether it must be made.
//!
//! Thumbnails of the images of a folder live in its `miniatures`
//! subfolder, under the source's own file name. A thumbnail that exists at
//! its destination is trusted as it is.

use vstd::prelude::*;
use crate::classify::{chars_of, file_name_of, find_after_last, is_parent_marker, parent_of, SEPARATOR};

verus! {

/// Name of the subfolder that holds a folder's thumbnails.
pub open spec fn thumbnail_folder_name() -> Seq<char> {
    seq!['m', 'i', 'n', 'i', 'a', 't', 'u', 'r', 'e', 's']
}

/// `name` placed inside the folder `dir`.
pub open spec fn join_path(dir: Seq<char>, name: Seq<char>) -> Seq<char> {
    if dir.len() == 0 {
        name
    } else if dir.last() == SEPARATOR {
        dir + name
    } else {
        dir + seq![SEPARATOR] + name
    }
}

/// The thumbnail folder of a folder.
pub open spec fn thumbnail_dir_of(folder: Seq<char>) -> Seq<char> {
    join_path(folder, thumbnail_folder_name())
}

/// Where the thumbnail of `source` lives inside the thumbnail folder `dir`;
/// `None` when the source has no file name.
pub open spec fn destination_of(source: Seq<char>, dir: Seq<char>) -> Option<Seq<char>> {
    if file_name_of(source).len() == 0 {
        None
    } else {
        Some(join_path(dir, file_name_of(source)))
    }
}

/// Where the thumbnail of `source` lives: in the thumbnail folder of the
/// folder that holds it.
pub open spec fn thumbnail_of_source(source: Seq<char>) -> Option<Seq<char>> {
    destination_of(source, thumbnail_dir_of(parent_of(source)))
}

/// `name` placed inside the folder `dir`.
pub fn join(dir: &str, name: &str) -> (r: String)
    ensures
        r@ == join_path(dir@, name@),
{
    let n = dir.unicode_len();
    if n == 0 {
        return String::from_str(name);
    }
    let mut r = String::from_str(dir);
    if dir.get_char(n - 1) != SEPARATOR {
        r.append("/");
        proof {
            reveal_strlit("/");
        }
    }
    r.append(name);
    r
}

/// The last component of a path.
pub fn file_name(path: &str) -> (r: String)
    ensures
        r@ == file_name_of(path@),
{
    let s = chars_of(path);
    let n = s.len();
    let start = find_after_last(&s, n, SEPARATOR);
    assert(s@.subrange(0, n as int) =~= s@);
    let last = path.substring_char(start, n);
    if is_parent_marker(&chars_of(last)) {
        String::new()
    } else {
        String::from_str(last)
    }
}

/// The folder part of a path; empty when the path has no separator.
pub fn parent(path: &str) -> (r: String)
    ensures
        r@ == parent_of(path@),
{
    let s = chars_of(path);
    let n = s.len();
    let k = find_after_last(&s, n, SEPARATOR);
    assert(s@.subrange(0, n as int) =~= s@);
    if k == 0 {
        String::new()
    } else if k == 1 {
        String::from_str(path.substring_char(0, 1))
    } else {
        String::from_str(path.substring_char(0, k - 1))
    }
}

/// The thumbnail folder of a folder: its `miniatures` subfolder.
pub fn thumbnail_dir(folder: &str) -> (r: String)
    ensures
        r@ == thumbnail_dir_of(folder@),
{
    proof {
        reveal_strlit("miniatures");
    }
    assert("miniatures"@ =~= thumbnail_folder_name());
    join(folder, "miniatures")
}

/// Where the thumbnail of `source` lives inside the thumbnail folder
/// `thumb_dir`; `None` when the source has no file name.
pub fn thumbnail_path(source: &str, thumb_dir: &str) -> (r: Option<String>)
    ensures
        r is None <==> destination_of(source@, thumb_dir@) is None,
        r matches Some(p) ==> destination_of(source@, thumb_dir@) == Some(p@),
{
    let name = file_name(source);
    if name.unicode_len() == 0 {
        None
    } else {
        Some(join(thumb_dir, name.as_str()))
    }
}

/// Where the thumbnail of `source` lives, beside it in its folder's
/// thumbnail folder; `None` when the source has no file name.
pub fn thumbnail_path_for_source(source: &str) -> (r: Option<String>)
    ensures
        r is None <==> thumbnail_of_source(source@) is None,
        r matches Some(p) ==> thumbnail_of_source(source@) == Some(p@),
{
    let folder = parent(source);
    let dir = thumbnail_dir(folder.as_str());
    thumbnail_path(source, dir.as_str())
}

/// One image's entry in the cache: its source, its destination, and
/// whether a thumbnail is at the destination.
pub struct ThumbnailRecord {
    pub source: String,
    pub thumbnail: String,
    pub present: bool,
}

/// Whether decode, resize and write work is due for `source`, given
/// whether a thumbnail was `present` at its destination in `dir`.
pub open spec fn item_work(source: Seq<char>, dir: Seq<char>, present: bool) -> bool {
    destination_of(source, dir) is Some && !present
}

/// The thumbnail path reported for `source`, given whether a thumbnail was
/// `present` at its destination and, on a miss, whether it was `written`.
pub open spec fn item_report(source: Seq<char>, dir: Seq<char>, present: bool, written: bool) -> Option<Seq<char>> {
    match destination_of(source, dir) {
        None => None,
        Some(d) => if present || written {
            Some(d)
        } else {
            None
        },
    }
}

/// What becomes of one source when its destination is checked against the
/// set `fs` of paths that exist and, on a miss, a thumbnail is made and
/// written with outcome `written`: the paths that exist afterwards, whether
/// decode, resize and write work was done, and the thumbnail path reported.
pub open spec fn run_item(fs: Set<Seq<char>>, source: Seq<char>, dir: Seq<char>, written: bool) -> (
    Set<Seq<char>>,
    bool,
    Option<Seq<char>>,
) {
    match destination_of(source, dir) {
        None => (fs, false, None),
        Some(d) => (
            if !fs.contains(d) && written { fs.insert(d) } else { fs },
            item_work(source, dir, fs.contains(d)),
            item_report(source, dir, fs.contains(d), written),
        ),
    }
}

/// A run over `sources` in which every write succeeds: the paths that exist
/// afterwards, how many items needed work, and the reported paths in order.
pub open spec fn run_batch(fs: Set<Seq<char>>, sources: Seq<Seq<char>>, dir: Seq<char>) -> (
    Set<Seq<char>>,
    nat,
    Seq<Option<Seq<char>>>,
)
    decreases sources.len(),
{
    if sources.len() == 0 {
        (fs, 0, seq![])
    } else {
        let first = run_item(fs, sources[0], dir, true);
        let rest = run_batch(first.0, sources.drop_first(), dir);
        (rest.0, rest.1 + if first.1 { 1nat } else { 0nat }, seq![first.2] + rest.2)
    }
}

impl ThumbnailRecord {
    /// The record of `source` inside the thumbnail folder `thumb_dir`, with
    /// the presence that was observed at its destination; `None` when the
    /// source has no file name.
    pub fn resolve(source: &str, thumb_dir: &str, exists: bool) -> (r: Option<ThumbnailRecord>)
        ensures
            r is None <==> destination_of(source@, thumb_dir@) is None,
            r matches Some(rec) ==> {
                &&& rec.source@ == source@
                &&& destination_of(source@, thumb_dir@) == Some(rec.thumbnail@)
                &&& rec.present == exists
            },
    {
        match thumbnail_path(source, thumb_dir) {
            Some(t) => Some(ThumbnailRecord { source: String::from_str(source), thumbnail: t, present: exists }),
            None => None,
        }
    }

    /// A cache miss: the thumbnail must be made and written.
    pub fn needs_work(&self) -> (r: bool)
        ensures
            r == !self.present,
    {
        !self.present
    }

    /// Notes the outcome of writing the thumbnail; a write that found the
    /// destination taken by a concurrent writer counts as written.
    pub fn record_write(&mut self, written: bool)
        ensures
            final(self).source@ == old(self).source@,
            final(self).thumbnail@ == old(self).thumbnail@,
            final(self).present == (old(self).present || written),
    {
        self.present = self.present || written;
    }

    /// The thumbnail path to report: the destination once a thumbnail is
    /// there, `None` otherwise.
    pub fn outcome(&self) -> (r: Option<String>)
        ensures
            r is Some <==> self.present,
            r matches Some(p) ==> p@ == self.thumbnail@,
    {
        if self.present {
            Some(self.thumbnail.clone())
        } else {
            None
        }
    }
}

/// Whether a worker must make the thumbnail of `source`, given whether one
/// was `present` at its destination inside `thumb_dir`.
pub fn needs_generation(source: &str, thumb_dir: &str, present: bool) -> (r: bool)
    ensures
        r == item_work(source@, thumb_dir@, present),
{
    thumbnail_path(source, thumb_dir).is_some() && !present
}

/// The thumbnail path that a worker reports for `source`: its destination
/// when a thumbnail was `present` there or has been `written`, else `None`.
pub fn reported_thumbnail(source: &str, thumb_dir: &str, present: bool, written: bool) -> (r: Option<String>)
    ensures
        r is Some <==> item_report(source@, thumb_dir@, present, written) is Some,
        r matches Some(p) ==> item_report(source@, thumb_dir@, present, written) == Some(p@),
{
    match thumbnail_path(source, thumb_dir) {
        Some(d) => if present || written {
            Some(d)
        } else {
            None
        },
        None => None,
    }
}

proof fn lemma_run_batch_fills(fs: Set<Seq<char>>, sources: Seq<Seq<char>>, dir: Seq<char>)
    ensures
        fs.subset_of(run_batch(fs, sources, dir).0),
        run_batch(fs, sources, dir).2.len() == sources.len(),
        forall|i: int| 0 <= i < sources.len() ==> #[trigger] run_batch(fs, sources, dir).2[i] == destination_of(sources[i], dir),
        forall|i: int| 0 <= i < sources.len() && destination_of(sources[i], dir) is Some
            ==> run_batch(fs, sources, dir).0.contains(#[trigger] destination_of(sources[i], dir)->0),
    decreases sources.len(),
{
    if sources.len() > 0 {
        let first = run_item(fs, sources[0], dir, true);
        lemma_run_batch_fills(first.0, sources.drop_first(), dir);
        let r = run_batch(fs, sources, dir);
        assert forall|i: int| 0 <= i < sources.len() implies #[trigger] r.2[i] == destination_of(sources[i], dir) by {
            if i > 0 {
                assert(sources.drop_first()[i - 1] == sources[i]);
            }
        }
        assert forall|i: int| 0 <= i < sources.len() && destination_of(sources[i], dir) is Some
            implies r.0.contains(#[trigger] destination_of(sources[i], dir)->0) by {
            if i > 0 {
                assert(sources.drop_first()[i - 1] == sources[i]);
            }
        }
    }
}

proof fn lemma_run_batch_all_hits(fs: Set<Seq<char>>, sources: Seq<Seq<char>>, dir: Seq<char>)
    requires
        forall|i: int| 0 <= i < sources.len() && destination_of(sources[i], dir) is Some
            ==> fs.contains(#[trigger] destination_of(sources[i], dir)->0),
    ensures
        run_batch(fs, sources, dir).0 == fs,
        run_batch(fs, sources, dir).1 == 0,
    decreases sources.len(),
{
    if sources.len() > 0 {
        assert forall|i: int| 0 <= i < sources.drop_first().len() && destination_of(sources.drop_first()[i], dir) is Some
            implies fs.contains(#[trigger] destination_of(sources.drop_first()[i], dir)->0) by {
            assert(sources.drop_first()[i] == sources[i + 1]);
        }
        lemma_run_batch_all_hits(fs, sources.drop_first(), dir);
    }
}

/// Running the generation twice over the same sources, with nothing changed
/// in between but what the first run wrote, does no work the second time:
/// every item is a cache hit, and both runs report the same destinations.
pub proof fn lemma_second_run_is_all_hits(fs: Set<Seq<char>>, sources: Seq<Seq<char>>, dir: Seq<char>)
    ensures
        run_batch(run_batch(fs, sources, dir).0, sources, dir).1 == 0,
        run_batch(run_batch(fs, sources, dir).0, sources, dir).0 == run_batch(fs, sources, dir).0,
        run_batch(run_batch(fs, sources, dir).0, sources, dir).2 == run_batch(fs, sources, dir).2,
{
    let first = run_batch(fs, sources, dir);
    lemma_run_batch_fills(fs, sources, dir);
    lemma_run_batch_all_hits(first.0, sources, dir);
    lemma_run_batch_fills(first.0, sources, dir);
    assert(run_batch(first.0, sources, dir).2 =~= first.2);
}

/// Sources with different file names never share a destination.
pub proof fn lemma_destinations_distinct(a: Seq<char>, b: Seq<char>, dir: Seq<char>)
    requires
        destination_of(a, dir) is Some,
        destination_of(b, dir) is Some,
        file_name_of(a) != file_name_of(b),
    ensures
        destination_of(a, dir) != destination_of(b, dir),
{
    let (na, nb) = (file_name_of(a), file_name_of(b));
    let (ja, jb) = (join_path(dir, na), join_path(dir, nb));
    if ja == jb {
        let p = ja.len() - na.len();
        assert(ja.subrange(p, ja.len() as int) =~= na);
        assert(jb.subrange(p, jb.len() as int) =~= nb);
    }
}

} // verus!
