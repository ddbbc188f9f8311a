//! A batch of thumbnail work over one folder: which entries it covers, and
//! the completion notices that its workers send, one per image, in whatever
//! order they finish.

use vstd::prelude::*;
use crate::classify::{file_name_of, is_image, is_image_path};
use crate::cache::file_name;

verus! {

/// One direct entry of a scanned folder.
pub struct DirEntry {
    pub path: String,
    pub is_file: bool,
}

/// The paths of the entries that are files named as images, in scan order.
pub open spec fn image_paths_of(entries: Seq<(Seq<char>, bool)>) -> Seq<Seq<char>>
    decreases entries.len(),
{
    if entries.len() == 0 {
        seq![]
    } else {
        let rest = image_paths_of(entries.drop_last());
        let e = entries.last();
        if e.1 && is_image_path(e.0) {
            rest.push(e.0)
        } else {
            rest
        }
    }
}

pub open spec fn entries_view(entries: Seq<DirEntry>) -> Seq<(Seq<char>, bool)> {
    entries.map_values(|e: DirEntry| (e.path@, e.is_file))
}

/// The image set of a folder: its entries that are files named as images.
pub fn image_paths(entries: &Vec<DirEntry>) -> (r: Vec<String>)
    ensures
        r@.map_values(|s: String| s@) == image_paths_of(entries_view(entries@)),
{
    let mut r: Vec<String> = Vec::new();
    let mut i: usize = 0;
    while i < entries.len()
        invariant
            i <= entries@.len(),
            r@.map_values(|s: String| s@) == image_paths_of(entries_view(entries@.subrange(0, i as int))),
        decreases entries@.len() - i,
    {
        let ghost before = r@;
        let e = &entries[i];
        assert(entries@.subrange(0, i + 1).drop_last() =~= entries@.subrange(0, i as int));
        assert(entries_view(entries@.subrange(0, i + 1)).drop_last() =~= entries_view(entries@.subrange(0, i as int)));
        if e.is_file && is_image(e.path.as_str()) {
            r.push(e.path.clone());
            assert(r@.map_values(|s: String| s@) =~= before.map_values(|s: String| s@).push(e.path@));
        }
        i = i + 1;
    }
    assert(entries@.subrange(0, entries@.len() as int) =~= entries@);
    r
}

/// Which completed images are announced.
#[derive(Clone, Copy, Debug, PartialEq, Eq, Structural)]
pub enum NotifyPolicy {
    /// Every image, cache hits included, so that a resumed view can mark
    /// each one done.
    EveryImage,
    /// Only images whose thumbnail had to be made; fully cached re-scans
    /// stay silent.
    MissesOnly,
}

/// Whether an image that was a cache hit (`was_hit`) or a miss is announced.
pub fn should_notify(policy: NotifyPolicy, was_hit: bool) -> (r: bool)
    ensures
        r == (policy == NotifyPolicy::EveryImage || !was_hit),
{
    match policy {
        NotifyPolicy::EveryImage => true,
        NotifyPolicy::MissesOnly => !was_hit,
    }
}

/// The immediate answer of a fire-and-forget scan: every image, with its
/// thumbnail still to come.
pub fn pending_listing(items: &Vec<String>) -> (r: Vec<(String, Option<String>)>)
    ensures
        r@.len() == items@.len(),
        forall|i: int| 0 <= i < r@.len() ==> (#[trigger] r@[i]).0@ == items@[i]@ && r@[i].1 is None,
{
    let mut r: Vec<(String, Option<String>)> = Vec::new();
    let mut i: usize = 0;
    while i < items.len()
        invariant
            i <= items@.len(),
            r@.len() == i,
            forall|k: int| 0 <= k < i ==> (#[trigger] r@[k]).0@ == items@[k]@ && r@[k].1 is None,
        decreases items@.len() - i,
    {
        r.push((items[i].clone(), None));
        i = i + 1;
    }
    r
}

/// The notice sent when one image of a batch is done: its file name, its
/// path, and its thumbnail path, absent when processing failed.
pub struct ImageProcessed {
    pub file_name: String,
    pub image_path: String,
    pub miniature_path: Option<String>,
}

/// Which images of a batch have been announced.
pub struct BatchProgress {
    items: Vec<String>,
    done: Vec<bool>,
}

/// Completing item `i` when `done` says which were announced: the new
/// flags, and whether a notice goes out.
pub open spec fn complete_step(done: Seq<bool>, i: int) -> (Seq<bool>, bool) {
    if 0 <= i < done.len() && !done[i] {
        (done.update(i, true), true)
    } else {
        (done, false)
    }
}

/// Completions arriving in the order `order` (item indices, as workers
/// finish): the final flags, and the indices announced, in order.
pub open spec fn complete_all(done: Seq<bool>, order: Seq<int>) -> (Seq<bool>, Seq<int>)
    decreases order.len(),
{
    if order.len() == 0 {
        (done, seq![])
    } else {
        let prev = complete_all(done, order.drop_last());
        let step = complete_step(prev.0, order.last());
        (step.0, if step.1 { prev.1.push(order.last()) } else { prev.1 })
    }
}

/// Flags of a batch of `n` images of which none is announced.
pub open spec fn none_done(n: nat) -> Seq<bool> {
    Seq::new(n, |i: int| false)
}

/// The indices announced when completions arrive in the order `order` on a
/// fresh batch of `n` images.
pub open spec fn announced(n: nat, order: Seq<int>) -> Seq<int> {
    complete_all(none_done(n), order).1
}

impl BatchProgress {
    pub closed spec fn items_view(&self) -> Seq<Seq<char>> {
        self.items@.map_values(|s: String| s@)
    }

    pub closed spec fn done_view(&self) -> Seq<bool> {
        self.done@
    }

    pub closed spec fn wf(&self) -> bool {
        self.items@.len() == self.done@.len()
    }

    /// A batch over `items`, none of them announced yet.
    pub fn new(items: Vec<String>) -> (r: BatchProgress)
        ensures
            r.wf(),
            r.items_view() == items@.map_values(|s: String| s@),
            r.done_view() == none_done(items@.len()),
            r.done_view().len() == r.items_view().len(),
    {
        let mut done: Vec<bool> = Vec::new();
        let mut i: usize = 0;
        while i < items.len()
            invariant
                i <= items@.len(),
                done@ == Seq::new(i as nat, |k: int| false),
            decreases items@.len() - i,
        {
            done.push(false);
            i = i + 1;
            assert(done@ =~= Seq::new(i as nat, |k: int| false));
        }
        assert(done@ =~= none_done(items@.len()));
        BatchProgress { items, done }
    }

    /// Number of images in the batch.
    pub fn len(&self) -> (r: usize)
        requires
            self.wf(),
        ensures
            r == self.items_view().len(),
    {
        self.items.len()
    }

    /// The path of image `index`.
    pub fn item(&self, index: usize) -> (r: &String)
        requires
            self.wf(),
            index < self.items_view().len(),
        ensures
            r@ == self.items_view()[index as int],
    {
        &self.items[index]
    }

    /// Records that image `index` is done, with thumbnail `miniature`
    /// (absent on failure). The first completion of an image of the batch
    /// yields its notice; any later one, or one for an index outside the
    /// batch, yields none.
    pub fn complete(&mut self, index: usize, miniature: Option<String>) -> (r: Option<ImageProcessed>)
        requires
            old(self).wf(),
        ensures
            final(self).wf(),
            final(self).items_view() == old(self).items_view(),
            final(self).done_view() == complete_step(old(self).done_view(), index as int).0,
            r is Some == complete_step(old(self).done_view(), index as int).1,
            r is Some ==> index < old(self).items_view().len(),
            final(self).done_view().len() == final(self).items_view().len(),
            r matches Some(e) ==> {
                &&& e.image_path@ == old(self).items_view()[index as int]
                &&& e.file_name@ == file_name_of(e.image_path@)
                &&& e.miniature_path == miniature
            },
    {
        if index >= self.done.len() || self.done[index] {
            return None;
        }
        self.done.set(index, true);
        let path = self.items[index].clone();
        Some(ImageProcessed { file_name: file_name(path.as_str()), image_path: path, miniature_path: miniature })
    }

    /// Whether every image of the batch has been announced.
    pub fn is_finished(&self) -> (r: bool)
        requires
            self.wf(),
        ensures
            r == forall|i: int| 0 <= i < self.done_view().len() ==> self.done_view()[i],
    {
        let mut i: usize = 0;
        while i < self.done.len()
            invariant
                i <= self.done@.len(),
                forall|k: int| 0 <= k < i ==> self.done@[k],
            decreases self.done@.len() - i,
        {
            if !self.done[i] {
                assert(!self.done_view()[i as int]);
                return false;
            }
            i = i + 1;
        }
        true
    }
}

proof fn lemma_complete_all(done: Seq<bool>, order: Seq<int>)
    ensures
        complete_all(done, order).0.len() == done.len(),
        forall|k: int| 0 <= k < complete_all(done, order).1.len()
            ==> 0 <= #[trigger] complete_all(done, order).1[k] < done.len()
                && !done[complete_all(done, order).1[k]],
        forall|j: int, k: int| 0 <= j < k < complete_all(done, order).1.len()
            ==> complete_all(done, order).1[j] != complete_all(done, order).1[k],
        forall|i: int| 0 <= i < done.len() ==> #[trigger] complete_all(done, order).0[i]
            == (done[i] || complete_all(done, order).1.contains(i)),
        forall|i: int| 0 <= i < done.len() && order.contains(i) ==> #[trigger] complete_all(done, order).0[i],
    decreases order.len(),
{
    if order.len() > 0 {
        lemma_complete_all(done, order.drop_last());
        let prev = complete_all(done, order.drop_last());
        let x = order.last();
        let cur = complete_all(done, order);
        assert forall|i: int| 0 <= i < done.len() && order.contains(i) implies #[trigger] cur.0[i] by {
            if i != x {
                let w = choose|w: int| 0 <= w < order.len() && order[w] == i;
                assert(order.drop_last()[w] == i);
            }
        }
        if complete_step(prev.0, x).1 {
            assert forall|i: int| 0 <= i < done.len() implies #[trigger] cur.0[i] == (done[i] || cur.1.contains(i)) by {
                if prev.1.contains(i) {
                    let w = choose|w: int| 0 <= w < prev.1.len() && prev.1[w] == i;
                    assert(cur.1[w] == i);
                }
                if i == x {
                    assert(cur.1[prev.1.len() as int] == i);
                } else if cur.1.contains(i) {
                    let w = choose|w: int| 0 <= w < cur.1.len() && cur.1[w] == i;
                    assert(prev.1[w] == i);
                }
            }
        }
    }
}

/// However the workers' completions interleave, the notices go out once per
/// image at most and only for images of the batch; when every image
/// completes at least once, each is announced exactly once, so a batch of
/// N images with distinct paths yields exactly N notices with N distinct
/// paths, all of the batch.
pub proof fn lemma_one_notice_per_image(items: Seq<Seq<char>>, order: Seq<int>)
    ensures
        forall|k: int| 0 <= k < announced(items.len(), order).len()
            ==> 0 <= #[trigger] announced(items.len(), order)[k] < items.len(),
        forall|j: int, k: int| 0 <= j < k < announced(items.len(), order).len()
            ==> announced(items.len(), order)[j]
                != announced(items.len(), order)[k],
        (forall|i: int| 0 <= i < items.len() ==> order.contains(i)) ==> {
            &&& announced(items.len(), order).len() == items.len()
            &&& forall|i: int| 0 <= i < items.len()
                ==> #[trigger] announced(items.len(), order).contains(i)
        },
        (forall|a: int, b: int| 0 <= a < b < items.len() ==> items[a] != items[b]) ==>
            forall|j: int, k: int| 0 <= j < k < announced(items.len(), order).len()
                ==> items[announced(items.len(), order)[j]]
                    != items[announced(items.len(), order)[k]],
{
    let start = none_done(items.len());
    lemma_complete_all(start, order);
    let out = complete_all(start, order).1;
    if forall|i: int| 0 <= i < items.len() ==> order.contains(i) {
        assert forall|i: int| 0 <= i < items.len() implies #[trigger] out.contains(i) by {
            assert(complete_all(start, order).0[i]);
        }
        lemma_distinct_in_range_len(out, items.len() as int);
    }
}

/// A sequence of distinct indices below `n` that holds each of them has
/// length `n`.
proof fn lemma_distinct_in_range_len(s: Seq<int>, n: int)
    requires
        n >= 0,
        forall|k: int| 0 <= k < s.len() ==> 0 <= #[trigger] s[k] < n,
        forall|j: int, k: int| 0 <= j < k < s.len() ==> s[j] != s[k],
        forall|i: int| 0 <= i < n ==> #[trigger] s.contains(i),
    ensures
        s.len() == n,
{
    let a = s.to_set();
    let b = Set::new(|i: int| 0 <= i < n);
    assert(a =~= b) by {
        assert forall|i: int| a.contains(i) implies b.contains(i) by {}
        assert forall|i: int| b.contains(i) implies a.contains(i) by {
            assert(s.contains(i));
        }
    }
    s.unique_seq_to_set();
    assert(b =~= vstd::set_lib::set_int_range(0, n));
    vstd::set_lib::lemma_int_range(0, n);
}

} // verus!
