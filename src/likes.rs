//! The set of liked images.

use vstd::prelude::*;

verus! {

/// `s` with `p` flipped: removed if it was there, added if not.
pub open spec fn toggled(s: Set<Seq<char>>, p: Seq<char>) -> Set<Seq<char>> {
    if s.contains(p) {
        s.remove(p)
    } else {
        s.insert(p)
    }
}

/// The paths that a sequence of strings holds, in order.
pub open spec fn views(s: Seq<String>) -> Seq<Seq<char>> {
    s.map_values(|x: String| x@)
}

/// A set of liked image paths.
pub struct LikeSet {
    paths: Vec<String>,
}

impl LikeSet {
    /// The paths in the set.
    pub closed spec fn view(&self) -> Set<Seq<char>> {
        views(self.paths@).to_set()
    }

    /// No path is held twice.
    pub closed spec fn wf(&self) -> bool {
        forall|i: int, j: int| 0 <= i < j < self.paths@.len() ==> self.paths@[i]@ != self.paths@[j]@
    }

    /// The empty set.
    pub fn new() -> (r: LikeSet)
        ensures
            r.wf(),
            r.view() == Set::<Seq<char>>::empty(),
    {
        let r = LikeSet { paths: Vec::new() };
        assert(views(r.paths@).to_set() =~= Set::<Seq<char>>::empty());
        r
    }

    /// Number of liked paths.
    pub fn len(&self) -> (r: usize)
        requires
            self.wf(),
        ensures
            r == self.view().len(),
    {
        proof {
            self.lemma_len();
        }
        self.paths.len()
    }

    proof fn lemma_len(&self)
        requires
            self.wf(),
        ensures
            self.view().len() == self.paths@.len(),
    {
        let v = views(self.paths@);
        assert forall|i: int, j: int| 0 <= i < j < v.len() implies v[i] != v[j] by {}
        assert(v.no_duplicates());
        v.unique_seq_to_set();
    }

    /// The index of `p` among the held paths, if it is there.
    fn position(&self, p: &String) -> (r: Option<usize>)
        requires
            self.wf(),
        ensures
            r is None <==> !self.view().contains(p@),
            r matches Some(i) ==> i < self.paths@.len() && self.paths@[i as int]@ == p@,
    {
        let mut i: usize = 0;
        while i < self.paths.len()
            invariant
                i <= self.paths@.len(),
                forall|k: int| 0 <= k < i ==> self.paths@[k]@ != p@,
            decreases self.paths@.len() - i,
        {
            if self.paths[i] == *p {
                assert(views(self.paths@)[i as int] == p@);
                return Some(i);
            }
            i = i + 1;
        }
        proof {
            if self.view().contains(p@) {
                let k = choose|k: int| 0 <= k < self.paths@.len() && #[trigger] views(self.paths@)[k] == p@;
                assert(self.paths@[k]@ == p@);
            }
        }
        None
    }

    /// Whether `p` is liked.
    pub fn contains(&self, p: &str) -> (r: bool)
        requires
            self.wf(),
        ensures
            r == self.view().contains(p@),
    {
        let s = String::from_str(p);
        self.position(&s).is_some()
    }

    /// Flips whether `p` is liked, and returns whether it is liked now.
    pub fn toggle(&mut self, p: &str) -> (r: bool)
        requires
            old(self).wf(),
        ensures
            final(self).wf(),
            final(self).view() == toggled(old(self).view(), p@),
            r == final(self).view().contains(p@),
    {
        let s = String::from_str(p);
        match self.position(&s) {
            Some(i) => {
                let ghost before = self.paths@;
                self.paths.remove(i);
                proof {
                    assert(self.paths@ =~= before.remove(i as int));
                    assert(self.wf()) by {
                        assert forall|a: int, b: int| 0 <= a < b < self.paths@.len() implies self.paths@[a]@ != self.paths@[b]@ by {
                            let ia = if a < i { a } else { a + 1 };
                            let ib = if b < i { b } else { b + 1 };
                            assert(self.paths@[a] == before[ia]);
                            assert(self.paths@[b] == before[ib]);
                        }
                    }
                    let old_v = views(before).to_set();
                    assert(self.view() =~= old_v.remove(p@)) by {
                        assert forall|q: Seq<char>| self.view().contains(q) implies old_v.remove(p@).contains(q) by {
                            let k = choose|k: int| 0 <= k < self.paths@.len() && #[trigger] views(self.paths@)[k] == q;
                            let ik = if k < i { k } else { k + 1 };
                            assert(views(before)[ik] == q);
                            assert(ik != i);
                        }
                        assert forall|q: Seq<char>| old_v.remove(p@).contains(q) implies self.view().contains(q) by {
                            let k = choose|k: int| 0 <= k < before.len() && #[trigger] views(before)[k] == q;
                            assert(k != i);
                            let ik = if k < i { k } else { k - 1 };
                            assert(views(self.paths@)[ik] == q);
                        }
                    }
                }
                false
            },
            None => {
                let ghost before = self.paths@;
                self.paths.push(s);
                proof {
                    let old_v = views(before).to_set();
                    assert(views(self.paths@) =~= views(before).push(p@));
                    assert(self.view() =~= old_v.insert(p@)) by {
                        assert forall|q: Seq<char>| self.view().contains(q) implies old_v.insert(p@).contains(q) by {
                            let k = choose|k: int| 0 <= k < self.paths@.len() && #[trigger] views(self.paths@)[k] == q;
                            if k < before.len() {
                                assert(views(before)[k] == q);
                            }
                        }
                        assert forall|q: Seq<char>| old_v.insert(p@).contains(q) implies self.view().contains(q) by {
                            if q == p@ {
                                assert(views(self.paths@)[before.len() as int] == q);
                            } else {
                                let k = choose|k: int| 0 <= k < before.len() && #[trigger] views(before)[k] == q;
                                assert(views(self.paths@)[k] == q);
                            }
                        }
                    }
                    assert(self.wf()) by {
                        assert forall|a: int, b: int| 0 <= a < b < self.paths@.len() implies self.paths@[a]@ != self.paths@[b]@ by {
                            if b == before.len() {
                                assert(views(before)[a] == before[a]@);
                            }
                        }
                    }
                }
                true
            },
        }
    }

    /// The liked paths, each once.
    pub fn to_vec(&self) -> (r: Vec<String>)
        requires
            self.wf(),
        ensures
            views(r@).to_set() == self.view(),
            r@.len() == self.view().len(),
    {
        proof {
            self.lemma_len();
        }
        let mut r: Vec<String> = Vec::new();
        let mut i: usize = 0;
        while i < self.paths.len()
            invariant
                i <= self.paths@.len(),
                views(r@) == views(self.paths@).subrange(0, i as int),
            decreases self.paths@.len() - i,
        {
            let ghost before = r@;
            let c = self.paths[i].clone();
            r.push(c);
            assert(views(r@) =~= views(before).push(self.paths@[i as int]@));
            i = i + 1;
            assert(views(r@) =~= views(self.paths@).subrange(0, i as int));
        }
        assert(views(self.paths@).subrange(0, i as int) =~= views(self.paths@));
        r
    }

    /// The set of the given paths, each held once however often it is given.
    pub fn from_paths(paths: Vec<String>) -> (r: LikeSet)
        ensures
            r.wf(),
            r.view() == views(paths@).to_set(),
    {
        let mut r = LikeSet::new();
        let mut i: usize = 0;
        while i < paths.len()
            invariant
                i <= paths@.len(),
                r.wf(),
                r.view() == views(paths@).subrange(0, i as int).to_set(),
            decreases paths@.len() - i,
        {
            let p = paths[i].as_str();
            if !r.contains(p) {
                r.toggle(p);
            }
            proof {
                let v = views(paths@);
                assert(v.subrange(0, i + 1).to_set() =~= v.subrange(0, i as int).to_set().insert(v[i as int])) by {
                    assert(v.subrange(0, i + 1) =~= v.subrange(0, i as int).push(v[i as int]));
                    v.subrange(0, i as int).lemma_push_to_set_commute(v[i as int]);
                }
            }
            i = i + 1;
        }
        assert(views(paths@).subrange(0, i as int) =~= views(paths@));
        r
    }
}

/// Toggling a path twice gives back the set it started from, and each
/// toggle leaves the path liked exactly when it was not before.
pub proof fn lemma_toggle_twice(s: Set<Seq<char>>, p: Seq<char>)
    ensures
        toggled(toggled(s, p), p) == s,
        toggled(s, p).contains(p) == !s.contains(p),
        toggled(toggled(s, p), p).contains(p) == s.contains(p),
{
    assert(toggled(toggled(s, p), p) =~= s);
}

} // verus!
