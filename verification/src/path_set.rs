use vstd::prelude::*;

use crate::path::{
    components, is_under, law_components_are_well_formed, moved, remap_path, well_formed, FilePath,
    PathText, PathView,
};

verus! {

/// The views of a list of paths.
pub open spec fn views(paths: Seq<FilePath>) -> Seq<PathView> {
    paths.map_values(|path: FilePath| path@)
}

/// A list of paths as they were given.
pub open spec fn given(paths: Seq<FilePath>) -> Seq<PathText> {
    paths.map_values(|path: FilePath| path.text())
}

/// The components of each path of a list.
pub open spec fn read(texts: Seq<PathText>) -> Seq<PathView> {
    texts.map_values(|text: PathText| components(text))
}

/// The members of `set` that lie neither at `base` nor below it.
pub open spec fn members_outside(set: Set<PathView>, base: PathView) -> Set<PathView> {
    set.filter(|path: PathView| !is_under(path, base))
}

/// The members of `set` after `from` has become `to`.
pub open spec fn members_moved(set: Set<PathView>, from: PathView, to: PathView) -> Set<PathView> {
    set.map(|path: PathView| moved(path, from, to))
}

/// A set of paths.
pub struct PathSet {
    paths: Vec<FilePath>,
}

impl View for PathSet {
    type V = Set<PathView>;

    closed spec fn view(&self) -> Set<PathView> {
        views(self.paths@).to_set()
    }
}

proof fn lemma_push(paths: Seq<FilePath>, path: FilePath)
    ensures
        views(paths.push(path)) == views(paths).push(path@),
        views(paths.push(path)).to_set() == views(paths).to_set().insert(path@),
        views(paths).no_duplicates() && !views(paths).contains(path@) ==> views(
            paths.push(path),
        ).no_duplicates(),
{
    assert(views(paths.push(path)) =~= views(paths).push(path@));
    views(paths).lemma_push_to_set_commute(path@);
}

impl PathSet {
    #[verifier::type_invariant]
    spec fn inv(self) -> bool {
        views(self.paths@).no_duplicates()
    }

    /// The set without members.
    pub fn new() -> (set: PathSet)
        ensures
            set@ == Set::<PathView>::empty(),
    {
        let set = PathSet { paths: Vec::new() };
        assert(set@ =~= Set::<PathView>::empty());
        set
    }

    fn position(&self, path: &FilePath) -> (found: Option<usize>)
        ensures
            found matches Some(i) ==> i < self.paths.len() && self.paths@[i as int]@ == path@,
            found is Some == self@.contains(path@),
    {
        let mut i: usize = 0;
        while i < self.paths.len()
            invariant
                i <= self.paths.len(),
                forall|k: int| 0 <= k < i ==> views(self.paths@)[k] != path@,
            decreases self.paths.len() - i,
        {
            if self.paths[i].same(path) {
                assert(views(self.paths@)[i as int] == path@);
                return Some(i);
            }
            i += 1;
        }
        None
    }

    /// Whether `path` is a member.
    pub fn contains(&self, path: &FilePath) -> (member: bool)
        ensures
            member == self@.contains(path@),
    {
        self.position(path).is_some()
    }

    pub proof fn lemma_finite(&self)
        ensures
            self@.finite(),
    {
        vstd::seq_lib::seq_to_set_is_finite(views(self.paths@));
    }

    /// Every member has the components that a path can have.
    pub proof fn law_members_are_paths(&self)
        ensures
            forall|path: PathView| #[trigger] self@.contains(path) ==> well_formed(path),
    {
        let all = views(self.paths@);
        assert forall|path: PathView| #[trigger] self@.contains(path) implies well_formed(path) by {
            let i = choose|i: int| 0 <= i < all.len() && all[i] == path;
            assert(all[i] == self.paths@[i]@);
            law_components_are_well_formed(self.paths@[i].text());
        }
    }

    /// How many members the set has.
    pub fn len(&self) -> (count: usize)
        ensures
            count == self@.len(),
    {
        proof {
            use_type_invariant(self);
            views(self.paths@).unique_seq_to_set();
        }
        self.paths.len()
    }

    /// Whether the set has no member.
    pub fn is_empty(&self) -> (empty: bool)
        ensures
            empty == (self@ == Set::<PathView>::empty()),
    {
        let empty = self.paths.len() == 0;
        if empty {
            assert(self@ =~= Set::<PathView>::empty());
        } else {
            assert(views(self.paths@)[0] == self.paths@[0]@);
            assert(self@.contains(self.paths@[0]@));
        }
        empty
    }

    /// Some member, where there is one.
    pub fn any(&self) -> (member: Option<FilePath>)
        ensures
            member matches Some(path) ==> self@.contains(path@),
            member is None == (self@ == Set::<PathView>::empty()),
    {
        if self.is_empty() {
            None
        } else {
            assert(self.paths.len() > 0) by {
                if self.paths.len() == 0 {
                    assert(self@ =~= Set::<PathView>::empty());
                }
            }
            assert(views(self.paths@)[0] == self.paths@[0]@);
            Some(self.paths[0].clone())
        }
    }

    /// Adds `path`, and says whether it was not a member before.
    pub fn insert(&mut self, path: FilePath) -> (added: bool)
        ensures
            final(self)@ == old(self)@.insert(path@),
            added == !old(self)@.contains(path@),
    {
        proof {
            use_type_invariant(&*self);
        }
        if self.contains(&path) {
            assert(self@ =~= self@.insert(path@));
            return false;
        }
        let mut paths: Vec<FilePath> = Vec::new();
        std::mem::swap(&mut paths, &mut self.paths);
        proof {
            lemma_push(paths@, path);
        }
        paths.push(path);
        self.paths = paths;
        true
    }

    /// Takes `path` out, and says whether it was a member.
    pub fn remove(&mut self, path: &FilePath) -> (removed: bool)
        ensures
            final(self)@ == old(self)@.remove(path@),
            removed == old(self)@.contains(path@),
    {
        proof {
            use_type_invariant(&*self);
        }
        match self.position(path) {
            None => {
                assert(self@ =~= self@.remove(path@));
                false
            },
            Some(i) => {
                let ghost before = self.paths@;
                let mut paths: Vec<FilePath> = Vec::new();
                std::mem::swap(&mut paths, &mut self.paths);
                let _ = paths.remove(i);
                proof {
                    assert(paths@ == before.remove(i as int));
                    assert(views(paths@) =~= views(before).remove(i as int));
                    assert(views(before)[i as int] == path@);
                    assert forall|p: PathView| views(paths@).to_set().contains(p) == views(
                        before,
                    ).to_set().remove(path@).contains(p) by {
                        if views(before).contains(p) && p != path@ {
                            let k = choose|k: int|
                                0 <= k < before.len() && views(before)[k] == p;
                            if k < i {
                                assert(views(paths@)[k] == p);
                            } else {
                                assert(views(paths@)[k - 1] == p);
                            }
                        }
                        if views(paths@).contains(p) {
                            let k = choose|k: int|
                                0 <= k < paths@.len() && views(paths@)[k] == p;
                            if k < i {
                                assert(views(before)[k] == p);
                                assert(views(before)[k] != views(before)[i as int]);
                            } else {
                                assert(views(before)[k + 1] == p);
                                assert(views(before)[k + 1] != views(before)[i as int]);
                            }
                        }
                    }
                    assert(views(paths@).to_set() =~= views(before).to_set().remove(path@));
                }
                self.paths = paths;
                true
            },
        }
    }

    /// The members, each once.
    pub fn to_vec(&self) -> (paths: Vec<FilePath>)
        ensures
            views(paths@).to_set() == self@,
            views(paths@).no_duplicates(),
    {
        proof {
            use_type_invariant(self);
        }
        let paths = clone_paths(&self.paths);
        assert(views(paths@) =~= views(self.paths@));
        paths
    }

    /// Drops every member that is `base` or lies below it.
    pub fn remove_under(&mut self, base: &FilePath)
        ensures
            final(self)@ == members_outside(old(self)@, base@),
    {
        let paths = self.to_vec();
        let mut kept = PathSet::new();
        let ghost keep = |path: PathView| !is_under(path, base@);
        let mut i: usize = 0;
        while i < paths.len()
            invariant
                i <= paths.len(),
                keep == (|path: PathView| !is_under(path, base@)),
                kept@ == views(paths@).take(i as int).to_set().filter(keep),
            decreases paths.len() - i,
        {
            proof {
                lemma_take_one(views(paths@), i as int);
                let old_set = views(paths@).take(i as int).to_set();
                let next = paths@[i as int]@;
                assert(views(paths@)[i as int] == next);
                if keep(next) {
                    assert(old_set.insert(next).filter(keep) =~= old_set.filter(keep).insert(
                        next,
                    ));
                } else {
                    assert(old_set.insert(next).filter(keep) =~= old_set.filter(keep));
                }
            }
            if !paths[i].starts_with(base) {
                let _ = kept.insert(paths[i].clone());
            }
            i += 1;
        }
        assert(views(paths@).take(i as int) =~= views(paths@));
        *self = kept;
    }

    /// Drops every member that `others` does not have.
    pub fn intersect(&mut self, others: &PathSet)
        ensures
            final(self)@ == old(self)@.intersect(others@),
    {
        let paths = self.to_vec();
        let mut kept = PathSet::new();
        assert(views(paths@).take(0).to_set().intersect(others@) =~= Set::empty());
        let mut i: usize = 0;
        while i < paths.len()
            invariant
                i <= paths.len(),
                kept@ == views(paths@).take(i as int).to_set().intersect(others@),
            decreases paths.len() - i,
        {
            proof {
                lemma_take_one(views(paths@), i as int);
                let old_set = views(paths@).take(i as int).to_set();
                let next = paths@[i as int]@;
                assert(views(paths@)[i as int] == next);
                if others@.contains(next) {
                    assert(old_set.insert(next).intersect(others@) =~= old_set.intersect(
                        others@,
                    ).insert(next));
                } else {
                    assert(old_set.insert(next).intersect(others@) =~= old_set.intersect(
                        others@,
                    ));
                }
            }
            if others.contains(&paths[i]) {
                let _ = kept.insert(paths[i].clone());
            }
            i += 1;
        }
        assert(views(paths@).take(i as int) =~= views(paths@));
        *self = kept;
    }

    /// Lets every member follow `old_path` to `new_path`.
    pub fn remap(&mut self, old_path: &FilePath, new_path: &FilePath)
        ensures
            final(self)@ == members_moved(old(self)@, old_path@, new_path@),
    {
        let paths = self.to_vec();
        let mut there = PathSet::new();
        let ghost follow = |path: PathView| moved(path, old_path@, new_path@);
        assert(views(paths@).take(0).to_set().map(follow) =~= Set::empty());
        let mut i: usize = 0;
        while i < paths.len()
            invariant
                i <= paths.len(),
                follow == (|path: PathView| moved(path, old_path@, new_path@)),
                there@ == views(paths@).take(i as int).to_set().map(follow),
            decreases paths.len() - i,
        {
            let ghost next = paths@[i as int]@;
            proof {
                lemma_take_one(views(paths@), i as int);
                assert(views(paths@)[i as int] == next);
                lemma_map_insert(views(paths@).take(i as int).to_set(), next, follow);
            }
            match remap_path(&paths[i], old_path, new_path) {
                Some(target) => {
                    let _ = there.insert(target);
                },
                None => {
                    let _ = there.insert(paths[i].clone());
                },
            }
            i += 1;
        }
        assert(views(paths@).take(i as int) =~= views(paths@));
        *self = there;
    }
}

pub(crate) proof fn lemma_map_insert(set: Set<PathView>, next: PathView, follow: spec_fn(PathView) -> PathView)
    ensures
        set.insert(next).map(follow) == set.map(follow).insert(follow(next)),
{
    assert forall|p: PathView| set.insert(next).map(follow).contains(p) == set.map(follow).insert(
        follow(next),
    ).contains(p) by {
        if set.map(follow).contains(p) {
            let q = choose|q: PathView| set.contains(q) && p == follow(q);
            assert(set.insert(next).contains(q));
        }
        if p == follow(next) {
            assert(set.insert(next).contains(next));
        }
        if set.insert(next).map(follow).contains(p) {
            let q = choose|q: PathView| set.insert(next).contains(q) && p == follow(q);
            if q != next {
                assert(set.contains(q));
            }
        }
    }
    assert(set.insert(next).map(follow) =~= set.map(follow).insert(follow(next)));
}

proof fn lemma_take_one(paths: Seq<PathView>, i: int)
    requires
        0 <= i < paths.len(),
    ensures
        paths.take(i + 1).to_set() == paths.take(i).to_set().insert(paths[i]),
{
    paths.take(i).lemma_push_to_set_commute(paths[i]);
    assert(paths.take(i + 1) =~= paths.take(i).push(paths[i]));
}

/// Copies a list of paths.
pub fn clone_paths(paths: &Vec<FilePath>) -> (copy: Vec<FilePath>)
    ensures
        given(copy@) == given(paths@),
        views(copy@) == views(paths@),
{
    let mut copy: Vec<FilePath> = Vec::new();
    let mut i: usize = 0;
    while i < paths.len()
        invariant
            i <= paths.len(),
            given(copy@) == given(paths@).take(i as int),
            views(copy@) == views(paths@).take(i as int),
        decreases paths.len() - i,
    {
        let ghost before = views(copy@);
        let ghost so_far = given(copy@);
        copy.push(paths[i].clone());
        assert(given(copy@) =~= so_far.push(paths@[i as int].text()));
        assert(given(copy@) =~= given(paths@).take(i + 1));
        assert(views(copy@) =~= before.push(paths@[i as int]@));
        assert(views(copy@) =~= views(paths@).take(i + 1));
        i += 1;
    }
    assert(given(copy@) =~= given(paths@));
    assert(views(copy@) =~= views(paths@));
    copy
}

impl Clone for PathSet {
    fn clone(&self) -> (copy: PathSet)
        ensures
            copy@ == self@,
    {
        let paths = self.to_vec();
        PathSet { paths }
    }
}

} // verus!
