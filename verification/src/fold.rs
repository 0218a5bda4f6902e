use vstd::prelude::*;

use crate::path::{
    all_names, all_text, inside, is_name, is_text_inside, is_under, lemma_name_is_no_root, moved,
    remap_path, remapped, FilePath, PathView,
};
use crate::path_set::{lemma_map_insert, members_moved, members_outside, views, PathSet};
use crate::table::Table;

verus! {

/// The paths, seen from `root`, of the members of `set` that lie plainly
/// inside it and are text.
pub open spec fn relatives(set: Set<PathView>, root: PathView) -> Set<PathView> {
    Set::new(|rest: PathView| is_recordable(rest) && set.contains(root + rest))
}

/// The expanded directories of every worktree, as they are kept between
/// sessions: under the worktree's key, each directory relative to its root.
pub struct FoldState {
    worktrees: Table<String, PathSet>,
}

/// What became of the wish to record a directory.
#[derive(Clone, Copy, Debug, PartialEq, Eq, Structural)]
pub enum SetExpanded {
    Changed,
    Unchanged,
    /// The path does not lie plainly inside the worktree, or is no text.
    Refused,
}

/// What is recorded for a worktree after `set` was expanded or collapsed.
pub open spec fn recorded_after(
    recorded: Set<PathView>,
    set: Set<PathView>,
    root: PathView,
    expanded: bool,
) -> Set<PathView> {
    if expanded {
        recorded.union(relatives(set, root))
    } else {
        recorded.difference(relatives(set, root))
    }
}

proof fn lemma_relative_of_one(path: PathView, root: PathView)
    ensures
        records(root, path) ==> relatives(set![path], root) == set![path.skip(root.len() as int)],
        !records(root, path) ==> relatives(set![path], root) == Set::<PathView>::empty(),
{
    let all = relatives(set![path], root);
    if records(root, path) {
        let rest = path.skip(root.len() as int);
        assert(path =~= root + rest);
        assert forall|r: PathView| all.contains(r) == set![rest].contains(r) by {
            if all.contains(r) {
                assert((root + r).skip(root.len() as int) =~= r);
            }
        }
        assert(all =~= set![rest]);
    } else {
        assert forall|r: PathView| !all.contains(r) by {
            if all.contains(r) {
                assert(path == root + r);
                assert(path.take(root.len() as int) =~= root);
                assert(path.skip(root.len() as int) =~= r);
            }
        }
        assert(all =~= Set::<PathView>::empty());
    }
}

impl FoldState {
    #[verifier::type_invariant]
    spec fn inv(self) -> bool {
        forall|key: Seq<char>, rest: PathView|
            self.worktrees@.contains_key(key) && #[trigger] self.worktrees@[key]@.contains(rest)
                ==> is_recordable(rest)
    }

    /// The directories recorded under `key`.
    pub closed spec fn recorded(self, key: Seq<char>) -> Set<PathView> {
        if self.worktrees@.contains_key(key) {
            self.worktrees@[key]@
        } else {
            Set::empty()
        }
    }

    /// Nothing recorded.
    pub fn new() -> (state: FoldState)
        ensures
            forall|key: Seq<char>| #[trigger] state.recorded(key) == Set::<PathView>::empty(),
    {
        FoldState { worktrees: Table::new() }
    }

    /// The directories recorded under `key`, relative to the worktree's root.
    pub fn expanded_dirs(&self, key: &String) -> (dirs: PathSet)
        ensures
            dirs@ == self.recorded(key@),
            forall|rest: PathView| #[trigger] dirs@.contains(rest) ==> is_recordable(rest),
    {
        proof {
            use_type_invariant(self);
        }
        match self.worktrees.get(key) {
            Some(dirs) => dirs.clone(),
            None => PathSet::new(),
        }
    }

    fn put(&mut self, key: &String, dirs: PathSet)
        requires
            forall|rest: PathView| #[trigger] dirs@.contains(rest) ==> is_recordable(rest),
        ensures
            forall|other: Seq<char>| #[trigger]
                final(self).recorded(other) == if other == key@ {
                    dirs@
                } else {
                    old(self).recorded(other)
                },
    {
        proof {
            use_type_invariant(&*self);
        }
        let mut worktrees: Table<String, PathSet> = Table::new();
        std::mem::swap(&mut worktrees, &mut self.worktrees);
        worktrees.insert(key.clone(), dirs);
        self.worktrees = worktrees;
    }

    /// Records one directory of the worktree at `root` as expanded or
    /// collapsed.
    pub fn set_expanded_with_key(
        &mut self,
        key: &String,
        root: &FilePath,
        path: &FilePath,
        expanded: bool,
    ) -> (outcome: SetExpanded)
        ensures
            outcome is Refused == !records(root@, path@),
            outcome is Changed == (final(self).recorded(key@) != old(self).recorded(key@)),
            forall|other: Seq<char>| #[trigger]
                final(self).recorded(other) == if other == key@ {
                    recorded_after(old(self).recorded(key@), set![path@], root@, expanded)
                } else {
                    old(self).recorded(other)
                },
    {
        let ghost before = self.recorded(key@);
        proof {
            lemma_relative_of_one(path@, root@);
        }
        if !is_text_inside(root, path) {
            assert(recorded_after(before, set![path@], root@, expanded) =~= before);
            return SetExpanded::Refused;
        }
        let rest = match path.strip_prefix(root) {
            Some(rest) => rest,
            None => {
                return SetExpanded::Refused;
            },
        };
        let mut dirs = self.expanded_dirs(key);
        let changed = if expanded {
            dirs.insert(rest.clone())
        } else {
            dirs.remove(&rest)
        };
        proof {
            let after = recorded_after(before, set![path@], root@, expanded);
            assert(dirs@ =~= after);
            if changed {
                assert(before.contains(rest@) != after.contains(rest@));
            } else {
                assert(after =~= before);
            }
        }
        if changed {
            self.put(key, dirs);
            SetExpanded::Changed
        } else {
            SetExpanded::Unchanged
        }
    }

    /// Forgets everything recorded under `key`, and says whether there was
    /// anything.
    pub fn clear_worktree_with_key(&mut self, key: &String) -> (changed: bool)
        ensures
            changed == (old(self).recorded(key@) != Set::<PathView>::empty()),
            forall|other: Seq<char>| #[trigger]
                final(self).recorded(other) == if other == key@ {
                    Set::empty()
                } else {
                    old(self).recorded(other)
                },
    {
        proof {
            use_type_invariant(&*self);
        }
        let changed = !self.expanded_dirs(key).is_empty();
        let mut worktrees: Table<String, PathSet> = Table::new();
        std::mem::swap(&mut worktrees, &mut self.worktrees);
        let _ = worktrees.remove(key);
        self.worktrees = worktrees;
        changed
    }

    /// Forgets the directories recorded under `key` that are not among
    /// `dirs`, and says whether there were any.
    pub fn prune_missing_dirs_with_key(&mut self, key: &String, root: &FilePath, dirs: &PathSet)
        -> (changed: bool)
        ensures
            changed == (final(self).recorded(key@) != old(self).recorded(key@)),
            forall|other: Seq<char>| #[trigger]
                final(self).recorded(other) == if other == key@ {
                    old(self).recorded(key@).filter(
                        |rest: PathView| dirs@.contains(crate::path::join(root@, rest)),
                    )
                } else {
                    old(self).recorded(other)
                },
    {
        let ghost before = self.recorded(key@);
        let ghost keep = |rest: PathView| dirs@.contains(crate::path::join(root@, rest));
        let all = self.expanded_dirs(key).to_vec();
        let mut kept = PathSet::new();
        assert(views(all@).take(0).to_set().filter(keep) =~= Set::<PathView>::empty());
        let mut i: usize = 0;
        while i < all.len()
            invariant
                i <= all.len(),
                keep == (|rest: PathView| dirs@.contains(crate::path::join(root@, rest))),
                kept@ == views(all@).take(i as int).to_set().filter(keep),
            decreases all.len() - i,
        {
            proof {
                let next = all@[i as int]@;
                let so_far = views(all@).take(i as int);
                assert(views(all@)[i as int] == next);
                assert(views(all@).take(i + 1) =~= so_far.push(next));
                so_far.lemma_push_to_set_commute(next);
                if keep(next) {
                    assert(so_far.to_set().insert(next).filter(keep) =~= so_far.to_set().filter(
                        keep,
                    ).insert(next));
                } else {
                    assert(so_far.to_set().insert(next).filter(keep) =~= so_far.to_set().filter(
                        keep,
                    ));
                }
            }
            if dirs.contains(&root.join(&all[i])) {
                let _ = kept.insert(all[i].clone());
            }
            i += 1;
        }
        assert(views(all@).take(i as int) =~= views(all@));
        let changed = kept.len() != all.len();
        proof {
            views(all@).unique_seq_to_set();
            if !changed {
                vstd::set_lib::lemma_subset_equality(kept@, before);
            }
        }
        self.put(key, kept);
        changed
    }
}

/// Which directories of a tree are expanded, on screen and as recorded.
pub struct TreeFold {
    pub root: FilePath,
    /// The key that the worktree is recorded under, where it has one.
    pub root_key: Option<String>,
    pub expanded: PathSet,
    pub saved: FoldState,
    /// The keys whose records were changed here and are to be written.
    pub owned: Table<String, ()>,
}

/// What is recorded under a key; nothing under none.
pub open spec fn recorded_under(saved: FoldState, root_key: Option<String>) -> Set<PathView> {
    match root_key {
        Some(key) => saved.recorded(key@),
        None => Set::empty(),
    }
}

/// The directories between `root` and `path`, neither of them among them.
pub open spec fn between(root: PathView, path: PathView) -> Set<PathView> {
    Set::new(
        |dir: PathView|
            root.len() < dir.len() < path.len() && is_under(dir, root) && is_under(path, dir),
    )
}

/// The expanded directories at `dir` and below it.
pub open spec fn expanded_under(expanded: Set<PathView>, dir: PathView) -> Set<PathView> {
    expanded.filter(|path: PathView| is_under(path, dir))
}

impl TreeFold {
    /// What is recorded for this worktree.
    pub open spec fn recorded_here(self) -> Set<PathView> {
        recorded_under(self.saved, self.root_key)
    }

    /// What is recorded for this worktree after `set` was expanded or
    /// collapsed.
    pub open spec fn recorded_with(self, set: Set<PathView>, expanded: bool) -> Set<PathView> {
        match self.root_key {
            Some(key) => recorded_after(self.saved.recorded(key@), set, self.root@, expanded),
            None => Set::empty(),
        }
    }

    /// Whether the record says what is on screen, as far as a record can.
    pub open spec fn in_step(self) -> bool {
        self.root_key is Some ==> self.recorded_here() == relatives(self.expanded@, self.root@)
    }

    /// Whether `next` is this tree with other directories expanded: the
    /// records of other worktrees are as they were, and this worktree's is to
    /// be written exactly where `persist` says so.
    pub open spec fn steps_to(self, next: TreeFold, persist: bool) -> bool {
        &&& next.root == self.root
        &&& next.root_key == self.root_key
        &&& forall|other: Seq<char>|
            !(self.root_key matches Some(key) && key@ == other)
                ==> #[trigger] next.saved.recorded(other) == self.saved.recorded(other)
        &&& persist ==> self.root_key is Some
        &&& next.owned@.dom() == match self.root_key {
            Some(key) if persist => self.owned@.dom().insert(key@),
            _ => self.owned@.dom(),
        }
    }

    /// Whether a directory cannot be recorded here, so that it is expanded or
    /// collapsed on screen alone.
    pub fn refuses(&self, path: &FilePath) -> (refused: bool)
        ensures
            refused == !(self.root_key is Some && records(self.root@, path@)),
    {
        self.root_key.is_none() || !is_text_inside(&self.root, path)
    }

    /// Records one directory as expanded or collapsed, on screen and for the
    /// next session. Says whether the record changed.
    pub fn record_dir_expanded(&mut self, path: &FilePath, expanded: bool) -> (persist: bool)
        ensures
            old(self).steps_to(*final(self), persist),
            final(self).expanded@ == if expanded {
                old(self).expanded@.insert(path@)
            } else {
                old(self).expanded@.remove(path@)
            },
            final(self).recorded_here() == old(self).recorded_with(set![path@], expanded),
            persist == (final(self).recorded_here() != old(self).recorded_here()),
    {
        if expanded {
            let _ = self.expanded.insert(path.clone());
        } else {
            let _ = self.expanded.remove(path);
        }
        match &self.root_key {
            Some(key) => {
                let outcome = self.saved.set_expanded_with_key(key, &self.root, path, expanded);
                if outcome == SetExpanded::Changed {
                    self.owned.insert(key.clone(), ());
                    assert(self.owned@.dom() =~= old(self).owned@.dom().insert(key@));
                    true
                } else {
                    false
                }
            },
            None => false,
        }
    }

    /// Expands or collapses one directory. Says whether the record has to be
    /// written.
    pub fn set_dir_expanded(&mut self, path: &FilePath, expanded: bool) -> (persist: bool)
        ensures
            old(self).steps_to(*final(self), persist),
            final(self).expanded@ == if expanded {
                old(self).expanded@.insert(path@)
            } else {
                old(self).expanded@.remove(path@)
            },
            final(self).recorded_here() == old(self).recorded_with(set![path@], expanded),
            persist == (final(self).recorded_here() != old(self).recorded_here()),
    {
        self.record_dir_expanded(path, expanded)
    }

    /// Expands a collapsed directory, and collapses an expanded one.
    pub fn toggle_dir_expanded(&mut self, path: &FilePath) -> (persist: bool)
        ensures
            old(self).steps_to(*final(self), persist),
            final(self).expanded@ == toggled(old(self).expanded@, path@),
            final(self).recorded_here() == old(self).recorded_with(
                set![path@],
                !old(self).expanded@.contains(path@),
            ),
            persist == (final(self).recorded_here() != old(self).recorded_here()),
    {
        let expanded = !self.expanded.contains(path);
        self.set_dir_expanded(path, expanded)
    }

    /// Collapses every directory, and forgets the record with them.
    pub fn collapse_all_dirs(&mut self) -> (persist: bool)
        ensures
            old(self).steps_to(*final(self), persist),
            final(self).expanded@ == Set::<PathView>::empty(),
            final(self).recorded_here() == Set::<PathView>::empty(),
            persist == (final(self).recorded_here() != old(self).recorded_here()),
    {
        self.expanded = PathSet::new();
        match &self.root_key {
            Some(key) => {
                if self.saved.clear_worktree_with_key(key) {
                    self.owned.insert(key.clone(), ());
                    assert(self.owned@.dom() =~= old(self).owned@.dom().insert(key@));
                    true
                } else {
                    false
                }
            },
            None => false,
        }
    }

    /// Whether `next` is this tree with `path` revealed.
    pub open spec fn revealed(self, next: TreeFold, path: PathView, persist: bool) -> bool {
        &&& self.steps_to(next, persist)
        &&& next.expanded@ == self.expanded@.union(between(self.root@, path))
        &&& next.recorded_here() == self.recorded_with(between(self.root@, path), true)
        &&& persist == (next.recorded_here() != self.recorded_here())
    }

    /// Expands every directory between the root and `path`, so that `path`'s
    /// row shows.
    pub fn reveal_in_tree(&mut self, path: &FilePath) -> (persist: bool)
        ensures
            old(self).revealed(*final(self), path@, persist),
    {
        let ghost root = self.root@;
        let ghost whole = path@;
        let ghost start = *self;
        let mut changed = false;
        if !path.starts_with(&self.root) {
            proof {
                lemma_nothing_between(root, whole);
                lemma_expand_nothing(start);
                assert(between(root, whole) =~= Set::<PathView>::empty());
            }
            return false;
        }
        let length = path.part_count();
        let mut i: usize = self.root.part_count();
        proof {
            lemma_expand_nothing(start);
            assert(between_up_to(root, whole, i + 1) =~= Set::<PathView>::empty());
            if i == length {
                assert(between(root, whole) =~= Set::<PathView>::empty());
            }
        }
        while i < length && length - i > 1
            invariant
                root == self.root@,
                root == start.root@,
                whole == path@,
                is_under(whole, root),
                length == whole.len(),
                root.len() <= i <= length,
                i + 1 > length ==> between(root, whole) == between_up_to(root, whole, i + 1),
                start.steps_to(*self, changed),
                self.expanded@ == start.expanded@.union(between_up_to(root, whole, i + 1)),
                self.recorded_here() == start.recorded_with(
                    between_up_to(root, whole, i + 1),
                    true,
                ),
                changed == (self.recorded_here() != start.recorded_here()),
            decreases length - i,
        {
            i += 1;
            let dir = path.prefix(i);
            let ghost before = *self;
            let ghost done = between_up_to(root, whole, i as int);
            let ghost next = between_up_to(root, whole, i + 1);
            let step = self.record_dir_expanded(&dir, true);
            proof {
                lemma_steps_chain(start, before, *self, changed, step);
            }
            changed = changed || step;
            proof {
                assert(dir@.take(root.len() as int) =~= whole.take(root.len() as int));
                assert(next =~= done.insert(dir@));
                lemma_relatives_union(done, set![dir@], root);
                assert(done.union(set![dir@]) =~= next);
                assert(start.expanded@.union(done).insert(dir@) =~= start.expanded@.union(next));
                assert(self.recorded_here() =~= start.recorded_with(next, true));
                lemma_growing(start.recorded_here(), before.recorded_here(), self.recorded_here());
            }
        }
        assert(between(root, whole) =~= between_up_to(root, whole, i + 1));
        changed
    }

    /// Collapses `dir` and every expanded directory below it.
    pub fn collapse_subtree(&mut self, dir: &FilePath) -> (persist: bool)
        ensures
            old(self).steps_to(*final(self), persist),
            final(self).expanded@ == members_outside(old(self).expanded@, dir@),
            final(self).recorded_here() == old(self).recorded_with(
                expanded_under(old(self).expanded@, dir@),
                false,
            ),
            persist == (final(self).recorded_here() != old(self).recorded_here()),
    {
        let ghost start = *self;
        let ghost affected = |path: PathView| is_under(path, dir@);
        let all = self.expanded.to_vec();
        let ghost paths = views(all@);
        let mut changed = false;
        proof {
            assert(paths.take(0).to_set().filter(affected) =~= Set::<PathView>::empty());
            lemma_expand_nothing(start);
            assert(start.expanded@.difference(Set::empty()) =~= start.expanded@);
        }
        let mut i: usize = 0;
        while i < all.len()
            invariant
                i <= all.len(),
                paths == views(all@),
                affected == (|path: PathView| is_under(path, dir@)),
                start.steps_to(*self, changed),
                self.expanded@ == start.expanded@.difference(
                    paths.take(i as int).to_set().filter(affected),
                ),
                self.recorded_here() == start.recorded_with(
                    paths.take(i as int).to_set().filter(affected),
                    false,
                ),
                changed == (self.recorded_here() != start.recorded_here()),
            decreases all.len() - i,
        {
            let ghost before = *self;
            let ghost done = paths.take(i as int).to_set().filter(affected);
            let ghost next = paths.take(i + 1).to_set().filter(affected);
            let ghost here = paths[i as int];
            proof {
                assert(paths.take(i + 1) =~= paths.take(i as int).push(here));
                paths.take(i as int).lemma_push_to_set_commute(here);
                if is_under(here, dir@) {
                    assert(next =~= done.insert(here));
                } else {
                    assert(next =~= done);
                }
            }
            if all[i].starts_with(dir) {
                let step = self.record_dir_expanded(&all[i], false);
                proof {
                    lemma_steps_chain(start, before, *self, changed, step);
                }
                changed = changed || step;
                proof {
                    lemma_relatives_union(done, set![here], start.root@);
                    assert(done.union(set![here]) =~= next);
                    assert(start.expanded@.difference(done).remove(here)
                        =~= start.expanded@.difference(next));
                    assert(self.recorded_here() =~= start.recorded_with(next, false));
                    lemma_shrinking(
                        start.recorded_here(),
                        before.recorded_here(),
                        self.recorded_here(),
                    );
                }
            }
            i += 1;
        }
        proof {
            assert(paths.take(i as int) =~= paths);
            assert(self.expanded@ =~= members_outside(start.expanded@, dir@));
        }
        changed
    }

    /// Lets the expanded directories follow a rename. Where the record says
    /// something of them, it follows too.
    pub fn follow_rename(&mut self, old_path: &FilePath, new_path: &FilePath) -> (persist: bool)
        ensures
            old(self).steps_to(*final(self), persist),
            final(self).expanded@ == members_moved(old(self).expanded@, old_path@, new_path@),
            final(self).recorded_here() == old(self).recorded_renamed(old_path@, new_path@),
            persist == old(self).rename_touches_record(old_path@, new_path@),
    {
        let ghost start = *self;
        let all = self.expanded.to_vec();
        let ghost paths = views(all@);
        let removed = self.collapse_subtree(old_path);
        let ghost middle = *self;
        let ghost there = |path: PathView| moved(path, old_path@, new_path@);
        let ghost under = |path: PathView| is_under(path, old_path@);
        let mut added = false;
        proof {
            assert(paths.take(0).to_set().filter(under).map(there) =~= Set::<PathView>::empty());
            lemma_expand_nothing(middle);
            assert(middle.expanded@.union(Set::empty()) =~= middle.expanded@);
        }
        let mut i: usize = 0;
        while i < all.len()
            invariant
                i <= all.len(),
                paths == views(all@),
                there == (|path: PathView| moved(path, old_path@, new_path@)),
                under == (|path: PathView| is_under(path, old_path@)),
                start.steps_to(middle, removed),
                start.steps_to(*self, removed || added),
                middle.steps_to(*self, added),
                self.expanded@ == middle.expanded@.union(
                    paths.take(i as int).to_set().filter(under).map(there),
                ),
                self.recorded_here() == middle.recorded_with(
                    paths.take(i as int).to_set().filter(under).map(there),
                    true,
                ),
                added == (self.recorded_here() != middle.recorded_here()),
            decreases all.len() - i,
        {
            let ghost before = *self;
            let ghost here = paths[i as int];
            let ghost some = paths.take(i as int).to_set().filter(under);
            let ghost more = paths.take(i + 1).to_set().filter(under);
            proof {
                assert(paths.take(i + 1) =~= paths.take(i as int).push(here));
                paths.take(i as int).lemma_push_to_set_commute(here);
                lemma_remapped_is_under(here, old_path@, new_path@);
                if is_under(here, old_path@) {
                    assert(more =~= some.insert(here));
                    lemma_map_insert(some, here, there);
                } else {
                    assert(more =~= some);
                }
            }
            match remap_path(&all[i], old_path, new_path) {
                Some(target) => {
                    let step = self.record_dir_expanded(&target, true);
                    proof {
                        lemma_steps_chain(middle, before, *self, added, step);
                    }
                    added = added || step;
                    proof {
                        lemma_steps_chain(start, middle, *self, removed, added);
                        let done = some.map(there);
                        let next = more.map(there);
                        lemma_relatives_union(done, set![target@], start.root@);
                        assert(done.union(set![target@]) =~= next);
                        assert(middle.expanded@.union(done).insert(target@)
                            =~= middle.expanded@.union(next));
                        assert(self.recorded_here() =~= middle.recorded_with(next, true));
                        lemma_growing(
                            middle.recorded_here(),
                            before.recorded_here(),
                            self.recorded_here(),
                        );
                    }
                },
                None => {},
            }
            i += 1;
        }
        proof {
            assert(paths.take(i as int) =~= paths);
            let affected = expanded_under(start.expanded@, old_path@);
            assert(paths.to_set().filter(under) =~= affected);
            assert(affected.map(there) == members_moved(affected, old_path@, new_path@));
            lemma_moved_split(start.expanded@, old_path@, new_path@);
        }
        removed || added
    }

    /// Forgets the expanded directories that a complete reading of the tree
    /// did not find. An incomplete reading says nothing of what is gone.
    pub fn prune_stale_fold_state(&mut self, dirs: &PathSet, complete: bool) -> (persist: bool)
        ensures
            old(self).steps_to(*final(self), persist),
            !complete || old(self).root_key is None ==> *final(self) == *old(self) && !persist,
            complete && old(self).root_key is Some ==> {
                &&& final(self).expanded@ == old(self).expanded@.intersect(dirs@)
                &&& final(self).recorded_here() == old(self).recorded_here().filter(
                    |rest: PathView|
                        dirs@.contains(crate::path::join(old(self).root@, rest)),
                )
                &&& persist == (final(self).recorded_here() != old(self).recorded_here()
                    || final(self).expanded@ != old(self).expanded@)
            },
    {
        if !complete {
            return false;
        }
        match &self.root_key {
            None => false,
            Some(key) => {
                let pruned = self.saved.prune_missing_dirs_with_key(key, &self.root, dirs);
                let before = self.expanded.len();
                self.expanded.intersect(dirs);
                let fewer = self.expanded.len() != before;
                proof {
                    if !fewer {
                        old(self).expanded.lemma_finite();
                        vstd::set_lib::lemma_subset_equality(
                            self.expanded@,
                            old(self).expanded@,
                        );
                    }
                }
                if pruned || fewer {
                    self.owned.insert(key.clone(), ());
                    assert(self.owned@.dom() =~= old(self).owned@.dom().insert(key@));
                    true
                } else {
                    false
                }
            },
        }
    }

    /// Whether taking the old directories out of the record, or putting the
    /// new ones in, changes it.
    pub open spec fn rename_touches_record(self, old_path: PathView, new_path: PathView) -> bool {
        let without = self.recorded_with(expanded_under(self.expanded@, old_path), false);
        ||| without != self.recorded_here()
        ||| self.recorded_renamed(old_path, new_path) != without
    }

    /// What is recorded after a rename.
    pub open spec fn recorded_renamed(self, old_path: PathView, new_path: PathView) -> Set<
        PathView,
    > {
        let affected = expanded_under(self.expanded@, old_path);
        match self.root_key {
            Some(key) => self.recorded_with(affected, false).union(
                relatives(members_moved(affected, old_path, new_path), self.root@),
            ),
            None => Set::empty(),
        }
    }
}

/// What is expanded again of what was recorded.
pub open spec fn restored(recorded: Set<PathView>, root: PathView) -> Set<PathView> {
    recorded.map(|rest: PathView| crate::path::join(root, rest))
}

/// Whether a path can be recorded: it leads somewhere, by names alone, and is
/// text.
pub open spec fn is_recordable(rest: PathView) -> bool {
    rest.len() > 0 && all_names(rest) && all_text(rest)
}

/// Whether a directory can be recorded for the worktree at `root`.
pub open spec fn records(root: PathView, path: PathView) -> bool {
    inside(root, path) && all_text(path.skip(root.len() as int))
}

proof fn lemma_join_names(root: PathView, rest: PathView)
    requires
        is_recordable(rest),
    ensures
        crate::path::join(root, rest) == root + rest,
{
    assert(is_name(rest[0]));
    lemma_name_is_no_root(rest[0]);
    assert(crate::path::join(root, rest) =~= root + rest);
}

impl TreeFold {
    /// The tree at `root` with the directories expanded that were recorded for
    /// it: none where it was never opened before.
    pub fn restore(root: FilePath, root_key: Option<String>, saved: FoldState) -> (fold: TreeFold)
        ensures
            fold.root == root,
            fold.root_key == root_key,
            fold.saved == saved,
            fold.owned@ == Map::<Seq<char>, ()>::empty(),
            fold.expanded@ == restored(fold.recorded_here(), root@),
            fold.in_step(),
    {
        let mut expanded = PathSet::new();
        let ghost recorded = recorded_under(saved, root_key);
        let ghost there = |rest: PathView| crate::path::join(root@, rest);
        match &root_key {
            Some(key) => {
                let all = saved.expanded_dirs(key).to_vec();
                let ghost paths = views(all@);
                proof {
                    assert(paths.take(0).to_set().map(there) =~= Set::<PathView>::empty());
                }
                let mut i: usize = 0;
                while i < all.len()
                    invariant
                        i <= all.len(),
                        paths == views(all@),
                        there == (|rest: PathView| crate::path::join(root@, rest)),
                        expanded@ == paths.take(i as int).to_set().map(there),
                    decreases all.len() - i,
                {
                    proof {
                        let next = paths[i as int];
                        assert(paths.take(i + 1) =~= paths.take(i as int).push(next));
                        paths.take(i as int).lemma_push_to_set_commute(next);
                        lemma_map_insert(paths.take(i as int).to_set(), next, there);
                    }
                    let _ = expanded.insert(root.join(&all[i]));
                    i += 1;
                }
                assert(paths.take(i as int) =~= paths);
            },
            None => {
                assert(restored(Set::empty(), root@) =~= Set::<PathView>::empty());
            },
        }
        let fold = TreeFold { root, root_key, expanded, saved, owned: Table::new() };
        proof {
            if root_key is Some {
                lemma_restored_in_step(recorded, root@);
            }
        }
        fold
    }
}

proof fn lemma_restored_in_step(recorded: Set<PathView>, root: PathView)
    requires
        forall|rest: PathView| #[trigger] recorded.contains(rest) ==> is_recordable(rest),
    ensures
        relatives(restored(recorded, root), root) == recorded,
{
    let there = |rest: PathView| crate::path::join(root, rest);
    let all = relatives(restored(recorded, root), root);
    assert forall|rest: PathView| all.contains(rest) == recorded.contains(rest) by {
        if recorded.contains(rest) {
            lemma_join_names(root, rest);
            assert(restored(recorded, root).contains(there(rest)));
        }
        if all.contains(rest) {
            let other = choose|other: PathView|
                recorded.contains(other) && root + rest == there(other);
            lemma_join_names(root, other);
            assert((root + rest).skip(root.len() as int) =~= rest);
            assert((root + other).skip(root.len() as int) =~= other);
        }
    }
    assert(all =~= recorded);
}

/// What was expanded when the record was written is expanded again when it is
/// read: exactly the same directories, as far as they lie plainly inside the
/// worktree and are text.
pub proof fn law_reload_restores(fold: TreeFold)
    requires
        fold.in_step(),
        fold.root_key is Some,
        forall|path: PathView| #[trigger]
            fold.expanded@.contains(path) ==> records(fold.root@, path),
    ensures
        restored(fold.recorded_here(), fold.root@) == fold.expanded@,
{
    let root = fold.root@;
    let there = |rest: PathView| crate::path::join(root, rest);
    let recorded = fold.recorded_here();
    let result = restored(recorded, root);
    assert forall|path: PathView| result.contains(path) == fold.expanded@.contains(path) by {
        if fold.expanded@.contains(path) {
            let rest = path.skip(root.len() as int);
            assert(path =~= root + rest);
            assert(recorded.contains(rest));
            lemma_join_names(root, rest);
            assert(path == there(rest));
        }
        if result.contains(path) {
            let rest = choose|rest: PathView| recorded.contains(rest) && path == there(rest);
            lemma_join_names(root, rest);
        }
    }
    assert(result =~= fold.expanded@);
}

/// Two changes one after the other are one change.
proof fn lemma_steps_chain(a: TreeFold, b: TreeFold, c: TreeFold, first: bool, second: bool)
    requires
        a.steps_to(b, first),
        b.steps_to(c, second),
    ensures
        a.steps_to(c, first || second),
{
    if first || second {
        let key = a.root_key->0@;
        assert(a.owned@.dom().insert(key).insert(key) =~= a.owned@.dom().insert(key));
    }
    assert forall|other: Seq<char>|
        !(a.root_key matches Some(key) && key@ == other) implies #[trigger] c.saved.recorded(other)
        == a.saved.recorded(other) by {
        assert(b.saved.recorded(other) == a.saved.recorded(other));
    }
}

/// The directories between `root` and `path` with fewer than `limit`
/// components.
spec fn between_up_to(root: PathView, path: PathView, limit: int) -> Set<PathView> {
    between(root, path).filter(|dir: PathView| dir.len() < limit)
}

proof fn lemma_nothing_between(root: PathView, path: PathView)
    requires
        !is_under(path, root),
    ensures
        between(root, path) == Set::<PathView>::empty(),
{
    assert forall|dir: PathView| !between(root, path).contains(dir) by {
        if between(root, path).contains(dir) {
            assert(path.take(root.len() as int) =~= dir.take(root.len() as int));
        }
    }
    assert(between(root, path) =~= Set::<PathView>::empty());
}

proof fn lemma_expand_nothing(fold: TreeFold)
    ensures
        relatives(Set::empty(), fold.root@) == Set::<PathView>::empty(),
        fold.recorded_with(Set::empty(), true) == fold.recorded_here(),
        fold.recorded_with(Set::empty(), false) == fold.recorded_here(),
        fold.expanded@.union(Set::empty()) == fold.expanded@,
{
    assert(relatives(Set::empty(), fold.root@) =~= Set::<PathView>::empty());
    assert(fold.recorded_with(Set::empty(), true) =~= fold.recorded_here());
    assert(fold.recorded_with(Set::empty(), false) =~= fold.recorded_here());
    assert(fold.expanded@.union(Set::empty()) =~= fold.expanded@);
}

proof fn lemma_relatives_union(a: Set<PathView>, b: Set<PathView>, root: PathView)
    ensures
        relatives(a.union(b), root) == relatives(a, root).union(relatives(b, root)),
{
    assert(relatives(a.union(b), root) =~= relatives(a, root).union(relatives(b, root)));
}

/// A set that only grows differs from its start from its first change on.
proof fn lemma_growing(start: Set<PathView>, before: Set<PathView>, after: Set<PathView>)
    requires
        start.subset_of(before),
        before.subset_of(after),
    ensures
        (after != start) == (before != start || after != before),
{
    if after == start {
        assert(before =~= start);
    }
}

/// A set that only shrinks differs from its start from its first change on.
proof fn lemma_shrinking(start: Set<PathView>, before: Set<PathView>, after: Set<PathView>)
    requires
        before.subset_of(start),
        after.subset_of(before),
    ensures
        (after != start) == (before != start || after != before),
{
    if after == start {
        assert(before =~= start);
    }
}

proof fn lemma_remapped_is_under(path: PathView, from: PathView, to: PathView)
    ensures
        remapped(path, from, to) is Some == is_under(path, from),
{
    if path == from {
        assert(path.take(from.len() as int) =~= from);
    }
}

/// What follows a rename is what lay elsewhere and what lay there, moved.
proof fn lemma_moved_split(set: Set<PathView>, from: PathView, to: PathView)
    ensures
        members_moved(set, from, to) == members_outside(set, from).union(
            members_moved(expanded_under(set, from), from, to),
        ),
{
    let follow = |path: PathView| moved(path, from, to);
    let under = expanded_under(set, from);
    let outside = members_outside(set, from);
    let all = members_moved(set, from, to);
    assert forall|p: PathView| all.contains(p) == outside.union(under.map(follow)).contains(p) by {
        if all.contains(p) {
            let q = choose|q: PathView| set.contains(q) && p == follow(q);
            lemma_remapped_is_under(q, from, to);
            if is_under(q, from) {
                assert(under.contains(q));
            } else {
                assert(outside.contains(q));
            }
        }
        if outside.contains(p) {
            lemma_remapped_is_under(p, from, to);
            assert(p == follow(p));
        }
        if under.map(follow).contains(p) {
            let q = choose|q: PathView| under.contains(q) && p == follow(q);
            assert(set.contains(q));
        }
    }
    assert(all =~= outside.union(under.map(follow)));
}

/// Expanding and collapsing keeps the record in step with the screen: where
/// the record said what was on screen, it does so afterwards.
pub proof fn law_record_stays_in_step(
    before: TreeFold,
    after: TreeFold,
    set: Set<PathView>,
    expanded: bool,
    persist: bool,
)
    requires
        before.in_step(),
        before.steps_to(after, persist),
        after.expanded@ == if expanded {
            before.expanded@.union(set)
        } else {
            before.expanded@.difference(set)
        },
        after.recorded_here() == before.recorded_with(set, expanded),
    ensures
        after.in_step(),
{
    assert(relatives(before.expanded@.union(set), before.root@) =~= relatives(
        before.expanded@,
        before.root@,
    ).union(relatives(set, before.root@)));
    assert(relatives(before.expanded@.difference(set), before.root@) =~= relatives(
        before.expanded@,
        before.root@,
    ).difference(relatives(set, before.root@)));
}

/// A rename keeps the record in step with the screen.
pub proof fn law_rename_stays_in_step(
    before: TreeFold,
    after: TreeFold,
    old_path: PathView,
    new_path: PathView,
    persist: bool,
)
    requires
        before.in_step(),
        before.steps_to(after, persist),
        after.expanded@ == members_moved(before.expanded@, old_path, new_path),
        after.recorded_here() == before.recorded_renamed(old_path, new_path),
    ensures
        after.in_step(),
{
    let root = before.root@;
    let under = expanded_under(before.expanded@, old_path);
    let there = members_moved(under, old_path, new_path);
    lemma_moved_split(before.expanded@, old_path, new_path);
    assert(members_outside(before.expanded@, old_path) =~= before.expanded@.difference(under));
    lemma_relatives_union(before.expanded@.difference(under), there, root);
    assert(relatives(before.expanded@.difference(under), root) =~= relatives(
        before.expanded@,
        root,
    ).difference(relatives(under, root)));
}

/// Dropping what is gone keeps the record in step with the screen.
pub proof fn law_prune_stays_in_step(
    before: TreeFold,
    after: TreeFold,
    dirs: Set<PathView>,
    persist: bool,
)
    requires
        before.in_step(),
        before.steps_to(after, persist),
        after.expanded@ == before.expanded@.intersect(dirs),
        after.recorded_here() == before.recorded_here().filter(
            |rest: PathView| dirs.contains(crate::path::join(before.root@, rest)),
        ),
    ensures
        after.in_step(),
{
    let root = before.root@;
    if before.root_key is Some {
        assert forall|rest: PathView| after.recorded_here().contains(rest) == relatives(
            after.expanded@,
            root,
        ).contains(rest) by {
            if is_recordable(rest) {
                lemma_join_names(root, rest);
            }
        }
        assert(after.recorded_here() =~= relatives(after.expanded@, root));
    }
}

/// Expanding a directory and collapsing it again leaves the others as they
/// were, and a collapsed directory collapsed.
pub proof fn law_toggle_dir_twice(expanded: Set<PathView>, path: PathView)
    ensures
        toggled(toggled(expanded, path), path) == expanded,
{
    assert(toggled(toggled(expanded, path), path) =~= expanded);
}

/// The expanded directories after a click on `path`.
pub open spec fn toggled(expanded: Set<PathView>, path: PathView) -> Set<PathView> {
    if expanded.contains(path) {
        expanded.remove(path)
    } else {
        expanded.insert(path)
    }
}

} // verus!
