use vstd::prelude::*;

use crate::fold::{between, TreeFold};
use crate::path::{is_under, FilePath, PathText, PathView};
use crate::path_set::PathSet;

verus! {

/// A file or directory of the tree, in the order in which the tree lists them.
pub struct FileTreeEntry {
    pub path: FilePath,
    pub name: String,
    pub is_dir: bool,
    pub depth: usize,
}

/// The file tree of a worktree.
pub struct FileTree {
    pub fold: TreeFold,
    pub entries: Vec<FileTreeEntry>,
    /// Whether the last reading reached everything.
    pub complete: bool,
    pub error: Option<String>,
}

/// Whether the row of `path` shows: every directory above it is expanded.
pub open spec fn shows(path: PathView, root: PathView, expanded: Set<PathView>) -> bool {
    between(root, path).subset_of(expanded)
}

/// The rows that show, by their place among the entries.
pub open spec fn visible_rows(
    entries: Seq<FileTreeEntry>,
    root: PathView,
    expanded: Set<PathView>,
) -> Seq<int>
    decreases entries.len(),
{
    if entries.len() == 0 {
        seq![]
    } else {
        let before = visible_rows(entries.drop_last(), root, expanded);
        if shows(entries.last().path@, root, expanded) {
            before.push(entries.len() - 1)
        } else {
            before
        }
    }
}

/// The indices of a list, as integers.
pub open spec fn as_ints(indices: Seq<usize>) -> Seq<int> {
    indices.map_values(|i: usize| i as int)
}

/// The paths of the rows that show.
pub open spec fn paths_at(entries: Seq<FileTreeEntry>, rows: Seq<int>) -> Seq<PathView> {
    rows.map_values(|i: int| entries[i].path@)
}

/// The directories among the entries.
pub open spec fn dirs_among(entries: Seq<FileTreeEntry>) -> Set<PathView> {
    Set::new(
        |path: PathView|
            exists|i: int|
                0 <= i < entries.len() && (#[trigger] entries[i]).path@ == path
                    && entries[i].is_dir,
    )
}

/// The first of the entries that is at `path`.
pub open spec fn entry_at(entries: Seq<FileTreeEntry>, path: PathView) -> Option<FileTreeEntry>
    decreases entries.len(),
{
    if entries.len() == 0 {
        None
    } else if entries[0].path@ == path {
        Some(entries[0])
    } else {
        entry_at(entries.skip(1), path)
    }
}

/// The rows that show are those with every directory above them expanded, each
/// once and in the order of the entries.
pub proof fn law_visible_rows(
    entries: Seq<FileTreeEntry>,
    root: PathView,
    expanded: Set<PathView>,
)
    ensures
        forall|a: int, b: int|
            0 <= a < b < visible_rows(entries, root, expanded).len() ==> visible_rows(
                entries,
                root,
                expanded,
            )[a] < visible_rows(entries, root, expanded)[b],
        forall|k: int|
            0 <= k < visible_rows(entries, root, expanded).len() ==> 0 <= (
            #[trigger] visible_rows(entries, root, expanded)[k]) < entries.len(),
        forall|i: int|
            0 <= i < entries.len() ==> (visible_rows(entries, root, expanded).contains(i) <==> shows(
                (#[trigger] entries[i]).path@,
                root,
                expanded,
            )),
    decreases entries.len(),
{
    if entries.len() > 0 {
        let rest = entries.drop_last();
        law_visible_rows(rest, root, expanded);
        let before = visible_rows(rest, root, expanded);
        let all = visible_rows(entries, root, expanded);
        assert forall|k: int| 0 <= k < all.len() implies 0 <= (#[trigger] all[k])
            < entries.len() by {
            if k < before.len() {
                assert(all[k] == before[k]);
            }
        }
        assert forall|i: int| 0 <= i < entries.len() implies (all.contains(i) <==> shows(
            (#[trigger] entries[i]).path@,
            root,
            expanded,
        )) by {
            if i < rest.len() {
                assert(rest[i] == entries[i]);
                if before.contains(i) {
                    let k = choose|k: int| 0 <= k < before.len() && before[k] == i;
                    assert(all[k] == i);
                }
                if all.contains(i) {
                    let k = choose|k: int| 0 <= k < all.len() && all[k] == i;
                    assert(k < before.len());
                    assert(before[k] == i);
                }
            } else {
                if shows(entries[i].path@, root, expanded) {
                    assert(all[before.len() as int] == i);
                }
                if all.contains(i) {
                    let k = choose|k: int| 0 <= k < all.len() && all[k] == i;
                    if k < before.len() {
                        assert(before[k] == i);
                    }
                }
            }
        }
    }
}

impl FileTree {
    pub open spec fn visible(self) -> Seq<int> {
        visible_rows(self.entries@, self.fold.root@, self.fold.expanded@)
    }

    pub open spec fn visible_paths(self) -> Seq<PathView> {
        paths_at(self.entries@, self.visible())
    }

    /// The paths of the rows that show, as the tree has them.
    pub open spec fn visible_texts(self) -> Seq<PathText> {
        self.visible().map_values(|i: int| self.entries@[i].path.text())
    }

    /// A tree that was not read yet.
    pub fn new(fold: TreeFold) -> (tree: FileTree)
        ensures
            tree.fold == fold,
            tree.entries@.len() == 0,
            !tree.complete,
            tree.error is None,
    {
        FileTree { fold, entries: Vec::new(), complete: false, error: None }
    }

    fn row_shows(&self, path: &FilePath) -> (visible: bool)
        ensures
            visible == shows(path@, self.fold.root@, self.fold.expanded@),
    {
        let ghost root = self.fold.root@;
        let ghost whole = path@;
        let start = self.fold.root.part_count();
        let length = path.part_count();
        if length == 0 || !path.starts_with(&self.fold.root) {
            assert forall|dir: PathView| !between(root, whole).contains(dir) by {
                if between(root, whole).contains(dir) {
                    assert(whole.take(root.len() as int) =~= dir.take(root.len() as int));
                }
            }
            return true;
        }
        let mut i: usize = start;
        while i < length - 1
            invariant
                root == self.fold.root@,
                whole == path@,
                is_under(whole, root),
                1 <= length == whole.len(),
                root.len() == start <= i <= length,
                forall|k: int|
                    start < k <= i && k < length ==> self.fold.expanded@.contains(
                        #[trigger] whole.take(k),
                    ),
            decreases length - i,
        {
            i += 1;
            let dir = path.prefix(i);
            if !self.fold.expanded.contains(&dir) {
                assert(dir@.take(root.len() as int) =~= whole.take(root.len() as int));
                assert(between(root, whole).contains(dir@));
                return false;
            }
        }
        assert forall|dir: PathView| between(root, whole).contains(
            dir,
        ) implies self.fold.expanded@.contains(dir) by {
            assert(dir == whole.take(dir.len() as int));
        }
        true
    }

    /// The rows that show, by their place among the entries.
    pub fn visible_indices(&self) -> (indices: Vec<usize>)
        ensures
            as_ints(indices@) == self.visible(),
            forall|k: int| 0 <= k < indices@.len() ==> (#[trigger] indices@[k]) < self.entries@.len(),
    {
        let ghost all = self.entries@;
        let ghost root = self.fold.root@;
        let ghost expanded = self.fold.expanded@;
        let mut indices: Vec<usize> = Vec::new();
        assert(as_ints(indices@) =~= visible_rows(all.take(0), root, expanded));
        let mut i: usize = 0;
        while i < self.entries.len()
            invariant
                i <= self.entries.len(),
                all == self.entries@,
                root == self.fold.root@,
                expanded == self.fold.expanded@,
                as_ints(indices@) == visible_rows(all.take(i as int), root, expanded),
                forall|k: int| 0 <= k < indices@.len() ==> (#[trigger] indices@[k]) < i,
            decreases self.entries.len() - i,
        {
            let ghost before = as_ints(indices@);
            assert(all.take(i + 1).drop_last() =~= all.take(i as int));
            if self.row_shows(&self.entries[i].path) {
                indices.push(i);
                assert(as_ints(indices@) =~= before.push(i as int));
            }
            i += 1;
        }
        assert(all.take(i as int) =~= all);
        indices
    }

    /// The directories of the tree.
    pub fn directory_paths(&self) -> (dirs: PathSet)
        ensures
            dirs@ == dirs_among(self.entries@),
    {
        let ghost all = self.entries@;
        let mut dirs = PathSet::new();
        assert(dirs_among(all.take(0)) =~= Set::<PathView>::empty());
        let mut i: usize = 0;
        while i < self.entries.len()
            invariant
                i <= self.entries.len(),
                all == self.entries@,
                dirs@ == dirs_among(all.take(i as int)),
            decreases self.entries.len() - i,
        {
            proof {
                let before = all.take(i as int);
                let after = all.take(i + 1);
                let entry = all[i as int];
                assert forall|p: PathView| dirs_among(after).contains(p) == (dirs_among(
                    before,
                ).contains(p) || (entry.is_dir && p == entry.path@)) by {
                    if dirs_among(before).contains(p) {
                        let k = choose|k: int|
                            0 <= k < before.len() && (#[trigger] before[k]).path@ == p
                                && before[k].is_dir;
                        assert(after[k].path@ == p);
                    }
                    if entry.is_dir && p == entry.path@ {
                        assert(after[i as int].path@ == p);
                    }
                    if dirs_among(after).contains(p) {
                        let k = choose|k: int|
                            0 <= k < after.len() && (#[trigger] after[k]).path@ == p
                                && after[k].is_dir;
                        if k < i {
                            assert(before[k].path@ == p);
                        }
                    }
                }
                if entry.is_dir {
                    assert(dirs_among(after) =~= dirs_among(before).insert(entry.path@));
                } else {
                    assert(dirs_among(after) =~= dirs_among(before));
                }
            }
            if self.entries[i].is_dir {
                let _ = dirs.insert(self.entries[i].path.clone());
            }
            i += 1;
        }
        assert(all.take(i as int) =~= all);
        dirs
    }

    /// Whether `path` is a directory: as the tree knows it, or as the disk
    /// said where the tree does not list it.
    pub open spec fn dir_at(self, path: PathView, on_disk: bool) -> bool {
        match entry_at(self.entries@, path) {
            Some(entry) => entry.is_dir,
            None => on_disk,
        }
    }

    pub fn is_dir_at(&self, path: &FilePath, on_disk: bool) -> (is_dir: bool)
        ensures
            is_dir == self.dir_at(path@, on_disk),
    {
        let mut i: usize = 0;
        assert(self.entries@.skip(0) =~= self.entries@);
        while i < self.entries.len()
            invariant
                i <= self.entries.len(),
                entry_at(self.entries@.skip(i as int), path@) == entry_at(self.entries@, path@),
            decreases self.entries.len() - i,
        {
            let ghost rest = self.entries@.skip(i as int);
            assert(rest[0] == self.entries@[i as int]);
            assert(rest.skip(1) =~= self.entries@.skip(i + 1));
            if self.entries[i].path.same(path) {
                return self.entries[i].is_dir;
            }
            i += 1;
        }
        on_disk
    }

    /// Drops what is recorded of directories that are gone.
    pub fn prune_stale_fold_state(&mut self) -> (persist: bool)
        ensures
            old(self).fold.steps_to(final(self).fold, persist),
            final(self).entries == old(self).entries,
            final(self).complete == old(self).complete,
            final(self).error == old(self).error,
            !old(self).complete || old(self).fold.root_key is None ==> *final(self) == *old(self)
                && !persist,
            old(self).complete && old(self).fold.root_key is Some ==> {
                &&& final(self).fold.expanded@ == old(self).fold.expanded@.intersect(
                    dirs_among(old(self).entries@),
                )
                &&& final(self).fold.recorded_here() == old(self).fold.recorded_here().filter(
                    |rest: PathView|
                        dirs_among(old(self).entries@).contains(
                            crate::path::join(old(self).fold.root@, rest),
                        ),
                )
                &&& persist == (final(self).fold.recorded_here() != old(
                    self,
                ).fold.recorded_here() || final(self).fold.expanded@ != old(self).fold.expanded@)
            },
    {
        let dirs = self.directory_paths();
        self.fold.prune_stale_fold_state(&dirs, self.complete)
    }
}

/// Revealing a path makes its row show, and hides no row that showed.
pub proof fn law_revealed_row_shows(root: PathView, path: PathView, expanded: Set<PathView>)
    ensures
        shows(path, root, expanded.union(between(root, path))),
        forall|other: PathView|
            shows(other, root, expanded) ==> #[trigger] shows(
                other,
                root,
                expanded.union(between(root, path)),
            ),
{
}

/// Nothing below a collapsed directory shows.
pub proof fn law_collapsed_hides(
    root: PathView,
    dir: PathView,
    path: PathView,
    expanded: Set<PathView>,
)
    requires
        is_under(dir, root),
        root.len() < dir.len() < path.len(),
        is_under(path, dir),
        !expanded.contains(dir),
    ensures
        !shows(path, root, expanded),
{
    assert(between(root, path).contains(dir));
}

/// With every directory collapsed the rows that show are those directly in
/// the root.
pub proof fn law_collapsed_tree_shows_the_top(root: PathView, path: PathView)
    requires
        is_under(path, root),
    ensures
        shows(path, root, Set::empty()) <==> path.len() <= root.len() + 1,
{
    if path.len() > root.len() + 1 {
        let dir = path.take(root.len() as int + 1);
        assert(dir.take(root.len() as int) =~= path.take(root.len() as int));
        assert(between(root, path).contains(dir));
    }
}

} // verus!
