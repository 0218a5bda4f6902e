use vstd::prelude::*;

use crate::fold::{between, FoldState, TreeFold};
use crate::path::{all_names, is_under, FilePath, PathView};
use crate::path_set::PathSet;
use crate::spelling::is_text;
use crate::tree::{FileTree, FileTreeEntry};

verus! {

/// Whether `dir` is one of the directories that lie between `root` and `path`:
/// it starts as `root` does and goes on as `path` does, and is neither.
pub open spec fn lies_between(dir: PathView, root: PathView, path: PathView) -> bool {
    &&& root.len() < dir.len() < path.len()
    &&& forall|i: int| 0 <= i < root.len() ==> #[trigger] dir[i] == root[i]
    &&& forall|i: int| 0 <= i < dir.len() ==> #[trigger] dir[i] == path[i]
}

pub(crate) proof fn lemma_lies_between(dir: PathView, root: PathView, path: PathView)
    ensures
        lies_between(dir, root, path) == between(root, path).contains(dir),
{
    if lies_between(dir, root, path) {
        assert(dir.take(root.len() as int) =~= root);
        assert(path.take(dir.len() as int) =~= dir);
    }
    if between(root, path).contains(dir) {
        assert forall|i: int| 0 <= i < root.len() implies #[trigger] dir[i] == root[i] by {
            assert(dir.take(root.len() as int)[i] == root[i]);
        }
        assert forall|i: int| 0 <= i < dir.len() implies #[trigger] dir[i] == path[i] by {
            assert(path.take(dir.len() as int)[i] == dir[i]);
        }
    }
}

/// Whether `path` starts with all of `base`.
pub open spec fn starts_with(path: PathView, base: PathView) -> bool {
    base.len() <= path.len() && forall|i: int| 0 <= i < base.len() ==> #[trigger] path[i] == base[i]
}

pub(crate) proof fn lemma_starts_with(path: PathView, base: PathView)
    ensures
        starts_with(path, base) == is_under(path, base),
{
    if starts_with(path, base) {
        assert(path.take(base.len() as int) =~= base);
    }
    if is_under(path, base) {
        assert forall|i: int| 0 <= i < base.len() implies #[trigger] path[i] == base[i] by {
            assert(path.take(base.len() as int)[i] == base[i]);
        }
    }
}

/// Whether a directory can be recorded, by its path from the root: it is made
/// of names, each of them text.
pub open spec fn can_be_recorded(rest: PathView) -> bool {
    &&& rest.len() > 0
    &&& all_names(rest)
    &&& forall|i: int| 0 <= i < rest.len() ==> is_text(#[trigger] rest[i])
}

/// Expanding or collapsing a directory is of that directory alone, on screen
/// as in the record; the record of another worktree stays as it is, and what
/// is to be written is what changed.
pub proof fn law_one_directory_at_a_time(
    fold: &mut TreeFold,
    path: &FilePath,
    expanded: bool,
    persist: bool,
    other: PathView,
)
    requires
        call_ensures(TreeFold::set_dir_expanded, (fold, path, expanded), persist),
    ensures
        final(fold).expanded@.contains(path@) == expanded,
        other != path@ ==> final(fold).expanded@.contains(other) == old(fold).expanded@.contains(
            other,
        ),
        other != path@ && old(fold).root_key is Some ==> final(fold).saved.recorded(
            old(fold).root_key->0@,
        ).contains(other.skip(old(fold).root@.len() as int)) == old(fold).saved.recorded(
            old(fold).root_key->0@,
        ).contains(other.skip(old(fold).root@.len() as int)) || !is_under(
            other,
            old(fold).root@,
        ),
        forall|key: Seq<char>|
            !(old(fold).root_key matches Some(own) && own@ == key)
                ==> #[trigger] final(fold).saved.recorded(key) == old(fold).saved.recorded(key),
        final(fold).root == old(fold).root,
        old(fold).root_key is None ==> !persist,
        old(fold).root_key matches Some(own) ==> persist == (final(fold).saved.recorded(own@)
            != old(fold).saved.recorded(own@)),
{
    let root = old(fold).root@;
    if other != path@ && is_under(other, root) {
        let rest = other.skip(root.len() as int);
        assert(root + rest =~= other);
    }
}

/// A directory that lies plainly below the root of a recorded worktree is
/// recorded when it is expanded, by its path from the root, and is not when it
/// is collapsed.
pub proof fn law_expanded_is_recorded(
    fold: &mut TreeFold,
    path: &FilePath,
    expanded: bool,
    persist: bool,
    rest: PathView,
)
    requires
        call_ensures(TreeFold::set_dir_expanded, (fold, path, expanded), persist),
        old(fold).root_key is Some,
        path@ == old(fold).root@ + rest,
        can_be_recorded(rest),
    ensures
        final(fold).saved.recorded(old(fold).root_key->0@).contains(rest) == expanded,
{
    assert(crate::path::all_text(rest));
    assert(crate::fold::is_recordable(rest));
    assert(set![path@].contains(old(fold).root@ + rest));
}

/// Expanding what was collapsed and collapsing what was expanded, by turns:
/// twice leaves every directory as it was.
pub proof fn law_toggled_twice(
    first: &mut TreeFold,
    second: &mut TreeFold,
    path: &FilePath,
    persist: bool,
    again: bool,
    other: PathView,
)
    requires
        call_ensures(TreeFold::toggle_dir_expanded, (first, path), persist),
        *second == *final(first),
        call_ensures(TreeFold::toggle_dir_expanded, (second, path), again),
    ensures
        final(first).expanded@.contains(path@) != old(first).expanded@.contains(path@),
        other != path@ ==> final(first).expanded@.contains(other)
            == old(first).expanded@.contains(other),
        final(second).expanded@ == old(first).expanded@,
{
    assert(final(second).expanded@ =~= old(first).expanded@);
}

/// Revealing a path expands the directories that lie between the root and it,
/// and no other, and collapses none.
pub proof fn law_reveal_opens_the_way(
    fold: &mut TreeFold,
    path: &FilePath,
    persist: bool,
    dir: PathView,
)
    requires
        call_ensures(TreeFold::reveal_in_tree, (fold, path), persist),
    ensures
        final(fold).expanded@.contains(dir) <==> old(fold).expanded@.contains(dir) || lies_between(
            dir,
            old(fold).root@,
            path@,
        ),
        final(fold).root == old(fold).root,
        old(fold).root_key is None ==> !persist,
{
    lemma_lies_between(dir, old(fold).root@, path@);
}

/// Collapsing a directory with all below it leaves nothing expanded at it or
/// below, and everything else as it was.
pub proof fn law_collapse_below(
    fold: &mut TreeFold,
    dir: &FilePath,
    persist: bool,
    other: PathView,
)
    requires
        call_ensures(TreeFold::collapse_subtree, (fold, dir), persist),
    ensures
        final(fold).expanded@.contains(other) <==> old(fold).expanded@.contains(other)
            && !starts_with(other, dir@),
        final(fold).root == old(fold).root,
{
    lemma_starts_with(other, dir@);
}

/// Collapsing everything leaves nothing expanded, on screen and in this
/// worktree's record; that of another stays.
pub proof fn law_collapse_everything(fold: &mut TreeFold, persist: bool, key: Seq<char>)
    requires
        call_ensures(TreeFold::collapse_all_dirs, (fold,), persist),
    ensures
        forall|dir: PathView| !(#[trigger] final(fold).expanded@.contains(dir)),
        old(fold).root_key matches Some(own) ==> (if own@ == key {
            final(fold).saved.recorded(key) == Set::<PathView>::empty() && persist
                == (old(fold).saved.recorded(key) != Set::<PathView>::empty())
        } else {
            final(fold).saved.recorded(key) == old(fold).saved.recorded(key)
        }),
        final(fold).root == old(fold).root,
{
}

/// After a rename what was expanded at the old path or below it is expanded at
/// the new one, and what lay elsewhere stays expanded.
pub proof fn law_expanded_follows_a_rename(
    fold: &mut TreeFold,
    from: &FilePath,
    to: &FilePath,
    persist: bool,
    dir: PathView,
)
    requires
        call_ensures(TreeFold::follow_rename, (fold, from, to), persist),
        old(fold).expanded@.contains(dir),
    ensures
        !starts_with(dir, from@) ==> final(fold).expanded@.contains(dir),
        dir == from@ ==> final(fold).expanded@.contains(to@),
        starts_with(dir, from@) && all_names(dir.skip(from@.len() as int))
            ==> final(fold).expanded@.contains(to@ + dir.skip(from@.len() as int)),
{
    lemma_starts_with(dir, from@);
    let rest = dir.skip(from@.len() as int);
    if starts_with(dir, from@) && all_names(rest) {
        crate::laws::lemma_join_names(to@, rest);
    }
    let there = crate::path::moved(dir, from@, to@);
    assert(crate::path_set::members_moved(old(fold).expanded@, from@, to@).contains(there));
    if dir == from@ {
        assert(rest =~= Seq::<crate::spelling::Letters>::empty());
        assert(to@ + rest =~= to@);
    }
}

/// Once the whole tree was read, what is expanded and is no directory of it is
/// forgotten, and nothing else; before that nothing is.
pub proof fn law_gone_directories_are_forgotten(
    tree: &mut FileTree,
    persist: bool,
    dir: PathView,
)
    requires
        call_ensures(FileTree::prune_stale_fold_state, (tree,), persist),
        old(tree).fold.root_key is Some,
    ensures
        old(tree).complete
            ==> (final(tree).fold.expanded@.contains(dir) <==> old(tree).fold.expanded@.contains(dir) && exists|i: int|
            0 <= i < old(tree).entries@.len() && (#[trigger] old(tree).entries@[i]).path@ == dir
                && old(tree).entries@[i].is_dir),
        !old(tree).complete ==> *final(tree) == *old(tree) && !persist,
        final(tree).entries == old(tree).entries,
{
}

/// A tree that is opened again expands what was recorded for it: each recorded
/// directory at its path from the root, and nothing else.
pub proof fn law_recorded_is_expanded_again(
    root: FilePath,
    root_key: Option<String>,
    saved: FoldState,
    fold: TreeFold,
    rest: PathView,
)
    requires
        call_ensures(TreeFold::restore, (root, root_key, saved), fold),
        can_be_recorded(rest),
        root_key is Some,
    ensures
        fold.expanded@.contains(root@ + rest) == saved.recorded(root_key->0@).contains(rest),
        fold.root == root,
{
    assert(crate::path::all_text(rest));
    assert(crate::fold::is_recordable(rest));
    assert(crate::fold::relatives(fold.expanded@, root@).contains(rest) == fold.expanded@.contains(
        root@ + rest,
    ));
}

/// The directories of a tree are its entries that are directories.
pub proof fn law_directories_of_the_tree(tree: &FileTree, dirs: PathSet, dir: PathView)
    requires
        call_ensures(FileTree::directory_paths, (tree,), dirs),
    ensures
        dirs@.contains(dir) <==> exists|i: int|
            0 <= i < tree.entries@.len() && (#[trigger] tree.entries@[i]).path@ == dir
                && tree.entries@[i].is_dir,
{
}

/// What the tree lists it knows: the first entry at a path says whether it is
/// a directory, and the disk says so only of what is not listed.
pub proof fn law_tree_knows_its_directories(
    tree: &FileTree,
    path: &FilePath,
    on_disk: bool,
    is_dir: bool,
    i: int,
)
    requires
        call_ensures(FileTree::is_dir_at, (tree, path, on_disk), is_dir),
    ensures
        0 <= i < tree.entries@.len() && tree.entries@[i].path@ == path@ && (forall|k: int|
            0 <= k < i ==> (#[trigger] tree.entries@[k]).path@ != path@) ==> is_dir
            == tree.entries@[i].is_dir,
        (forall|k: int|
            0 <= k < tree.entries@.len() ==> (#[trigger] tree.entries@[k]).path@ != path@)
            ==> is_dir == on_disk,
{
    crate::laws::lemma_no_entry_at(tree.entries@, path@);
    if 0 <= i < tree.entries@.len() && tree.entries@[i].path@ == path@ && (forall|k: int|
        0 <= k < i ==> (#[trigger] tree.entries@[k]).path@ != path@) {
        lemma_first_entry(tree.entries@, path@, i);
    }
}

proof fn lemma_first_entry(entries: Seq<FileTreeEntry>, path: PathView, i: int)
    requires
        0 <= i < entries.len(),
        entries[i].path@ == path,
        forall|k: int| 0 <= k < i ==> (#[trigger] entries[k]).path@ != path,
    ensures
        crate::tree::entry_at(entries, path) == Some(entries[i]),
    decreases entries.len(),
{
    if i > 0 {
        let rest = entries.skip(1);
        assert(entries[0].path@ != path);
        assert(rest[i - 1] == entries[i]);
        assert forall|k: int| 0 <= k < i - 1 implies (#[trigger] rest[k]).path@ != path by {
            assert(rest[k] == entries[k + 1]);
        }
        lemma_first_entry(rest, path, i - 1);
    }
}

/// A tree without a record starts with nothing expanded.
pub proof fn law_nothing_expanded_without_a_record(
    root: FilePath,
    saved: FoldState,
    fold: TreeFold,
    dir: PathView,
)
    requires
        call_ensures(TreeFold::restore, (root, None, saved), fold),
    ensures
        !fold.expanded@.contains(dir),
{
}

/// Of the directories that are recorded under a key those stay that are among
/// the ones that are there, and the other keys' stay all.
pub proof fn law_missing_directories_are_forgotten(
    state: &mut FoldState,
    key: &String,
    root: &FilePath,
    dirs: &PathSet,
    changed: bool,
    rest: PathView,
    other: Seq<char>,
)
    requires
        call_ensures(FoldState::prune_missing_dirs_with_key, (state, key, root, dirs), changed),
        can_be_recorded(rest),
    ensures
        final(state).recorded(key@).contains(rest) == (old(state).recorded(key@).contains(rest)
            && dirs@.contains(root@ + rest)),
        old(state).recorded(key@).contains(rest) && !dirs@.contains(root@ + rest) ==> changed,
        other != key@ ==> final(state).recorded(other) == old(state).recorded(other),
{
    crate::laws::lemma_join_names(root@, rest);
}

/// Recording a directory is of that directory alone, on screen as in the
/// record.
pub proof fn law_recorded_one_by_one(
    fold: &mut TreeFold,
    path: &FilePath,
    expanded: bool,
    persist: bool,
    other: PathView,
)
    requires
        call_ensures(TreeFold::record_dir_expanded, (fold, path, expanded), persist),
    ensures
        final(fold).expanded@.contains(path@) == expanded,
        other != path@ ==> final(fold).expanded@.contains(other) == old(fold).expanded@.contains(
            other,
        ),
        final(fold).root == old(fold).root,
        old(fold).root_key matches Some(own) ==> persist == (final(fold).saved.recorded(own@)
            != old(fold).saved.recorded(own@)),
{
}

} // verus!
