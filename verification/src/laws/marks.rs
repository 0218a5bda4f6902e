use vstd::prelude::*;

use crate::laws::lemma_join_names;
use crate::panel::{BranchDiff, DiffFile};
use crate::path::{all_names, join, FilePath, PathView};
use crate::state::{marks_for, Sidebar, TreeMark};
use crate::table::Table;

verus! {

/// Where a file of a diff lies in the tree.
pub open spec fn place(root: PathView, file: DiffFile) -> PathView {
    join(root, file.path@)
}

/// Where no two files of the diff lie at one place, a file has a mark in the
/// tree exactly where it was not deleted: that of an addition where it was
/// added, and that of a modification where it was modified or renamed.
pub proof fn law_every_changed_file_is_marked(
    sidebar: &Sidebar,
    marks: Table<FilePath, TreeMark>,
    i: int,
)
    requires
        call_ensures(Sidebar::tree_change_marks, (sidebar,), marks),
        sidebar.changes.branch_diff matches BranchDiff::Loaded(diff) && 0 <= i < diff.files@.len()
            && forall|j: int, k: int|
            0 <= j < k < diff.files@.len() ==> place(
                sidebar.tree.fold.root@,
                #[trigger] diff.files@[j],
            ) != place(sidebar.tree.fold.root@, #[trigger] diff.files@[k]),
    ensures
        ({
            let file = sidebar.changes.branch_diff->Loaded_0.files@[i];
            let at = place(sidebar.tree.fold.root@, file);
            &&& marks@.contains_key(at) == !(file.status is Deleted)
            &&& file.status is Added ==> marks@[at] is Added
            &&& file.status is Modified || file.status is Renamed ==> marks@[at] is Modified
        }),
{
    let files = sidebar.changes.branch_diff->Loaded_0.files@;
    lemma_mark(files, sidebar.tree.fold.root@, i, files.len() as int);
    assert(files.take(files.len() as int) =~= files);
}

/// The same for a diff of plain paths below the root, none of which it names
/// twice: the mark is at the root's path with the file's behind it.
pub proof fn law_every_changed_path_is_marked(
    sidebar: &Sidebar,
    marks: Table<FilePath, TreeMark>,
    i: int,
)
    requires
        call_ensures(Sidebar::tree_change_marks, (sidebar,), marks),
        sidebar.changes.branch_diff matches BranchDiff::Loaded(diff) && 0 <= i < diff.files@.len()
            && (forall|j: int|
            0 <= j < diff.files@.len() ==> all_names((#[trigger] diff.files@[j]).path@))
                && (forall|j: int, k: int|
            0 <= j < k < diff.files@.len() ==> (#[trigger] diff.files@[j]).path@ != (
            #[trigger] diff.files@[k]).path@),
    ensures
        ({
            let file = sidebar.changes.branch_diff->Loaded_0.files@[i];
            let at = sidebar.tree.fold.root@ + file.path@;
            &&& marks@.contains_key(at) == !(file.status is Deleted)
            &&& file.status is Added ==> marks@[at] is Added
            &&& file.status is Modified || file.status is Renamed ==> marks@[at] is Modified
        }),
{
    let files = sidebar.changes.branch_diff->Loaded_0.files@;
    let root = sidebar.tree.fold.root@;
    assert forall|j: int, k: int| 0 <= j < k < files.len() implies place(
        root,
        #[trigger] files[j],
    ) != place(root, #[trigger] files[k]) by {
        lemma_join_names(root, files[j].path@);
        lemma_join_names(root, files[k].path@);
        assert((root + files[j].path@).skip(root.len() as int) =~= files[j].path@);
        assert((root + files[k].path@).skip(root.len() as int) =~= files[k].path@);
    }
    lemma_join_names(root, files[i].path@);
    law_every_changed_file_is_marked(sidebar, marks, i);
}

/// Nothing else is marked: every mark is at the place of a file of the diff,
/// and without a diff there is none.
pub proof fn law_only_changed_files_are_marked(
    sidebar: &Sidebar,
    marks: Table<FilePath, TreeMark>,
    at: PathView,
)
    requires
        call_ensures(Sidebar::tree_change_marks, (sidebar,), marks),
        marks@.contains_key(at),
    ensures
        sidebar.changes.branch_diff matches BranchDiff::Loaded(diff) && exists|i: int|
            0 <= i < diff.files@.len() && at == place(
                sidebar.tree.fold.root@,
                #[trigger] diff.files@[i],
            ) && !(diff.files@[i].status is Deleted),
{
    if let BranchDiff::Loaded(diff) = sidebar.changes.branch_diff {
        lemma_no_other_mark(diff.files@, sidebar.tree.fold.root@, at);
    }
}

proof fn lemma_mark(files: Seq<DiffFile>, root: PathView, i: int, n: int)
    requires
        0 <= i < n <= files.len(),
        forall|j: int, k: int|
            0 <= j < k < files.len() ==> place(root, #[trigger] files[j]) != place(
                root,
                #[trigger] files[k],
            ),
    ensures
        ({
            let marks = marks_for(files.take(n), root);
            let at = place(root, files[i]);
            &&& marks.contains_key(at) == !(files[i].status is Deleted)
            &&& files[i].status is Added ==> marks[at] is Added
            &&& files[i].status is Modified || files[i].status is Renamed ==> marks[at] is Modified
        }),
    decreases n,
{
    assert(files.take(n).drop_last() =~= files.take(n - 1));
    assert(files.take(n).last() == files[n - 1]);
    if i < n - 1 {
        lemma_mark(files, root, i, n - 1);
        assert(place(root, files[i]) != place(root, files[n - 1]));
    } else if marks_for(files.take(n - 1), root).contains_key(place(root, files[i])) {
        let before = files.take(n - 1);
        lemma_no_other_mark(before, root, place(root, files[i]));
        let j = choose|j: int|
            0 <= j < before.len() && place(root, files[i]) == place(root, #[trigger] before[j]);
        assert(before[j] == files[j]);
    }
}

proof fn lemma_no_other_mark(files: Seq<DiffFile>, root: PathView, at: PathView)
    requires
        marks_for(files, root).contains_key(at),
    ensures
        exists|i: int|
            0 <= i < files.len() && at == place(root, #[trigger] files[i]) && !(
            files[i].status is Deleted),
    decreases files.len(),
{
    if files.len() > 0 {
        let rest = files.drop_last();
        if marks_for(rest, root).contains_key(at) {
            lemma_no_other_mark(rest, root, at);
            let i = choose|i: int|
                0 <= i < rest.len() && at == place(root, #[trigger] rest[i]) && !(
                rest[i].status is Deleted);
            assert(files[i] == rest[i]);
        } else {
            assert(files[files.len() - 1] == files.last());
        }
    }
}

} // verus!
