use vstd::prelude::*;

use crate::laws::folding::{lemma_lies_between, lies_between};
use crate::laws::{is_at, picks};
use crate::path::{FilePath, PathView};
use crate::path_set::given;
use crate::selection::{ClickModifiers, TreeSelection};
use crate::tree::{as_ints, law_visible_rows, shows, FileTree};

verus! {

/// Whether every directory between the root and `path` is expanded.
pub open spec fn way_is_open(path: PathView, tree: FileTree) -> bool {
    forall|dir: PathView|
        #[trigger] lies_between(dir, tree.fold.root@, path) ==> tree.fold.expanded@.contains(dir)
}

proof fn lemma_way_is_open(path: PathView, tree: FileTree)
    ensures
        way_is_open(path, tree) == shows(path, tree.fold.root@, tree.fold.expanded@),
{
    let root = tree.fold.root@;
    if way_is_open(path, tree) {
        assert forall|dir: PathView| crate::fold::between(root, path).contains(
            dir,
        ) implies tree.fold.expanded@.contains(dir) by {
            lemma_lies_between(dir, root, path);
        }
    }
    if shows(path, root, tree.fold.expanded@) {
        assert forall|dir: PathView| #[trigger] lies_between(
            dir,
            root,
            path,
        ) implies tree.fold.expanded@.contains(dir) by {
            lemma_lies_between(dir, root, path);
        }
    }
}

/// The rows that show are those of the entries with every directory between
/// the root and them expanded: all of them, each once, in the order of the
/// entries.
pub proof fn law_rows_that_show(tree: &FileTree, indices: Vec<usize>)
    requires
        call_ensures(FileTree::visible_indices, (tree,), indices),
    ensures
        picks(
            as_ints(indices@),
            tree.entries@.len() as int,
            |i: int| way_is_open(tree.entries@[i].path@, *tree),
        ),
{
    law_visible_rows(tree.entries@, tree.fold.root@, tree.fold.expanded@);
    let at = as_ints(indices@);
    let kept = |i: int| way_is_open(tree.entries@[i].path@, *tree);
    assert forall|i: int| 0 <= i < tree.entries@.len() implies #[trigger] kept(i) == at.contains(
        i,
    ) by {
        lemma_way_is_open(tree.entries@[i].path@, *tree);
        assert(tree.visible().contains(i) <==> shows(
            tree.entries@[i].path@,
            tree.fold.root@,
            tree.fold.expanded@,
        ));
    }
    assert forall|k: int| 0 <= k < at.len() implies 0 <= #[trigger] at[k] < tree.entries@.len()
        && kept(at[k]) by {
        assert(0 <= tree.visible()[k] < tree.entries@.len());
        assert(at.contains(at[k]));
    }
}

/// Whether `path` is the anchor or one of the others that are selected.
pub open spec fn is_selected(selection: TreeSelection, path: PathView) -> bool {
    selection.anchor matches Some(anchor) && anchor@ == path || selection.additional@.contains(path)
}

/// The selected paths are the anchor and the others, each once.
pub proof fn law_selected_paths(
    selection: &TreeSelection,
    tree: &FileTree,
    paths: Vec<FilePath>,
    path: PathView,
)
    requires
        call_ensures(TreeSelection::tree_selected_paths, (selection, tree), paths),
    ensures
        is_selected(*selection, path) <==> exists|k: int|
            0 <= k < paths@.len() && (#[trigger] paths@[k])@ == path,
        forall|j: int, k: int|
            0 <= j < k < paths@.len() ==> (#[trigger] paths@[j])@ != (#[trigger] paths@[k])@,
{
    let read = crate::path_set::read(given(paths@));
    assert(read.len() == paths@.len());
    assert forall|k: int| 0 <= k < paths@.len() implies read[k] == (#[trigger] paths@[k])@ by {
        assert(given(paths@)[k] == paths@[k].text());
    }
    assert(read.to_set().contains(path) == selection.selected().contains(path));
    if is_selected(*selection, path) {
        let k = read.index_of(path);
        assert(paths@[k]@ == path);
    }
    if exists|k: int| 0 <= k < paths@.len() && (#[trigger] paths@[k])@ == path {
        let k = choose|k: int| 0 <= k < paths@.len() && (#[trigger] paths@[k])@ == path;
        assert(read.contains(read[k]));
    }
}

/// Where several rows are selected, those that show come first and in the
/// order in which the tree shows them: of two selected rows that show, the one
/// that shows above comes before.
pub proof fn law_selected_in_the_order_of_the_tree(
    selection: &TreeSelection,
    tree: &FileTree,
    paths: Vec<FilePath>,
    indices: Vec<usize>,
    a: int,
    b: int,
    j: int,
    k: int,
)
    requires
        call_ensures(TreeSelection::tree_selected_paths, (selection, tree), paths),
        call_ensures(FileTree::visible_indices, (tree,), indices),
        selection.additional@ != Set::<PathView>::empty(),
        0 <= a < b < indices@.len(),
        0 <= j < paths@.len(),
        0 <= k < paths@.len(),
        paths@[j]@ == tree.entries@[indices@[a] as int].path@,
        paths@[k]@ == tree.entries@[indices@[b] as int].path@,
        paths@[j]@ != paths@[k]@,
        forall|c: int|
            0 <= c < b ==> tree.entries@[(#[trigger] indices@[c]) as int].path@ != paths@[k]@,
    ensures
        j < k,
{
    let shown = tree.visible_texts();
    let all = selection.selected();
    let front = crate::selection::in_order(shown, all);
    let order = given(paths@);
    let read = crate::path_set::read(order);
    assert(read.len() == paths@.len());
    assert(order[j] == paths@[j].text() && order[k] == paths@[k].text());
    assert(read[j] == paths@[j]@ && read[k] == paths@[k]@);
    assert(shown.len() == indices@.len());
    assert forall|c: int| 0 <= c < shown.len() implies #[trigger] shown[c] == tree.entries@[
        indices@[c] as int
    ].path.text() by {
        assert(as_ints(indices@)[c] == indices@[c]);
    }
    assert(all.contains(read[j])) by {
        assert(read.contains(read[j]));
        assert(read.to_set().contains(read[j]));
    }
    assert(all.contains(read[k])) by {
        assert(read.contains(read[k]));
        assert(read.to_set().contains(read[k]));
    }
    let (p, q) = lemma_order(shown, all, a, b);
    assert(front[p] == order[p] && front[q] == order[q]) by {
        assert(order.take(front.len() as int)[p] == order[p]);
        assert(order.take(front.len() as int)[q] == order[q]);
    }
    assert(read[p] == crate::path::components(order[p]));
    assert(read[q] == crate::path::components(order[q]));
    assert(p == j);
    assert(q == k);
}

proof fn lemma_order(
    shown: Seq<crate::path::PathText>,
    set: Set<PathView>,
    a: int,
    b: int,
) -> (places: (int, int))
    requires
        0 <= a < b < shown.len(),
        set.contains(crate::path::components(shown[a])),
        set.contains(crate::path::components(shown[b])),
        forall|c: int|
            0 <= c < b ==> crate::path::components(#[trigger] shown[c])
                != crate::path::components(shown[b]),
    ensures
        ({
            let front = crate::selection::in_order(shown, set);
            &&& 0 <= places.0 < places.1 < front.len()
            &&& crate::path::components(front[places.0]) == crate::path::components(shown[a])
            &&& crate::path::components(front[places.1]) == crate::path::components(shown[b])
        }),
    decreases shown.len(),
{
    let rest = shown.drop_last();
    let before = crate::selection::in_order(rest, set);
    let front = crate::selection::in_order(shown, set);
    if b < rest.len() {
        assert(rest[a] == shown[a] && rest[b] == shown[b]);
        assert forall|c: int| 0 <= c < b implies crate::path::components(#[trigger] rest[c])
            != crate::path::components(rest[b]) by {
            assert(rest[c] == shown[c]);
        }
        let (p, q) = lemma_order(rest, set, a, b);
        assert(front[p] == before[p] && front[q] == before[q]);
        (p, q)
    } else {
        let last = crate::path::components(shown.last());
        let rows = crate::path_set::read(rest);
        if rows.contains(last) {
            let c = rows.index_of(last);
            assert(rest[c] == shown[c]);
        }
        assert(front == before.push(shown.last()));
        let p = lemma_kept(rest, set, a);
        assert(front[p] == before[p]);
        assert(rest[a] == shown[a]);
        (p, before.len() as int)
    }
}

proof fn lemma_kept(shown: Seq<crate::path::PathText>, set: Set<PathView>, a: int) -> (p: int)
    requires
        0 <= a < shown.len(),
        set.contains(crate::path::components(shown[a])),
    ensures
        0 <= p < crate::selection::in_order(shown, set).len(),
        crate::path::components(crate::selection::in_order(shown, set)[p])
            == crate::path::components(shown[a]),
    decreases shown.len(),
{
    let rest = shown.drop_last();
    let before = crate::selection::in_order(rest, set);
    let front = crate::selection::in_order(shown, set);
    if a < rest.len() {
        assert(rest[a] == shown[a]);
        let p = lemma_kept(rest, set, a);
        assert(front[p] == before[p]);
        p
    } else {
        let last = crate::path::components(shown.last());
        let rows = crate::path_set::read(rest);
        if rows.contains(last) {
            let c = rows.index_of(last);
            assert(crate::path::components(rest[c]) == last);
            let p = lemma_kept(rest, set, c);
            assert(front[p] == before[p]);
            p
        } else {
            before.len() as int
        }
    }
}

/// A plain click selects the row and nothing else.
pub proof fn law_click_selects_the_row(
    selection: &mut TreeSelection,
    tree: &FileTree,
    path: FilePath,
    modifiers: ClickModifiers,
    other: PathView,
)
    requires
        call_ensures(
            TreeSelection::tree_click_select,
            (selection, tree, path, modifiers),
            (),
        ),
        !modifiers.shift && !modifiers.secondary,
    ensures
        is_at(final(selection).anchor, path.text()),
        is_selected(*final(selection), other) == (other == path@),
{
}

/// A click with the secondary key adds the row or takes it out, and concerns
/// no other row. While any row is selected one of them is the anchor, where
/// one was before.
pub proof fn law_secondary_click_flips_the_row(
    selection: &mut TreeSelection,
    tree: &FileTree,
    path: FilePath,
    modifiers: ClickModifiers,
    other: PathView,
)
    requires
        call_ensures(
            TreeSelection::tree_click_select,
            (selection, tree, path, modifiers),
            (),
        ),
        modifiers.secondary && !modifiers.shift,
        old(selection).well_formed(),
    ensures
        is_selected(*final(selection), path@) != is_selected(*old(selection), path@),
        other != path@ ==> is_selected(*final(selection), other) == is_selected(
            *old(selection),
            other,
        ),
        old(selection).anchor is Some && is_selected(*final(selection), other)
            ==> final(selection).anchor is Some,
        old(selection).anchor matches Some(anchor) && anchor@ != path@
            ==> (final(selection).anchor matches Some(kept) && kept@ == old(selection).anchor->0@),
        final(selection).well_formed(),
{
    let next = *final(selection);
    if old(selection).anchor matches Some(anchor) && anchor@ == path@ {
        if old(selection).additional@ == Set::<PathView>::empty() {
            assert(!is_selected(next, other));
        } else {
            assert(next.anchor is Some);
        }
    }
}

/// Adding a row and taking it out leaves the same rows selected.
pub proof fn law_secondary_click_twice(
    first: &mut TreeSelection,
    second: &mut TreeSelection,
    tree: &FileTree,
    path: FilePath,
    modifiers: ClickModifiers,
    other: PathView,
)
    requires
        call_ensures(TreeSelection::tree_click_select, (first, tree, path, modifiers), ()),
        *second == *final(first),
        call_ensures(TreeSelection::tree_click_select, (second, tree, path, modifiers), ()),
        modifiers.secondary && !modifiers.shift,
        old(first).well_formed(),
    ensures
        is_selected(*final(second), other) == is_selected(*old(first), other),
{
    law_secondary_click_flips_the_row(first, tree, path, modifiers, other);
    law_secondary_click_flips_the_row(second, tree, path, modifiers, other);
}

/// A click with Shift selects the rows from the anchor to the clicked one, and
/// no others, whichever of the two shows above; the anchor stays.
pub proof fn law_shift_click_selects_the_rows_between(
    selection: &mut TreeSelection,
    tree: &FileTree,
    path: FilePath,
    modifiers: ClickModifiers,
    indices: Vec<usize>,
    from: int,
    to: int,
    other: PathView,
)
    requires
        call_ensures(
            TreeSelection::tree_click_select,
            (selection, tree, path, modifiers),
            (),
        ),
        call_ensures(FileTree::visible_indices, (tree,), indices),
        modifiers.shift,
        old(selection).anchor is Some,
        0 <= from < indices@.len(),
        0 <= to < indices@.len(),
        tree.entries@[indices@[from] as int].path@ == old(selection).anchor->0@,
        tree.entries@[indices@[to] as int].path@ == path@,
        forall|c: int|
            0 <= c < from
                ==> tree.entries@[(#[trigger] indices@[c]) as int].path@ != old(selection).anchor->0@,
        forall|c: int|
            0 <= c < to ==> tree.entries@[(#[trigger] indices@[c]) as int].path@ != path@,
    ensures
        final(selection).anchor matches Some(anchor) && anchor@ == old(selection).anchor->0@,
        is_selected(*final(selection), other) <==> exists|k: int|
            (from <= k <= to || to <= k <= from) && tree.entries@[
                (#[trigger] indices@[k]) as int
            ].path@ == other,
{
    let shown = tree.visible_paths();
    let anchor = old(selection).anchor->0@;
    assert(shown.len() == indices@.len());
    assert forall|c: int| 0 <= c < shown.len() implies #[trigger] shown[c] == tree.entries@[
        indices@[c] as int
    ].path@ by {
        assert(as_ints(indices@)[c] == indices@[c]);
    }
    assert(crate::selection::is_first(shown, anchor, from)) by {
        assert forall|c: int| 0 <= c < from implies shown[c] != anchor by {
            assert(tree.entries@[indices@[c] as int].path@ != anchor);
        }
    }
    assert(crate::selection::is_first(shown, path@, to)) by {
        assert forall|c: int| 0 <= c < to implies shown[c] != path@ by {
            assert(tree.entries@[indices@[c] as int].path@ != path@);
        }
    }
    crate::selection::lemma_first(shown, anchor, from);
    crate::selection::lemma_first(shown, path@, to);
    let rows = crate::selection::rows_between(shown, from, to);
    let low = if from <= to {
        from
    } else {
        to
    };
    if is_selected(*final(selection), other) {
        if other == anchor {
            assert(tree.entries@[indices@[from] as int].path@ == other);
        } else {
            assert(rows.to_set().contains(other));
            let i = rows.index_of(other);
            assert(shown[low + i] == other);
            assert(tree.entries@[indices@[low + i] as int].path@ == other);
        }
    }
    if exists|k: int|
        (from <= k <= to || to <= k <= from) && tree.entries@[
            (#[trigger] indices@[k]) as int
        ].path@ == other {
        let k = choose|k: int|
            (from <= k <= to || to <= k <= from) && tree.entries@[
                (#[trigger] indices@[k]) as int
            ].path@ == other;
        assert(rows[k - low] == shown[k]);
        assert(rows.contains(other));
    }
}

/// Where a row that a range needs does not show, a click with Shift is a plain
/// one.
pub proof fn law_shift_click_without_a_range(
    selection: &mut TreeSelection,
    tree: &FileTree,
    path: FilePath,
    modifiers: ClickModifiers,
    indices: Vec<usize>,
    other: PathView,
)
    requires
        call_ensures(
            TreeSelection::tree_click_select,
            (selection, tree, path, modifiers),
            (),
        ),
        call_ensures(FileTree::visible_indices, (tree,), indices),
        modifiers.shift,
        old(selection).anchor is Some,
        (forall|c: int|
            0 <= c < indices@.len()
                ==> tree.entries@[(#[trigger] indices@[c]) as int].path@ != old(selection).anchor->0@) || (forall|c: int|
            0 <= c < indices@.len() ==> tree.entries@[(#[trigger] indices@[c]) as int].path@
                != path@),
    ensures
        is_at(final(selection).anchor, path.text()),
        is_selected(*final(selection), other) == (other == path@),
{
    let shown = tree.visible_paths();
    assert(shown.len() == indices@.len());
    assert forall|c: int| 0 <= c < shown.len() implies #[trigger] shown[c] == tree.entries@[
        indices@[c] as int
    ].path@ by {
        assert(as_ints(indices@)[c] == indices@[c]);
    }
    let anchor = old(selection).anchor->0@;
    if shown.contains(anchor) {
        let c = shown.index_of(anchor);
        assert(tree.entries@[indices@[c] as int].path@ == anchor);
    }
    if shown.contains(path@) {
        let c = shown.index_of(path@);
        assert(tree.entries@[indices@[c] as int].path@ == path@);
    }
}

/// A row is told selected where it is the anchor or one of the others, and
/// their number is that of the selected paths.
pub proof fn law_told_and_counted(
    selection: &TreeSelection,
    tree: &FileTree,
    path: &FilePath,
    told: bool,
    count: usize,
    several: bool,
    paths: Vec<FilePath>,
)
    requires
        selection.well_formed(),
        selection.additional@.len() < usize::MAX,
        call_ensures(TreeSelection::is_tree_path_selected, (selection, path), told),
        call_ensures(TreeSelection::tree_selection_len, (selection,), count),
        call_ensures(TreeSelection::several, (selection,), several),
        call_ensures(TreeSelection::tree_selected_paths, (selection, tree), paths),
    ensures
        told == is_selected(*selection, path@),
        count == paths@.len(),
        several == (paths@.len() > 1),
{
    let read = crate::path_set::read(given(paths@));
    assert(read.len() == paths@.len());
    read.unique_seq_to_set();
    selection.additional.lemma_finite();
    if let Some(anchor) = selection.anchor {
        assert(selection.selected().len() == selection.additional@.len() + 1);
    }
}

/// With nothing to start a range from, a click with Shift is a plain one.
pub proof fn law_shift_click_without_an_anchor(
    selection: &mut TreeSelection,
    tree: &FileTree,
    path: FilePath,
    modifiers: ClickModifiers,
    other: PathView,
)
    requires
        call_ensures(
            TreeSelection::tree_click_select,
            (selection, tree, path, modifiers),
            (),
        ),
        modifiers.shift && !modifiers.secondary,
        old(selection).anchor is None,
    ensures
        is_at(final(selection).anchor, path.text()),
        is_selected(*final(selection), other) == (other == path@),
{
}

/// Selecting one row alone selects it and nothing else.
pub proof fn law_one_row_alone(selection: &mut TreeSelection, path: FilePath, other: PathView)
    requires
        call_ensures(TreeSelection::select_only, (selection, path), ()),
    ensures
        is_at(final(selection).anchor, path.text()),
        is_selected(*final(selection), other) == (other == path@),
{
}

/// One selected row alone is listed as it was selected.
pub proof fn law_one_selected_path(
    selection: &TreeSelection,
    tree: &FileTree,
    paths: Vec<FilePath>,
)
    requires
        call_ensures(TreeSelection::tree_selected_paths, (selection, tree), paths),
        selection.additional@ == Set::<PathView>::empty(),
    ensures
        selection.anchor matches Some(anchor) ==> paths@.len() == 1 && paths@[0].text()
            == anchor.text(),
        selection.anchor is None ==> paths@.len() == 0,
{
    assert(given(paths@).len() == paths@.len());
    if paths@.len() > 0 {
        assert(given(paths@)[0] == paths@[0].text());
    }
}

/// Where several rows are selected, one that does not show comes behind all
/// that do.
pub proof fn law_hidden_rows_come_last(
    selection: &TreeSelection,
    tree: &FileTree,
    paths: Vec<FilePath>,
    indices: Vec<usize>,
    a: int,
    j: int,
    k: int,
)
    requires
        call_ensures(TreeSelection::tree_selected_paths, (selection, tree), paths),
        call_ensures(FileTree::visible_indices, (tree,), indices),
        selection.additional@ != Set::<PathView>::empty(),
        0 <= a < indices@.len(),
        0 <= j < paths@.len(),
        0 <= k < paths@.len(),
        paths@[j]@ == tree.entries@[indices@[a] as int].path@,
        forall|c: int|
            0 <= c < indices@.len() ==> tree.entries@[(#[trigger] indices@[c]) as int].path@
                != paths@[k]@,
    ensures
        j < k,
{
    let shown = tree.visible_texts();
    let all = selection.selected();
    let front = crate::selection::in_order(shown, all);
    let order = given(paths@);
    let read = crate::path_set::read(order);
    assert(read.len() == paths@.len());
    assert(order[j] == paths@[j].text() && order[k] == paths@[k].text());
    assert(read[j] == paths@[j]@ && read[k] == paths@[k]@);
    assert(shown.len() == indices@.len());
    assert forall|c: int| 0 <= c < shown.len() implies #[trigger] shown[c] == tree.entries@[
        indices@[c] as int
    ].path.text() by {
        assert(as_ints(indices@)[c] == indices@[c]);
    }
    assert(all.contains(read[j])) by {
        assert(read.contains(read[j]));
        assert(read.to_set().contains(read[j]));
    }
    let p = lemma_kept(shown, all, a);
    assert(order.take(front.len() as int)[p] == order[p]);
    assert(read[p] == crate::path::components(order[p]));
    assert(p == j);
    if k < front.len() {
        assert(order.take(front.len() as int)[k] == order[k]);
        let c = lemma_from_tree(shown, all, k);
        assert(tree.entries@[indices@[c] as int].path@ != paths@[k]@);
    }
}

proof fn lemma_from_tree(shown: Seq<crate::path::PathText>, set: Set<PathView>, k: int) -> (c: int)
    requires
        0 <= k < crate::selection::in_order(shown, set).len(),
    ensures
        0 <= c < shown.len(),
        crate::selection::in_order(shown, set)[k] == shown[c],
    decreases shown.len(),
{
    let rest = shown.drop_last();
    let before = crate::selection::in_order(rest, set);
    let front = crate::selection::in_order(shown, set);
    if k < before.len() {
        assert(front[k] == before[k]);
        let c = lemma_from_tree(rest, set, k);
        assert(rest[c] == shown[c]);
        c
    } else {
        shown.len() - 1
    }
}

} // verus!
