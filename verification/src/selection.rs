use vstd::prelude::*;

use crate::path::{components, holds, path_text, path_view, FilePath, PathText, PathView};
use crate::path_set::{given, read, views, PathSet};
use crate::tree::{as_ints, FileTree};

verus! {

/// The rows of the tree that are selected: the one that a range starts from,
/// and the others.
pub struct TreeSelection {
    pub anchor: Option<FilePath>,
    pub additional: PathSet,
}

/// The keys that were held during a click.
#[derive(Clone, Copy, Debug, PartialEq, Eq, Structural)]
pub struct ClickModifiers {
    pub shift: bool,
    /// Control, or Command on a Mac.
    pub secondary: bool,
}

/// Where `path` first stands in `paths`.
pub open spec fn is_first(paths: Seq<PathView>, path: PathView, i: int) -> bool {
    &&& 0 <= i < paths.len()
    &&& paths[i] == path
    &&& forall|k: int| 0 <= k < i ==> paths[k] != path
}

pub open spec fn first_position(paths: Seq<PathView>, path: PathView) -> Option<int> {
    if paths.contains(path) {
        Some(choose|i: int| is_first(paths, path, i))
    } else {
        None
    }
}

/// The rows from the one at `a` to the one at `b`, both of them with it.
pub open spec fn rows_between(paths: Seq<PathView>, a: int, b: int) -> Seq<PathView> {
    if a <= b {
        paths.subrange(a, b + 1)
    } else {
        paths.subrange(b, a + 1)
    }
}

/// The members of `set` in the order in which `paths` first lists them, as
/// they are given there.
pub open spec fn in_order(paths: Seq<PathText>, set: Set<PathView>) -> Seq<PathText>
    decreases paths.len(),
{
    if paths.len() == 0 {
        seq![]
    } else {
        let before = in_order(paths.drop_last(), set);
        let row = components(paths.last());
        if set.contains(row) && !read(paths.drop_last()).contains(row) {
            before.push(paths.last())
        } else {
            before
        }
    }
}

pub(crate) proof fn lemma_first(paths: Seq<PathView>, path: PathView, i: int)
    requires
        is_first(paths, path, i),
    ensures
        first_position(paths, path) == Some(i),
{
    assert(paths.contains(path));
    let j = choose|j: int| is_first(paths, path, j);
    if j < i {
        assert(paths[j] != path);
    } else if i < j {
        assert(paths[i] != path);
    }
}

proof fn lemma_in_order(paths: Seq<PathText>, set: Set<PathView>)
    ensures
        read(in_order(paths, set)).no_duplicates(),
        forall|p: PathView| #[trigger]
            read(in_order(paths, set)).contains(p) <==> set.contains(p) && read(paths).contains(p),
    decreases paths.len(),
{
    if paths.len() > 0 {
        let rest = paths.drop_last();
        let last = components(paths.last());
        lemma_in_order(rest, set);
        let before = read(in_order(rest, set));
        let all = read(in_order(paths, set));
        let rows = read(paths);
        assert(rows =~= read(rest).push(last));
        if set.contains(last) && !read(rest).contains(last) {
            assert(all =~= before.push(last));
        }
        assert forall|p: PathView| #[trigger] all.contains(p) <==> set.contains(p)
            && rows.contains(p) by {
            read(rest).lemma_push_to_set_commute(last);
            assert(rows.to_set().contains(p) == read(rest).to_set().insert(last).contains(p));
            if set.contains(last) && !read(rest).contains(last) {
                before.lemma_push_to_set_commute(last);
                assert(all.to_set().contains(p) == before.to_set().insert(last).contains(p));
            }
        }
        if set.contains(last) && !read(rest).contains(last) {
            assert(!before.contains(last));
        }
    } else {
        assert(forall|p: PathView| !read(in_order(paths, set)).contains(p));
        assert(forall|p: PathView| !read(paths).contains(p));
    }
}

proof fn lemma_front_and_rest(
    front: Seq<PathText>,
    rest: Seq<PathText>,
    shown: Seq<PathView>,
    all: Set<PathView>,
)
    requires
        read(front).no_duplicates(),
        forall|p: PathView| #[trigger]
            read(front).contains(p) <==> all.contains(p) && shown.contains(p),
        read(rest).no_duplicates(),
        read(rest).to_set() == all.difference(shown.to_set()),
    ensures
        read(front + rest).to_set() == all,
        read(front + rest).no_duplicates(),
        (front + rest).take(front.len() as int) == front,
{
    let head = read(front);
    let tail = read(rest);
    let whole = head + tail;
    assert(read(front + rest) =~= whole);
    assert((front + rest).take(front.len() as int) =~= front);
    assert forall|p: PathView| whole.to_set().contains(p) == all.contains(p) by {
        if whole.contains(p) {
            let k = choose|k: int| 0 <= k < whole.len() && whole[k] == p;
            if k < head.len() {
                assert(head[k] == p);
                assert(head.contains(p));
            } else {
                assert(tail[k - head.len()] == p);
                assert(tail.to_set().contains(p));
            }
        }
        if all.contains(p) {
            if shown.contains(p) {
                assert(head.contains(p));
                let k = choose|k: int| 0 <= k < head.len() && head[k] == p;
                assert(whole[k] == p);
            } else {
                assert(tail.to_set().contains(p));
                let k = choose|k: int| 0 <= k < tail.len() && tail[k] == p;
                assert(whole[head.len() + k] == p);
            }
        }
    }
    assert(whole.to_set() =~= all);
    assert forall|a: int, b: int| 0 <= a < b < whole.len() implies whole[a] != whole[b] by {
        if a < head.len() && b >= head.len() {
            assert(head.contains(head[a]));
            assert(tail.to_set().contains(tail[b - head.len()]));
        } else if a >= head.len() {
            assert(tail[a - head.len()] != tail[b - head.len()]);
        }
    }
}

impl TreeSelection {
    /// All selected rows.
    pub open spec fn selected(self) -> Set<PathView> {
        match self.anchor {
            Some(anchor) => self.additional@.insert(anchor@),
            None => self.additional@,
        }
    }

    /// Whether nothing is selected twice.
    pub open spec fn well_formed(self) -> bool {
        self.anchor matches Some(anchor) ==> !self.additional@.contains(anchor@)
    }

    /// Nothing selected.
    pub fn new() -> (selection: TreeSelection)
        ensures
            selection.anchor is None,
            selection.additional@ == Set::<PathView>::empty(),
    {
        TreeSelection { anchor: None, additional: PathSet::new() }
    }

    /// Whether `path` is one of the selected rows.
    pub fn is_tree_path_selected(&self, path: &FilePath) -> (selected: bool)
        ensures
            selected == self.selected().contains(path@),
    {
        holds(&self.anchor, path) || self.additional.contains(path)
    }

    /// How many rows are selected.
    pub fn tree_selection_len(&self) -> (count: usize)
        requires
            self.additional@.len() < usize::MAX,
        ensures
            count == self.additional@.len() + (if self.anchor is Some {
                1int
            } else {
                0int
            }),
            self.well_formed() ==> count == self.selected().len(),
    {
        proof {
            self.additional.lemma_finite();
        }
        let rest = self.additional.len();
        if self.anchor.is_some() {
            rest + 1
        } else {
            rest
        }
    }

    /// Whether more than one row is selected.
    pub open spec fn is_several(self) -> bool {
        self.additional@.len() + (if self.anchor is Some {
            1int
        } else {
            0int
        }) > 1
    }

    pub fn several(&self) -> (several: bool)
        ensures
            several == self.is_several(),
    {
        let rest = self.additional.len();
        rest > 1 || rest == 1 && self.anchor.is_some()
    }

    /// Selects `path` and nothing else.
    pub fn select_only(&mut self, path: FilePath)
        ensures
            path_text(final(self).anchor) == Some(path.text()),
            final(self).additional@ == Set::<PathView>::empty(),
    {
        self.anchor = Some(path);
        self.additional = PathSet::new();
    }

    /// Whether `order` lists the selected rows, each once: one alone as it was
    /// selected, and several as the tree shows them, those that do not show
    /// behind the others.
    pub open spec fn ordered(self, tree: FileTree, order: Seq<PathText>) -> bool {
        let front = in_order(tree.visible_texts(), self.selected());
        &&& read(order).to_set() == self.selected()
        &&& read(order).no_duplicates()
        &&& if self.additional@ == Set::<PathView>::empty() {
            order == match self.anchor {
                Some(anchor) => seq![anchor.text()],
                None => seq![],
            }
        } else {
            order.len() >= front.len() && order.take(front.len() as int) == front
        }
    }

    /// The selected rows.
    pub fn tree_selected_paths(&self, tree: &FileTree) -> (paths: Vec<FilePath>)
        ensures
            self.ordered(*tree, given(paths@)),
    {
        if self.additional.is_empty() {
            let mut one: Vec<FilePath> = Vec::new();
            match &self.anchor {
                Some(anchor) => {
                    one.push(anchor.clone());
                    proof {
                        assert(given(one@) =~= seq![anchor.text()]);
                        assert(read(given(one@)) =~= seq![anchor@]);
                        assert(read(given(one@))[0] == anchor@);
                        assert(read(given(one@)).to_set() =~= self.selected());
                    }
                },
                None => {
                    assert(given(one@) =~= seq![]);
                    assert(read(given(one@)).to_set() =~= self.selected());
                },
            }
            return one;
        }
        let visible = tree.visible_indices();
        let ghost shown = tree.visible_texts();
        let ghost all = self.selected();
        let mut remaining = self.additional.clone();
        match &self.anchor {
            Some(anchor) => {
                let _ = remaining.insert(anchor.clone());
            },
            None => {},
        }
        let mut ordered: Vec<FilePath> = Vec::new();
        proof {
            assert(given(ordered@) =~= in_order(shown.take(0), all));
            assert(all.difference(read(shown.take(0)).to_set()) =~= all);
        }
        let mut i: usize = 0;
        while i < visible.len()
            invariant
                i <= visible.len(),
                as_ints(visible@) == tree.visible(),
                forall|k: int|
                    0 <= k < visible@.len() ==> (#[trigger] visible@[k]) < tree.entries@.len(),
                shown == tree.visible_texts(),
                all == self.selected(),
                given(ordered@) == in_order(shown.take(i as int), all),
                remaining@ == all.difference(read(shown.take(i as int)).to_set()),
            decreases visible.len() - i,
        {
            let ghost before = given(ordered@);
            let index = visible[i];
            let path = &tree.entries[index].path;
            proof {
                assert(as_ints(visible@)[i as int] == index as int);
                assert(shown[i as int] == path.text());
                assert(shown.take(i + 1).drop_last() =~= shown.take(i as int));
                assert(shown.take(i + 1).last() == path.text());
                assert(read(shown.take(i + 1)) =~= read(shown.take(i as int)).push(path@));
                read(shown.take(i as int)).lemma_push_to_set_commute(path@);
            }
            if remaining.remove(path) {
                ordered.push(path.clone());
                assert(given(ordered@) =~= before.push(path.text()));
            }
            proof {
                assert(remaining@ =~= all.difference(read(shown.take(i + 1)).to_set()));
            }
            i += 1;
        }
        let ghost front = in_order(shown, all);
        let mut hidden = remaining.to_vec();
        proof {
            assert(shown.take(i as int) =~= shown);
            lemma_in_order(shown, all);
            assert(read(given(hidden@)) =~= views(hidden@));
            lemma_front_and_rest(front, given(hidden@), read(shown), all);
        }
        let ghost first = ordered@;
        let ghost second = hidden@;
        ordered.append(&mut hidden);
        assert(ordered@ =~= first + second);
        assert(given(ordered@) =~= given(first) + given(second));
        ordered
    }

    /// What a click on `path` leaves selected.
    pub open spec fn clicked(
        self,
        next: TreeSelection,
        tree: FileTree,
        path: PathText,
        modifiers: ClickModifiers,
    ) -> bool {
        if modifiers.shift && self.anchor is Some {
            self.ranged(next, tree, path)
        } else if modifiers.secondary {
            self.flipped(next, path)
        } else {
            path_text(next.anchor) == Some(path) && next.additional@ == Set::<PathView>::empty()
        }
    }

    /// Whether `next` selects the rows from the anchor to `path`; only `path`
    /// where one of the two does not show.
    pub open spec fn ranged(self, next: TreeSelection, tree: FileTree, path: PathText) -> bool {
        let shown = tree.visible_paths();
        let from = first_position(shown, self.anchor->0@);
        let to = first_position(shown, components(path));
        match (from, to) {
            (Some(a), Some(b)) => {
                &&& path_text(next.anchor) == path_text(self.anchor)
                &&& next.additional@ == rows_between(shown, a, b).to_set().remove(self.anchor->0@)
            },
            _ => path_text(next.anchor) == Some(path) && next.additional@
                == Set::<PathView>::empty(),
        }
    }

    /// Whether `next` is this selection with `path` added or taken out. Where
    /// the anchor is taken out, another selected row takes its place.
    pub open spec fn flipped(self, next: TreeSelection, path: PathText) -> bool {
        let row = components(path);
        if path_view(self.anchor) == Some(row) {
            if self.additional@ == Set::<PathView>::empty() {
                next.anchor is None && next.additional@ == Set::<PathView>::empty()
            } else {
                next.anchor matches Some(promoted) && self.additional@.contains(promoted@)
                    && next.additional@ == self.additional@.remove(promoted@)
            }
        } else if self.additional@.contains(row) {
            path_text(next.anchor) == path_text(self.anchor) && next.additional@
                == self.additional@.remove(row)
        } else if self.anchor is None {
            path_text(next.anchor) == Some(path) && next.additional@ == self.additional@
        } else {
            path_text(next.anchor) == path_text(self.anchor) && next.additional@
                == self.additional@.insert(row)
        }
    }

    /// A click on a row: alone it selects the row, with Shift the rows from
    /// the anchor to it, and with the secondary key it adds the row or takes
    /// it out.
    pub fn tree_click_select(&mut self, tree: &FileTree, path: FilePath, modifiers: ClickModifiers)
        ensures
            old(self).clicked(*final(self), *tree, path.text(), modifiers),
    {
        if modifiers.shift && self.anchor.is_some() {
            self.tree_select_range_to(tree, &path);
            return ;
        }
        if modifiers.secondary {
            if holds(&self.anchor, &path) {
                match self.additional.any() {
                    Some(promoted) => {
                        let _ = self.additional.remove(&promoted);
                        self.anchor = Some(promoted);
                    },
                    None => {
                        self.anchor = None;
                    },
                }
            } else if !self.additional.remove(&path) {
                assert(old(self).additional@.remove(path@) =~= old(self).additional@);
                if self.anchor.is_none() {
                    self.anchor = Some(path);
                } else {
                    let _ = self.additional.insert(path);
                }
            }
            return ;
        }
        self.select_only(path);
    }

    fn tree_select_range_to(&mut self, tree: &FileTree, path: &FilePath)
        requires
            old(self).anchor is Some,
        ensures
            old(self).ranged(*final(self), *tree, path.text()),
    {
        let anchor = match &self.anchor {
            Some(anchor) => anchor.clone(),
            None => path.clone(),
        };
        let visible = tree.visible_indices();
        let ghost shown = tree.visible_paths();
        let from = position_of(tree, &visible, &anchor);
        let to = position_of(tree, &visible, path);
        if from.is_none() || to.is_none() {
            self.select_only(path.clone());
            return ;
        }
        let count = visible.len();
        let a = from.unwrap();
        let b = to.unwrap();
        assert(a < count && b < count);
        let start = if a <= b {
            a
        } else {
            b
        };
        let stop = if a <= b {
            b + 1
        } else {
            a + 1
        };
        let ghost rows = rows_between(shown, a as int, b as int);
        let mut between = PathSet::new();
        proof {
            assert(rows.take(0).to_set().remove(anchor@) =~= Set::<PathView>::empty());
        }
        let mut i: usize = start;
        while i < stop
            invariant
                start <= i <= stop <= visible@.len(),
                as_ints(visible@) == tree.visible(),
                forall|k: int|
                    0 <= k < visible@.len() ==> (#[trigger] visible@[k]) < tree.entries@.len(),
                shown == tree.visible_paths(),
                shown.len() == visible@.len(),
                rows == shown.subrange(start as int, stop as int),
                between@ == rows.take(i - start).to_set().remove(anchor@),
            decreases stop - i,
        {
            let entry = &tree.entries[visible[i]].path;
            proof {
                assert(as_ints(visible@)[i as int] == visible@[i as int] as int);
                assert(shown[i as int] == entry@);
                assert(rows[i - start] == entry@);
                assert(rows.take(i - start + 1) =~= rows.take(i - start).push(entry@));
                rows.take(i - start).lemma_push_to_set_commute(entry@);
            }
            if !entry.same(&anchor) {
                let _ = between.insert(entry.clone());
            }
            assert(between@ =~= rows.take(i - start + 1).to_set().remove(anchor@));
            i += 1;
        }
        assert(rows.take(i - start) =~= rows);
        self.additional = between;
        self.anchor = Some(anchor);
    }
}

/// Where the row of `path` stands among the rows that show.
fn position_of(tree: &FileTree, visible: &Vec<usize>, path: &FilePath) -> (position: Option<usize>)
    requires
        as_ints(visible@) == tree.visible(),
        forall|k: int| 0 <= k < visible@.len() ==> (#[trigger] visible@[k]) < tree.entries@.len(),
    ensures
        position matches Some(i) ==> i < visible@.len() && first_position(
            tree.visible_paths(),
            path@,
        ) == Some(i as int),
        position is None ==> first_position(tree.visible_paths(), path@) is None,
{
    let ghost shown = tree.visible_paths();
    assert(shown.len() == visible@.len()) by {
        assert(as_ints(visible@).len() == visible@.len());
    }
    let mut i: usize = 0;
    while i < visible.len()
        invariant
            i <= visible.len(),
            as_ints(visible@) == tree.visible(),
            forall|k: int|
                0 <= k < visible@.len() ==> (#[trigger] visible@[k]) < tree.entries@.len(),
            shown == tree.visible_paths(),
            shown.len() == visible@.len(),
            forall|k: int| 0 <= k < i ==> shown[k] != path@,
        decreases visible.len() - i,
    {
        assert(as_ints(visible@)[i as int] == visible@[i as int] as int);
        assert(shown[i as int] == tree.entries@[visible@[i as int] as int].path@);
        if tree.entries[visible[i]].path.same(path) {
            proof {
                lemma_first(shown, path@, i as int);
            }
            return Some(i);
        }
        i += 1;
    }
    None
}

/// A click with the secondary key flips whether that one row is selected.
pub proof fn law_secondary_click_flips_one_row(
    before: TreeSelection,
    after: TreeSelection,
    path: PathText,
)
    requires
        before.well_formed(),
        before.flipped(after, path),
    ensures
        after.well_formed(),
        after.selected() == if before.selected().contains(components(path)) {
            before.selected().remove(components(path))
        } else {
            before.selected().insert(components(path))
        },
{
    assert(after.selected() =~= if before.selected().contains(components(path)) {
        before.selected().remove(components(path))
    } else {
        before.selected().insert(components(path))
    });
}

/// A click with Shift selects the rows from the anchor to the clicked row,
/// whatever else was selected before: a second one measures the range anew
/// from the same anchor.
pub proof fn law_shift_click_selects_the_range(
    before: TreeSelection,
    after: TreeSelection,
    tree: FileTree,
    path: PathText,
)
    requires
        before.anchor is Some,
        before.ranged(after, tree, path),
        tree.visible_paths().contains(before.anchor->0@),
        tree.visible_paths().contains(components(path)),
    ensures
        after.well_formed(),
        path_view(after.anchor) == path_view(before.anchor),
        after.selected() == rows_between(
            tree.visible_paths(),
            first_position(tree.visible_paths(), before.anchor->0@)->0,
            first_position(tree.visible_paths(), components(path))->0,
        ).to_set(),
        after.selected().contains(components(path)),
{
    let shown = tree.visible_paths();
    let anchor = before.anchor->0@;
    lemma_some_first(shown, anchor);
    let row = components(path);
    lemma_some_first(shown, row);
    let a = first_position(shown, anchor)->0;
    let b = first_position(shown, row)->0;
    let rows = rows_between(shown, a, b);
    if a <= b {
        assert(rows[0] == anchor);
        assert(rows[b - a] == row);
    } else {
        assert(rows[a - b] == anchor);
        assert(rows[0] == row);
    }
    assert(rows.contains(anchor));
    assert(rows.contains(row));
    assert(after.selected() =~= rows.to_set());
}

proof fn lemma_some_first(paths: Seq<PathView>, path: PathView)
    requires
        paths.contains(path),
    ensures
        is_first(paths, path, first_position(paths, path)->0),
{
    let i = choose|i: int| 0 <= i < paths.len() && paths[i] == path;
    lemma_first_before(paths, path, i);
}

proof fn lemma_first_before(paths: Seq<PathView>, path: PathView, i: int)
    requires
        0 <= i < paths.len(),
        paths[i] == path,
    ensures
        exists|k: int| is_first(paths, path, k),
    decreases i,
{
    if forall|k: int| 0 <= k < i ==> paths[k] != path {
        assert(is_first(paths, path, i));
    } else {
        let k = choose|k: int| 0 <= k < i && paths[k] == path;
        lemma_first_before(paths, path, k);
    }
}

/// A click alone leaves one row selected.
pub proof fn law_plain_click_selects_one(
    before: TreeSelection,
    after: TreeSelection,
    tree: FileTree,
    path: PathText,
)
    requires
        before.clicked(after, tree, path, ClickModifiers { shift: false, secondary: false }),
    ensures
        after.well_formed(),
        after.selected() == set![components(path)],
{
    assert(after.selected() =~= set![components(path)]);
}

} // verus!
