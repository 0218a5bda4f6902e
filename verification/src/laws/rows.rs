use vstd::prelude::*;
use vstd::string::*;

use crate::laws::selection::is_selected;
use crate::laws::{is_at, says};
use crate::path::{parent, FilePath, PathView};
use crate::path_set::given;
use crate::selection::{ClickModifiers, TreeSelection};
use crate::state::{InlineEditKind, Sidebar, TreeMark};
use crate::table::Table;
use crate::text::{count_text, decimal_text, texts};
use crate::theme::ThemeColor;
use crate::tree::{as_ints, FileTree, FileTreeEntry};
use crate::tree_view::{
    entry_rows, row_of, tree_caret, tree_drop_target_dir, InlineEditElement, RowClick, TreeBody,
    TreeDragPayload, TreeRow, TreeRowElement,
};

verus! {

/// Where the field for a name belongs: the entry that gets the name, or the
/// directory that a new entry lands in.
pub open spec fn field_path(kind: InlineEditKind) -> PathView {
    match kind {
        InlineEditKind::NewFile { parent } => parent@,
        InlineEditKind::NewFolder { parent } => parent@,
        InlineEditKind::Rename { path, .. } => path@,
    }
}

/// With no name typed the rows are those that were given, one for one.
pub proof fn law_rows_without_a_field(
    sidebar: &Sidebar,
    indices: &Vec<usize>,
    rows: (Vec<TreeRow>, usize),
)
    requires
        forall|i: int|
            0 <= i < sidebar.tree.entries@.len() ==> (#[trigger] sidebar.tree.entries@[i]).depth
                < usize::MAX,
        call_ensures(Sidebar::file_tree_rows, (sidebar, indices), rows),
        sidebar.inline_edit is None,
    ensures
        rows.0@.len() == indices@.len(),
        forall|k: int|
            0 <= k < indices@.len() ==> #[trigger] rows.0@[k] == TreeRow::Entry(indices@[k]),
{
}

proof fn lemma_first_row(
    indices: Seq<usize>,
    entries: Seq<FileTreeEntry>,
    path: PathView,
    at: int,
)
    requires
        0 <= at < indices.len(),
        indices[at] < entries.len(),
        entries[indices[at] as int].path@ == path,
        forall|k: int|
            0 <= k < at ==> (#[trigger] indices[k]) >= entries.len() || entries[
                indices[k] as int
            ].path@ != path,
    ensures
        row_of(indices, entries, path) == Some(at),
    decreases indices.len(),
{
    let rest = indices.drop_last();
    if at < rest.len() {
        assert(rest[at] == indices[at]);
        assert forall|k: int| 0 <= k < at implies (#[trigger] rest[k]) >= entries.len() || entries[
            rest[k] as int
        ].path@ != path by {
            assert(rest[k] == indices[k]);
        }
        lemma_first_row(rest, entries, path, at);
    } else {
        lemma_no_row(rest, entries, path);
        assert forall|k: int| 0 <= k < rest.len() implies (#[trigger] rest[k]) >= entries.len()
            || entries[rest[k] as int].path@ != path by {
            assert(rest[k] == indices[k]);
        }
    }
}

proof fn lemma_no_row(indices: Seq<usize>, entries: Seq<FileTreeEntry>, path: PathView)
    ensures
        (forall|k: int|
            0 <= k < indices.len() ==> (#[trigger] indices[k]) >= entries.len() || entries[
                indices[k] as int
            ].path@ != path) ==> row_of(indices, entries, path) is None,
    decreases indices.len(),
{
    if indices.len() > 0 {
        let rest = indices.drop_last();
        lemma_no_row(rest, entries, path);
        if forall|k: int|
            0 <= k < indices.len() ==> (#[trigger] indices[k]) >= entries.len() || entries[
                indices[k] as int
            ].path@ != path {
            assert forall|k: int| 0 <= k < rest.len() implies (#[trigger] rest[k])
                >= entries.len() || entries[rest[k] as int].path@ != path by {
                assert(rest[k] == indices[k]);
            }
            assert(indices[indices.len() - 1] == indices.last());
        }
    }
}

/// A new name is typed in place of the row of its entry: every other row is
/// where it was, and the field is indented as that row.
pub proof fn law_field_in_place_of_its_row(
    sidebar: &Sidebar,
    indices: &Vec<usize>,
    rows: (Vec<TreeRow>, usize),
    at: int,
)
    requires
        forall|i: int|
            0 <= i < sidebar.tree.entries@.len() ==> (#[trigger] sidebar.tree.entries@[i]).depth
                < usize::MAX,
        call_ensures(Sidebar::file_tree_rows, (sidebar, indices), rows),
        sidebar.inline_edit matches Some(edit) && edit.kind is Rename,
        0 <= at < indices@.len(),
        indices@[at] < sidebar.tree.entries@.len(),
        sidebar.tree.entries@[indices@[at] as int].path@ == field_path(
            sidebar.inline_edit->0.kind,
        ),
        forall|k: int|
            0 <= k < at ==> (#[trigger] indices@[k]) >= sidebar.tree.entries@.len()
                || sidebar.tree.entries@[indices@[k] as int].path@ != field_path(
                sidebar.inline_edit->0.kind,
            ),
    ensures
        rows.0@.len() == indices@.len(),
        rows.0@[at] is InlineEditor,
        rows.1 == sidebar.tree.entries@[indices@[at] as int].depth,
        forall|k: int|
            0 <= k < indices@.len() && k != at ==> #[trigger] rows.0@[k] == TreeRow::Entry(
                indices@[k],
            ),
{
    lemma_first_row(
        indices@,
        sidebar.tree.entries@,
        field_path(sidebar.inline_edit->0.kind),
        at,
    );
}

/// A new entry is typed right below the row of its directory, one level
/// deeper: the rows up to the directory stay, and those below it follow.
pub proof fn law_field_below_its_directory(
    sidebar: &Sidebar,
    indices: &Vec<usize>,
    rows: (Vec<TreeRow>, usize),
    at: int,
)
    requires
        forall|i: int|
            0 <= i < sidebar.tree.entries@.len() ==> (#[trigger] sidebar.tree.entries@[i]).depth
                < usize::MAX,
        call_ensures(Sidebar::file_tree_rows, (sidebar, indices), rows),
        sidebar.inline_edit matches Some(edit) && !(edit.kind is Rename),
        0 <= at < indices@.len(),
        indices@[at] < sidebar.tree.entries@.len(),
        sidebar.tree.entries@[indices@[at] as int].path@ == field_path(
            sidebar.inline_edit->0.kind,
        ),
        forall|k: int|
            0 <= k < at ==> (#[trigger] indices@[k]) >= sidebar.tree.entries@.len()
                || sidebar.tree.entries@[indices@[k] as int].path@ != field_path(
                sidebar.inline_edit->0.kind,
            ),
    ensures
        rows.0@.len() == indices@.len() + 1,
        rows.0@[at + 1] is InlineEditor,
        rows.1 == sidebar.tree.entries@[indices@[at] as int].depth + 1,
        forall|k: int| 0 <= k <= at ==> #[trigger] rows.0@[k] == TreeRow::Entry(indices@[k]),
        forall|k: int|
            at + 1 < k <= indices@.len() ==> #[trigger] rows.0@[k] == TreeRow::Entry(
                indices@[k - 1],
            ),
{
    lemma_first_row(
        indices@,
        sidebar.tree.entries@,
        field_path(sidebar.inline_edit->0.kind),
        at,
    );
    let all = entry_rows(indices@);
    assert(rows.0@ == all.insert(at + 1, TreeRow::InlineEditor));
    assert forall|k: int| at + 1 < k <= indices@.len() implies #[trigger] rows.0@[k]
        == TreeRow::Entry(indices@[k - 1]) by {
        assert(rows.0@[k] == all[k - 1]);
    }
}

/// Where the row that the field belongs to does not show, the field is on top,
/// and every row follows.
pub proof fn law_field_on_top(
    sidebar: &Sidebar,
    indices: &Vec<usize>,
    rows: (Vec<TreeRow>, usize),
)
    requires
        forall|i: int|
            0 <= i < sidebar.tree.entries@.len() ==> (#[trigger] sidebar.tree.entries@[i]).depth
                < usize::MAX,
        call_ensures(Sidebar::file_tree_rows, (sidebar, indices), rows),
        sidebar.inline_edit is Some,
        forall|k: int|
            0 <= k < indices@.len() ==> (#[trigger] indices@[k]) >= sidebar.tree.entries@.len()
                || sidebar.tree.entries@[indices@[k] as int].path@ != field_path(
                sidebar.inline_edit->0.kind,
            ),
    ensures
        rows.0@.len() == indices@.len() + 1,
        rows.0@[0] is InlineEditor,
        rows.1 == 0,
        forall|k: int|
            0 < k <= indices@.len() ==> #[trigger] rows.0@[k] == TreeRow::Entry(indices@[k - 1]),
{
    lemma_no_row(indices@, sidebar.tree.entries@, field_path(sidebar.inline_edit->0.kind));
}

/// The tree is drawn as the rows that show, with the field among them; an
/// error in their place, or a note where there is nothing.
pub proof fn law_what_is_drawn(
    sidebar: &Sidebar,
    body: TreeBody,
    indices: &Vec<usize>,
    rows: (Vec<TreeRow>, usize),
)
    requires
        forall|i: int|
            0 <= i < sidebar.tree.entries@.len() ==> (#[trigger] sidebar.tree.entries@[i]).depth
                < usize::MAX,
        call_ensures(Sidebar::file_tree_body, (sidebar,), body),
        call_ensures(FileTree::visible_indices, (&sidebar.tree,), *indices),
        call_ensures(Sidebar::file_tree_rows, (sidebar, indices), rows),
    ensures
        sidebar.tree.error matches Some(error) ==> (body matches TreeBody::Error { message, editor }
            && message@ == "failed to read directory: "@ + error@ && editor
            == sidebar.inline_edit is Some),
        sidebar.tree.error is None && sidebar.tree.entries@.len() == 0
            && sidebar.inline_edit is None ==> (body matches TreeBody::Empty { text } && text@
            == "(empty directory)"@),
        sidebar.tree.error is None && (sidebar.tree.entries@.len() > 0
            || sidebar.inline_edit is Some) ==> (body matches TreeBody::Rows {
            rows: drawn,
            editor_depth,
        } && drawn@ == rows.0@ && editor_depth == rows.1),
{
    if let TreeBody::Rows { rows: drawn, editor_depth } = body {
        let found = choose|found: Seq<usize>| #[trigger]
            as_ints(found) == sidebar.tree.visible() && drawn@ == sidebar.rows_for(found).0
                && editor_depth == sidebar.rows_for(found).1;
        assert(found.len() == as_ints(found).len());
        assert(indices@.len() == as_ints(indices@).len());
        assert forall|k: int| 0 <= k < found.len() implies found[k] == indices@[k] by {
            assert(as_ints(found)[k] == found[k] as int);
            assert(as_ints(indices@)[k] == indices@[k] as int);
        }
        assert(found =~= indices@);
    }
}

/// Why the last operation failed is told below the rows, as it was reported,
/// and not where no rows are drawn.
pub proof fn law_failure_is_told(sidebar: &Sidebar, row: Option<String>)
    requires
        call_ensures(Sidebar::op_error_row, (sidebar,), row),
    ensures
        row is Some == (sidebar.op_error is Some && sidebar.tree.error is None && (
        sidebar.tree.entries@.len() > 0 || sidebar.inline_edit is Some)),
        row matches Some(text) ==> says(sidebar.op_error, text@),
{
}

/// The field shows what was typed, what it is for, and what is wrong with it.
pub proof fn law_field_shows_what_was_typed(
    sidebar: &Sidebar,
    depth: usize,
    field: Option<InlineEditElement>,
)
    requires
        call_ensures(Sidebar::inline_edit_view, (sidebar, depth), field),
    ensures
        field is Some == sidebar.inline_edit is Some,
        sidebar.inline_edit matches Some(edit) ==> {
            &&& field->0.name@ == edit.name@
            &&& field->0.depth == depth
            &&& edit.error is None ==> field->0.error is None
            &&& edit.error matches Some(hint) ==> says(field->0.error, hint@)
            &&& edit.kind is NewFile ==> field->0.title@ == "New file"@
            &&& edit.kind is NewFolder ==> field->0.title@ == "New folder"@
            &&& edit.kind is Rename ==> field->0.title@ == "Rename"@
        },
{
}

/// A row shows its entry: its name and depth, whether it is a directory and
/// expanded, and the mark that the entry's path has. Only a directory offers a
/// new file.
pub proof fn law_row_shows_its_entry(
    sidebar: &Sidebar,
    entry: &FileTreeEntry,
    marks: &Table<FilePath, TreeMark>,
    focused: bool,
    row: TreeRowElement,
    caret: &'static str,
)
    requires
        call_ensures(Sidebar::file_tree_row_view, (sidebar, entry, marks, focused), row),
        call_ensures(tree_caret, (entry.is_dir, row.is_open), caret),
    ensures
        row.name@ == entry.name@,
        row.depth == entry.depth,
        row.guides@.len() == entry.depth,
        row.is_open == (entry.is_dir && sidebar.tree.fold.expanded@.contains(entry.path@)),
        row.caret@ == caret@,
        row.mark is Some == marks@.contains_key(entry.path@),
        row.mark matches Some(mark) ==> mark == marks@[entry.path@],
        row.new_file is Some == entry.is_dir,
        row.new_file matches Some(control) ==> control.tooltip@ == "New file in "@ + entry.name@,
        entry.is_dir ==> row.name_color == ThemeColor::TextSecondary,
        !entry.is_dir ==> row.name_color == ThemeColor::TextStrong,
{
    assert(texts(row.guides@).len() == row.guides@.len());
}

/// No two guides of a row have one name: a guide's ends in its level.
pub proof fn law_guides_by_level(
    sidebar: &Sidebar,
    entry: &FileTreeEntry,
    marks: &Table<FilePath, TreeMark>,
    focused: bool,
    row: TreeRowElement,
    level: int,
    number: String,
)
    requires
        call_ensures(Sidebar::file_tree_row_view, (sidebar, entry, marks, focused), row),
        0 <= level < entry.depth,
        level <= u64::MAX,
        call_ensures(decimal_text, (level as u64,), number),
    ensures
        row.guides@.len() == entry.depth,
        row.guides@[level]@ == "file-tree-guide-"@ + entry.name@ + "-"@ + number@,
{
    assert(texts(row.guides@).len() == row.guides@.len());
    assert(texts(row.guides@)[level] == row.guides@[level]@);
}

/// A row is drawn as a place to drop on where it is a directory with a drag
/// over it; otherwise as selected where its file is open, or where it is
/// selected and the tree has the focus; and otherwise as nothing special.
pub proof fn law_row_background(
    sidebar: &Sidebar,
    entry: &FileTreeEntry,
    marks: &Table<FilePath, TreeMark>,
    focused: bool,
    row: TreeRowElement,
)
    requires
        call_ensures(Sidebar::file_tree_row_view, (sidebar, entry, marks, focused), row),
    ensures
        ({
            let dropping = entry.is_dir && (sidebar.drag_target matches Some(over) && over@
                == entry.path@);
            let open = sidebar.changes.open_change matches Some(open) && crate::path::join(
                sidebar.tree.fold.root@,
                open@,
            ) == entry.path@;
            let lit = open || focused && is_selected(sidebar.selection, entry.path@);
            &&& dropping ==> row.background == ThemeColor::DropTarget
            &&& !dropping && lit ==> row.background == ThemeColor::RowSelected
            &&& !dropping && !lit ==> row.background == ThemeColor::Transparent
        }),
{
}

/// A drag of one of several selected rows carries them all, as the selection
/// lists them; any other carries its own row alone.
pub proof fn law_drag_carries_the_selection(
    sidebar: &Sidebar,
    entry: &FileTreeEntry,
    payload: TreeDragPayload,
    several: bool,
    items: String,
)
    requires
        call_ensures(Sidebar::tree_drag_payload, (sidebar, entry), payload),
        call_ensures(TreeSelection::several, (&sidebar.selection,), several),
        payload.paths@.len() <= usize::MAX,
        call_ensures(count_text, (payload.paths@.len() as usize, "item"), items),
    ensures
        !several || !is_selected(sidebar.selection, entry.path@) ==> payload.paths@.len() == 1
            && payload.paths@[0].text() == entry.path.text(),
        several && is_selected(sidebar.selection, entry.path@) ==> forall|path: PathView|
            #[trigger] is_selected(sidebar.selection, path) <==> exists|k: int|
                0 <= k < payload.paths@.len() && (#[trigger] payload.paths@[k])@ == path,
        payload.paths@.len() == 1 ==> payload.label@ == entry.name@,
        payload.paths@.len() > 1 ==> payload.label@ == items@,
{
    let order = given(payload.paths@);
    assert(order.len() == payload.paths@.len());
    if several && is_selected(sidebar.selection, entry.path@) {
        let read = crate::path_set::read(order);
        assert(read.len() == order.len());
        assert forall|k: int| 0 <= k < read.len() implies read[k] == (
        #[trigger] payload.paths@[k])@ by {
            assert(order[k] == payload.paths@[k].text());
        }
        assert forall|path: PathView| #[trigger]
            is_selected(sidebar.selection, path) <==> exists|k: int|
                0 <= k < payload.paths@.len() && (#[trigger] payload.paths@[k])@ == path by {
            assert(read.to_set().contains(path) == sidebar.selection.selected().contains(path));
            if is_selected(sidebar.selection, path) {
                let k = read.index_of(path);
                assert(payload.paths@[k]@ == path);
            }
            if exists|k: int|
                0 <= k < payload.paths@.len() && (#[trigger] payload.paths@[k])@ == path {
                let k = choose|k: int|
                    0 <= k < payload.paths@.len() && (#[trigger] payload.paths@[k])@ == path;
                assert(read.contains(read[k]));
            }
        }
    } else {
        assert(order[0] == payload.paths@[0].text());
    }
}

/// The place to drop on is the row under the drag, unless that is a directory
/// which is dragged itself; a drag that leaves the row takes the place away,
/// and one over another row leaves it.
pub proof fn law_drop_place_follows_the_drag(
    sidebar: &mut Sidebar,
    hover: &FilePath,
    over: bool,
    onto_dir: bool,
    dragged: &Vec<FilePath>,
    changed: bool,
)
    requires
        call_ensures(
            Sidebar::tree_drag_moved,
            (sidebar, hover, over, onto_dir, dragged),
            changed,
        ),
    ensures
        ({
            let itself = onto_dir && exists|k: int|
                0 <= k < dragged@.len() && (#[trigger] dragged@[k])@ == hover@;
            &&& over && !itself ==> (final(sidebar).drag_target matches Some(place) && place@
                == hover@)
            &&& !over || itself ==> !(final(sidebar).drag_target matches Some(place) && place@
                == hover@)
            &&& !over && (old(sidebar).drag_target matches Some(place) && place@ != hover@) ==> (
            final(sidebar).drag_target matches Some(place) && place@
                == old(sidebar).drag_target->0@)
            &&& changed == !(match (old(sidebar).drag_target, final(sidebar).drag_target) {
                (Some(before), Some(after)) => before@ == after@,
                (None, None) => true,
                _ => false,
            })
        }),
        final(sidebar).tree == old(sidebar).tree,
        final(sidebar).selection == old(sidebar).selection,
{
    let all = crate::path_set::views(dragged@);
    assert(all.len() == dragged@.len());
    if all.contains(hover@) {
        let k = all.index_of(hover@);
        assert(dragged@[k]@ == hover@);
    }
    assert forall|k: int| 0 <= k < dragged@.len() implies all.contains(
        (#[trigger] dragged@[k])@,
    ) by {
        assert(all[k] == dragged@[k]@);
    }
}

/// When a drag ends there is no place to drop on.
pub proof fn law_drag_ends(sidebar: &mut Sidebar)
    requires
        call_ensures(Sidebar::tree_drag_ended, (sidebar,), ()),
    ensures
        final(sidebar).drag_target is None,
        final(sidebar).tree == old(sidebar).tree,
        final(sidebar).selection == old(sidebar).selection,
        final(sidebar).docs == old(sidebar).docs,
{
}

/// A plain click on a directory expands or collapses it and no other; one on a
/// file opens it. Either way the row is the one that is selected.
pub proof fn law_plain_click(
    sidebar: &mut Sidebar,
    path: &FilePath,
    is_dir: bool,
    modifiers: ClickModifiers,
    click: RowClick,
    other: PathView,
)
    requires
        call_ensures(Sidebar::tree_row_clicked, (sidebar, path, is_dir, modifiers), click),
        !modifiers.secondary && !modifiers.shift,
    ensures
        is_at(final(sidebar).selection.anchor, path.text()),
        is_selected(final(sidebar).selection, other) == (other == path@),
        is_dir ==> click is Folded
            && final(sidebar).tree.fold.expanded@.contains(path@) != old(sidebar).tree.fold.expanded@.contains(path@),
        is_dir && other != path@ ==> final(sidebar).tree.fold.expanded@.contains(other)
            == old(sidebar).tree.fold.expanded@.contains(other),
        !is_dir ==> final(sidebar).tree == old(sidebar).tree && (click matches RowClick::OpenFile(
            opened,
        ) && opened.text() == path.text()),
        final(sidebar).tree.entries == old(sidebar).tree.entries,
        final(sidebar).docs == old(sidebar).docs,
        final(sidebar).history == old(sidebar).history,
{
}

/// A click with a modifier is one on the selection, and nothing else.
pub proof fn law_click_with_a_modifier(
    sidebar: &mut Sidebar,
    selection: &mut TreeSelection,
    path: &FilePath,
    copy: FilePath,
    is_dir: bool,
    modifiers: ClickModifiers,
    click: RowClick,
    other: PathView,
)
    requires
        call_ensures(Sidebar::tree_row_clicked, (sidebar, path, is_dir, modifiers), click),
        modifiers.secondary || modifiers.shift,
        modifiers.shift || !(old(sidebar).selection.anchor matches Some(anchor) && anchor@
            == path@),
        *selection == old(sidebar).selection,
        copy.text() == path.text(),
        exists|tree: &FileTree|
            *tree == old(sidebar).tree && #[trigger] call_ensures(
                TreeSelection::tree_click_select,
                (selection, tree, copy, modifiers),
                (),
            ),
    ensures
        click is SelectionChanged,
        final(sidebar).tree == old(sidebar).tree,
        final(sidebar).docs == old(sidebar).docs,
        is_selected(final(sidebar).selection, other) == is_selected(*final(selection), other),
{
}

/// A drop on a row lands in the directory that it is, or in that of the file.
pub proof fn law_drop_lands_in_the_directory(path: &FilePath, is_dir: bool, dir: Option<FilePath>)
    requires
        call_ensures(tree_drop_target_dir, (path, is_dir), dir),
    ensures
        is_dir ==> is_at(dir, path.text()),
        !is_dir ==> match (parent(path@), dir) {
            (Some(above), Some(there)) => there@ == above,
            (None, None) => true,
            _ => false,
        },
{
    crate::path::lemma_parent_text(path.text());
}

} // verus!
