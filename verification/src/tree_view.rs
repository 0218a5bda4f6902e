use vstd::prelude::*;
use vstd::string::*;

use crate::fold::toggled;
use crate::path::{
    components, holds, join, parent, path_text, path_view, shown, text_parent, FilePath, PathText,
    PathView,
};
use crate::path_set::{given, views};
use crate::selection::ClickModifiers;
use crate::state::{InlineEditKind, Sidebar, TreeMark};
use crate::table::Table;
use crate::text::{
    concat4, concat_text, count_text, counted, decimal, decimal_text, option_text, texts,
};
use crate::theme::ThemeColor;
use crate::tree::{as_ints, FileTree, FileTreeEntry};

verus! {

/// A row of the file tree.
#[derive(Clone, Copy, Debug, PartialEq, Eq, Structural)]
pub enum TreeRow {
    /// The entry at this index.
    Entry(usize),
    /// The field that a name is typed in.
    InlineEditor,
}

pub open spec fn entry_rows(indices: Seq<usize>) -> Seq<TreeRow> {
    indices.map_values(|i: usize| TreeRow::Entry(i))
}

/// The first of the rows whose entry is at `path`.
pub open spec fn row_of(
    indices: Seq<usize>,
    entries: Seq<FileTreeEntry>,
    path: PathView,
) -> Option<int>
    decreases indices.len(),
{
    if indices.len() == 0 {
        None
    } else {
        match row_of(indices.drop_last(), entries, path) {
            Some(row) => Some(row),
            None => if indices.last() < entries.len() && entries[indices.last() as int].path@
                == path {
                Some(indices.len() - 1)
            } else {
                None
            },
        }
    }
}

proof fn lemma_row_of(indices: Seq<usize>, entries: Seq<FileTreeEntry>, path: PathView)
    ensures
        row_of(indices, entries, path) matches Some(row) ==> 0 <= row < indices.len()
            && indices[row] < entries.len() && entries[indices[row] as int].path@ == path,
    decreases indices.len(),
{
    if indices.len() > 0 {
        lemma_row_of(indices.drop_last(), entries, path);
    }
}

impl Sidebar {
    /// The rows of the tree with the field for a name among them: in place of
    /// the entry that gets a new name, or below the directory that a new entry
    /// lands in, or on top where that row does not show.
    pub open spec fn rows_for(self, indices: Seq<usize>) -> (Seq<TreeRow>, nat) {
        let rows = entry_rows(indices);
        let entries = self.tree.entries@;
        match self.inline_edit {
            None => (rows, 0),
            Some(edit) => match row_of(indices, entries, edit.kind.anchor_path()) {
                None => (seq![TreeRow::InlineEditor] + rows, 0),
                Some(row) => {
                    let depth = entries[indices[row] as int].depth as nat;
                    if edit.kind is Rename {
                        (rows.update(row, TreeRow::InlineEditor), depth)
                    } else {
                        (rows.insert(row + 1, TreeRow::InlineEditor), depth + 1)
                    }
                },
            },
        }
    }

    /// The rows of the tree, and how far the field for a name is indented.
    pub fn file_tree_rows(&self, visible_indices: &Vec<usize>) -> (rows: (Vec<TreeRow>, usize))
        requires
            forall|i: int|
                0 <= i < self.tree.entries@.len() ==> (#[trigger] self.tree.entries@[i]).depth
                    < usize::MAX,
        ensures
            rows.0@ == self.rows_for(visible_indices@).0,
            rows.1 == self.rows_for(visible_indices@).1,
    {
        let ghost wanted = entry_rows(visible_indices@);
        let mut rows: Vec<TreeRow> = Vec::new();
        let mut i: usize = 0;
        while i < visible_indices.len()
            invariant
                i <= visible_indices.len(),
                wanted == entry_rows(visible_indices@),
                rows@ == wanted.take(i as int),
            decreases visible_indices.len() - i,
        {
            rows.push(TreeRow::Entry(visible_indices[i]));
            assert(rows@ =~= wanted.take(i + 1));
            i += 1;
        }
        assert(rows@ =~= wanted);
        let edit = match &self.inline_edit {
            Some(edit) => edit,
            None => {
                return (rows, 0);
            },
        };
        proof {
            lemma_row_of(visible_indices@, self.tree.entries@, edit.kind.anchor_path());
        }
        let anchor_row = self.find_row(visible_indices, edit.kind.anchor());
        match anchor_row {
            None => {
                rows.insert(0, TreeRow::InlineEditor);
                assert(rows@ =~= seq![TreeRow::InlineEditor] + wanted);
                (rows, 0)
            },
            Some(row) => {
                let depth = self.tree.entries[visible_indices[row]].depth;
                let renames = match &edit.kind {
                    InlineEditKind::Rename { .. } => true,
                    InlineEditKind::NewFile { .. } | InlineEditKind::NewFolder { .. } => false,
                };
                if renames {
                    rows[row] = TreeRow::InlineEditor;
                    assert(rows@ =~= wanted.update(row as int, TreeRow::InlineEditor));
                    (rows, depth)
                } else {
                    rows.insert(row + 1, TreeRow::InlineEditor);
                    assert(rows@ =~= wanted.insert(row + 1, TreeRow::InlineEditor));
                    (rows, depth + 1)
                }
            },
        }
    }

    fn find_row(&self, indices: &Vec<usize>, path: &FilePath) -> (row: Option<usize>)
        ensures
            match row_of(indices@, self.tree.entries@, path@) {
                Some(first) => row matches Some(found) && found == first && found < indices@.len()
                    && indices@[found as int] < self.tree.entries@.len(),
                None => row is None,
            },
    {
        let ghost entries = self.tree.entries@;
        let mut i: usize = 0;
        let mut found: Option<usize> = None;
        while i < indices.len()
            invariant
                i <= indices.len(),
                entries == self.tree.entries@,
                match row_of(indices@.take(i as int), entries, path@) {
                    Some(first) => found matches Some(here) && here == first && here < i
                        && indices@[here as int] < entries.len(),
                    None => found is None,
                },
            decreases indices.len() - i,
        {
            assert(indices@.take(i + 1).drop_last() =~= indices@.take(i as int));
            let index = indices[i];
            if found.is_none() && index < self.tree.entries.len()
                && self.tree.entries[index].path.same(path) {
                found = Some(i);
            }
            i += 1;
        }
        assert(indices@.take(i as int) =~= indices@);
        found
    }
}

/// How many of `rows` are fields for a name.
pub open spec fn editors(rows: Seq<TreeRow>) -> nat {
    rows.filter(|row: TreeRow| row is InlineEditor).len()
}

/// The field for a name is drawn exactly once while one is typed, wherever its
/// row went, and never otherwise.
pub proof fn law_one_editor(sidebar: Sidebar, indices: Seq<usize>)
    ensures
        editors(sidebar.rows_for(indices).0) == if sidebar.inline_edit is Some {
            1nat
        } else {
            0nat
        },
{
    let rows = entry_rows(indices);
    lemma_no_editor(rows);
    let one = seq![TreeRow::InlineEditor];
    if let Some(edit) = sidebar.inline_edit {
        lemma_row_of(indices, sidebar.tree.entries@, edit.kind.anchor_path());
        lemma_editor_alone();
        match row_of(indices, sidebar.tree.entries@, edit.kind.anchor_path()) {
            None => {
                lemma_editors_concat(one, rows);
            },
            Some(row) => {
                if edit.kind is Rename {
                    let front = rows.take(row);
                    let back = rows.skip(row + 1);
                    assert(rows.update(row, TreeRow::InlineEditor) =~= front + one + back);
                    lemma_no_editor_in_part(indices, 0, row);
                    lemma_no_editor_in_part(indices, row + 1, indices.len() as int);
                    assert(back =~= rows.subrange(row + 1, indices.len() as int));
                    assert(front =~= rows.subrange(0, row));
                    lemma_editors_concat(front + one, back);
                    lemma_editors_concat(front, one);
                } else {
                    let front = rows.take(row + 1);
                    let back = rows.skip(row + 1);
                    assert(rows.insert(row + 1, TreeRow::InlineEditor) =~= front + one + back);
                    lemma_no_editor_in_part(indices, 0, row + 1);
                    lemma_no_editor_in_part(indices, row + 1, indices.len() as int);
                    assert(back =~= rows.subrange(row + 1, indices.len() as int));
                    assert(front =~= rows.subrange(0, row + 1));
                    lemma_editors_concat(front + one, back);
                    lemma_editors_concat(front, one);
                }
            },
        }
    }
}

proof fn lemma_editor_alone()
    ensures
        editors(seq![TreeRow::InlineEditor]) == 1,
{
    reveal(Seq::filter);
    let one = seq![TreeRow::InlineEditor];
    let pred = |row: TreeRow| row is InlineEditor;
    assert(one.drop_last() =~= Seq::<TreeRow>::empty());
    assert(one.drop_last().filter(pred) =~= Seq::<TreeRow>::empty());
    assert(one.filter(pred) =~= one);
}

proof fn lemma_no_editor(rows: Seq<TreeRow>)
    requires
        forall|i: int| 0 <= i < rows.len() ==> (#[trigger] rows[i]) is Entry,
    ensures
        editors(rows) == 0,
    decreases rows.len(),
{
    reveal(Seq::filter);
    if rows.len() > 0 {
        assert(rows[rows.len() - 1] is Entry);
        lemma_no_editor(rows.drop_last());
    }
}

proof fn lemma_no_editor_in_part(indices: Seq<usize>, from: int, to: int)
    requires
        0 <= from <= to <= indices.len(),
    ensures
        editors(entry_rows(indices).subrange(from, to)) == 0,
{
    lemma_no_editor(entry_rows(indices).subrange(from, to));
}

proof fn lemma_editors_concat(a: Seq<TreeRow>, b: Seq<TreeRow>)
    ensures
        editors(a + b) == editors(a) + editors(b),
    decreases b.len(),
{
    reveal(Seq::filter);
    if b.len() == 0 {
        assert(a + b =~= a);
    } else {
        assert((a + b).drop_last() =~= a + b.drop_last());
        lemma_editors_concat(a, b.drop_last());
    }
}

/// What the file tree is drawn as.
pub enum TreeBody {
    /// The directory could not be read. A name that is being typed is still
    /// drawn.
    Error { message: String, editor: bool },
    /// The directory is empty.
    Empty { text: &'static str },
    Rows { rows: Vec<TreeRow>, editor_depth: usize },
}

impl Sidebar {
    /// What the file tree is drawn as.
    pub fn file_tree_body(&self) -> (body: TreeBody)
        requires
            forall|i: int|
                0 <= i < self.tree.entries@.len() ==> (#[trigger] self.tree.entries@[i]).depth
                    < usize::MAX,
        ensures
            body is Rows == self.draws_rows(),
            match self.tree.error {
                Some(error) => {
                    body matches TreeBody::Error { message, editor } && message@
                        == "failed to read directory: "@ + error@ && editor
                        == self.inline_edit is Some
                },
                None => if self.tree.entries@.len() == 0 && self.inline_edit is None {
                    body matches TreeBody::Empty { text } && text@ == "(empty directory)"@
                } else {
                    body matches TreeBody::Rows { rows, editor_depth } && exists|indices: Seq<
                        usize,
                    >| #[trigger]
                        as_ints(indices) == self.tree.visible() && rows@ == self.rows_for(
                            indices,
                        ).0 && editor_depth == self.rows_for(indices).1
                },
            },
    {
        match &self.tree.error {
            Some(error) => {
                return TreeBody::Error {
                    message: concat_text("failed to read directory: ", error.as_str()),
                    editor: self.inline_edit.is_some(),
                };
            },
            None => {},
        }
        if self.tree.entries.len() == 0 && self.inline_edit.is_none() {
            return TreeBody::Empty { text: "(empty directory)" };
        }
        let indices = self.tree.visible_indices();
        let (rows, editor_depth) = self.file_tree_rows(&indices);
        assert(as_ints(indices@) == self.tree.visible());
        TreeBody::Rows { rows, editor_depth }
    }
}

impl Sidebar {
    /// Whether the tree is drawn as rows.
    pub open spec fn draws_rows(self) -> bool {
        self.tree.error is None && (self.tree.entries@.len() > 0 || self.inline_edit is Some)
    }

    /// The row that says why the last operation failed. It is drawn below the
    /// rows of the tree, and only there.
    pub fn op_error_row(&self) -> (row: Option<String>)
        ensures
            option_text(row) == if self.draws_rows() {
                option_text(self.op_error)
            } else {
                None
            },
    {
        let rows = self.tree.error.is_none() && (self.tree.entries.len() > 0
            || self.inline_edit.is_some());
        match &self.op_error {
            Some(message) => if rows {
                Some(message.clone())
            } else {
                None
            },
            None => None,
        }
    }
}

/// The field that a name is typed in.
pub struct InlineEditElement {
    pub title: &'static str,
    pub name: String,
    pub error: Option<String>,
    pub depth: usize,
}

impl Sidebar {
    /// What the field for a name shows; nothing where none is typed.
    pub fn inline_edit_view(&self, depth: usize) -> (field: Option<InlineEditElement>)
        ensures
            field is Some == self.inline_edit is Some,
            field matches Some(shown) ==> (self.inline_edit matches Some(edit) && shown.name@
                == edit.name@ && option_text(shown.error) == option_text(edit.error) && shown.depth
                == depth && shown.title@ == match edit.kind {
                InlineEditKind::NewFile { .. } => "New file"@,
                InlineEditKind::NewFolder { .. } => "New folder"@,
                InlineEditKind::Rename { .. } => "Rename"@,
            }),
    {
        match &self.inline_edit {
            Some(edit) => Some(
                InlineEditElement {
                    title: edit.kind.title(),
                    name: edit.name.clone(),
                    error: match &edit.error {
                        Some(message) => Some(message.clone()),
                        None => None,
                    },
                    depth,
                },
            ),
            None => None,
        }
    }
}

/// What stands for the drag of a row, or of all selected rows.
pub struct TreeDragPayload {
    pub paths: Vec<FilePath>,
    pub label: String,
}

/// Everything that a row of the file tree shows.
pub struct TreeRowElement {
    pub id: String,
    pub selector: String,
    pub depth: usize,
    /// One guide for each level above the row.
    pub guides: Vec<String>,
    /// The colour of all guides, whatever is selected or open.
    pub guide_color: ThemeColor,
    /// Whether the row is a directory that is expanded.
    pub is_open: bool,
    pub background: ThemeColor,
    pub caret: &'static str,
    pub name: String,
    pub name_color: ThemeColor,
    pub mark: Option<TreeMark>,
    /// The control that makes a new file in this directory.
    pub new_file: Option<NewFileControl>,
}

pub struct NewFileControl {
    pub id: String,
    pub tooltip: String,
}

/// The selectors of the guides of a row.
pub open spec fn guide_texts(name: Seq<char>, depth: nat) -> Seq<Seq<char>> {
    Seq::new(depth, |level: int| "file-tree-guide-"@ + name + "-"@ + decimal(level as nat))
}

/// The glyph that says whether a directory is expanded.
pub fn tree_caret(is_dir: bool, open: bool) -> (glyph: &'static str)
    ensures
        glyph@ == if !is_dir {
            ""@
        } else if open {
            "\u{25be}"@
        } else {
            "\u{25b8}"@
        },
{
    if !is_dir {
        ""
    } else if open {
        "\u{25be}"
    } else {
        "\u{25b8}"
    }
}

/// The fill and the border of a directory's icon.
pub fn folder_icon_colors(open: bool) -> (colors: (ThemeColor, ThemeColor))
    ensures
        colors == if open {
            (ThemeColor::ChipNeutral, ThemeColor::TextFaint)
        } else {
            (ThemeColor::Transparent, ThemeColor::TextGhost)
        },
{
    if open {
        (ThemeColor::ChipNeutral, ThemeColor::TextFaint)
    } else {
        (ThemeColor::Transparent, ThemeColor::TextGhost)
    }
}

/// The directory that a drop on the row of `path` lands in: the directory
/// itself, or that of a file.
pub open spec fn drop_dir(path: PathText, is_dir: bool) -> Option<PathText> {
    if is_dir {
        Some(path)
    } else {
        match parent(components(path)) {
            Some(_) => Some(text_parent(path)),
            None => None,
        }
    }
}

pub fn tree_drop_target_dir(path: &FilePath, is_dir: bool) -> (dir: Option<FilePath>)
    ensures
        path_text(dir) == drop_dir(path.text(), is_dir),
{
    if is_dir {
        Some(path.clone())
    } else {
        path.parent()
    }
}

/// What a click on a row came to.
pub enum RowClick {
    SelectionChanged,
    Folded { persist: bool },
    OpenFile(FilePath),
}

impl Sidebar {
    /// The whole path of the file whose diff is open.
    pub open spec fn open_path(self) -> Option<PathView> {
        match self.changes.open_change {
            Some(path) => Some(join(self.root(), path@)),
            None => None,
        }
    }

    /// Whether a row is drawn as selected: always for the open file, and for
    /// the selected rows while the tree has the focus.
    pub open spec fn row_is_lit(self, path: PathView, focused: bool) -> bool {
        self.open_path() == Some(path) || focused && self.selection.selected().contains(path)
    }

    pub open spec fn row_background(self, entry: FileTreeEntry, focused: bool) -> ThemeColor {
        if entry.is_dir && path_view(self.drag_target) == Some(entry.path@) {
            ThemeColor::DropTarget
        } else if self.row_is_lit(entry.path@, focused) {
            ThemeColor::RowSelected
        } else {
            ThemeColor::Transparent
        }
    }

    /// What a row of the tree shows.
    pub fn file_tree_row_view(
        &self,
        entry: &FileTreeEntry,
        marks: &Table<FilePath, TreeMark>,
        focused: bool,
    ) -> (row: TreeRowElement)
        ensures
            row.shows(*self, *entry, marks@, focused),
    {
        let display = entry.path.display();
        let is_open = entry.is_dir && self.tree.fold.expanded.contains(&entry.path);
        let open_here = match &self.changes.open_change {
            Some(path) => self.tree.fold.root.join(path).same(&entry.path),
            None => false,
        };
        let lit = open_here || focused && self.selection.is_tree_path_selected(&entry.path);
        let background = if entry.is_dir && holds(&self.drag_target, &entry.path) {
            ThemeColor::DropTarget
        } else if lit {
            ThemeColor::RowSelected
        } else {
            ThemeColor::Transparent
        };
        let mark = match marks.get(&entry.path) {
            Some(mark) => Some(*mark),
            None => None,
        };
        TreeRowElement {
            id: concat_text("file-tree-row-", display.as_str()),
            selector: concat_text("file-tree-row-", entry.name.as_str()),
            depth: entry.depth,
            guides: row_guides(entry.name.as_str(), entry.depth),
            guide_color: ThemeColor::IndentGuide,
            is_open,
            background,
            caret: tree_caret(entry.is_dir, is_open),
            name: entry.name.clone(),
            name_color: if entry.is_dir {
                ThemeColor::TextSecondary
            } else {
                ThemeColor::TextStrong
            },
            mark,
            new_file: if entry.is_dir {
                Some(
                    NewFileControl {
                        id: concat_text("file-tree-new-file-", display.as_str()),
                        tooltip: concat_text("New file in ", entry.name.as_str()),
                    },
                )
            } else {
                None
            },
        }
    }

    /// Whether a drag of the row of `path` is one of all selected rows.
    pub open spec fn drags_selection(self, path: PathView) -> bool {
        self.selection.selected().contains(path) && self.selection.is_several()
    }

    /// What the drag of a row carries: all selected rows where it is one of
    /// several, and otherwise the row alone.
    pub fn tree_drag_payload(&self, entry: &FileTreeEntry) -> (payload: TreeDragPayload)
        ensures
            if self.drags_selection(entry.path@) {
                self.is_selection_order(given(payload.paths@))
            } else {
                given(payload.paths@) == seq![entry.path.text()]
            },
            payload.label@ == if payload.paths@.len() > 1 {
                counted(payload.paths@.len(), "item"@)
            } else {
                entry.name@
            },
    {
        let paths = if self.selection.is_tree_path_selected(&entry.path)
            && self.selection.several() {
            self.selection.tree_selected_paths(&self.tree)
        } else {
            let mut one: Vec<FilePath> = Vec::new();
            one.push(entry.path.clone());
            assert(given(one@) =~= seq![entry.path.text()]);
            one
        };
        let label = if paths.len() > 1 {
            count_text(paths.len(), "item")
        } else {
            entry.name.clone()
        };
        TreeDragPayload { paths, label }
    }

    /// A drag moved while over the row of `hover`, or off it. `dragged` is
    /// what is dragged onto a directory, which cannot be dropped on itself.
    /// Says whether anything changed.
    pub fn tree_drag_moved(
        &mut self,
        hover: &FilePath,
        over: bool,
        onto_dir: bool,
        dragged: &Vec<FilePath>,
    ) -> (changed: bool)
        ensures
            ({
                let hovering = over && !(onto_dir && views(dragged@).contains(hover@));
                &&& *final(self) == (Sidebar { drag_target: final(self).drag_target, ..*old(self) })
                &&& path_view(final(self).drag_target) == if hovering {
                    Some(hover@)
                } else if path_view(old(self).drag_target) == Some(hover@) {
                    None
                } else {
                    path_view(old(self).drag_target)
                }
                &&& changed == (path_view(final(self).drag_target) != path_view(
                    old(self).drag_target,
                ))
            }),
    {
        let here = holds(&self.drag_target, hover);
        let hovering = over && !(onto_dir && contains_path(dragged, hover));
        if hovering {
            if here {
                false
            } else {
                self.drag_target = Some(hover.clone());
                true
            }
        } else if here {
            self.drag_target = None;
            true
        } else {
            false
        }
    }

    /// A drag ended.
    pub fn tree_drag_ended(&mut self)
        ensures
            *final(self) == (Sidebar { drag_target: None, ..*old(self) }),
    {
        self.drag_target = None;
    }

    /// A click on a row. With a modifier it only selects; alone it selects the
    /// row and expands or collapses a directory, or opens a file.
    pub fn tree_row_clicked(
        &mut self,
        path: &FilePath,
        is_dir: bool,
        modifiers: ClickModifiers,
    ) -> (click: RowClick)
        ensures
            old(self).row_clicked(*final(self), path.text(), is_dir, modifiers, click),
    {
        if modifiers.secondary || modifiers.shift {
            self.selection.tree_click_select(&self.tree, path.clone(), modifiers);
            return RowClick::SelectionChanged;
        }
        self.selection.select_only(path.clone());
        if is_dir {
            let persist = self.tree.fold.toggle_dir_expanded(path);
            RowClick::Folded { persist }
        } else {
            RowClick::OpenFile(path.clone())
        }
    }

    /// Whether `next` and `click` are what a click on the row of `path` comes
    /// to.
    pub open spec fn row_clicked(
        self,
        next: Sidebar,
        path: PathText,
        is_dir: bool,
        modifiers: ClickModifiers,
        click: RowClick,
    ) -> bool {
        if modifiers.secondary || modifiers.shift {
            &&& next == (Sidebar { selection: next.selection, ..self })
            &&& self.selection.clicked(next.selection, self.tree, path, modifiers)
            &&& click is SelectionChanged
        } else {
            &&& next == (Sidebar {
                selection: next.selection,
                tree: FileTree { fold: next.tree.fold, ..self.tree },
                ..self
            })
            &&& path_text(next.selection.anchor) == Some(path)
            &&& next.selection.additional@ == Set::<PathView>::empty()
            &&& if is_dir {
                &&& click matches RowClick::Folded { persist } && self.tree.fold.steps_to(
                    next.tree.fold,
                    persist,
                ) && persist == (next.tree.fold.recorded_here()
                    != self.tree.fold.recorded_here())
                &&& next.tree.fold.expanded@ == toggled(
                    self.tree.fold.expanded@,
                    components(path),
                )
                &&& next.tree.fold.recorded_here() == self.tree.fold.recorded_with(
                    set![components(path)],
                    !self.tree.fold.expanded@.contains(components(path)),
                )
            } else {
                &&& next.tree.fold == self.tree.fold
                &&& click matches RowClick::OpenFile(opened) && opened.text() == path
            }
        }
    }
}

/// A click with a modifier never expands, collapses or opens anything.
pub proof fn law_modified_click_only_selects(
    before: Sidebar,
    after: Sidebar,
    path: PathText,
    is_dir: bool,
    modifiers: ClickModifiers,
    click: RowClick,
)
    requires
        before.row_clicked(after, path, is_dir, modifiers, click),
        modifiers.secondary || modifiers.shift,
    ensures
        after.tree == before.tree,
        click is SelectionChanged,
{
}

impl TreeRowElement {
    /// Whether this is the row of `entry`.
    pub open spec fn shows(
        self,
        sidebar: Sidebar,
        entry: FileTreeEntry,
        marks: Map<PathView, TreeMark>,
        focused: bool,
    ) -> bool {
        let display = shown(entry.path.text());
        let expanded = sidebar.tree.fold.expanded@.contains(entry.path@);
        &&& self.id@ == "file-tree-row-"@ + display
        &&& self.selector@ == "file-tree-row-"@ + entry.name@
        &&& self.depth == entry.depth
        &&& texts(self.guides@) == guide_texts(entry.name@, entry.depth as nat)
        &&& self.guide_color == ThemeColor::IndentGuide
        &&& self.is_open == (entry.is_dir && expanded)
        &&& self.background == sidebar.row_background(entry, focused)
        &&& self.caret@ == if !entry.is_dir {
            ""@
        } else if expanded {
            "\u{25be}"@
        } else {
            "\u{25b8}"@
        }
        &&& self.name@ == entry.name@
        &&& self.name_color == if entry.is_dir {
            ThemeColor::TextSecondary
        } else {
            ThemeColor::TextStrong
        }
        &&& self.mark == if marks.contains_key(entry.path@) {
            Some(marks[entry.path@])
        } else {
            None
        }
        &&& self.new_file is Some == entry.is_dir
        &&& self.new_file matches Some(control) ==> control.id@ == "file-tree-new-file-"@ + display
            && control.tooltip@ == "New file in "@ + entry.name@
    }
}

fn row_guides(name: &str, depth: usize) -> (guides: Vec<String>)
    ensures
        texts(guides@) == guide_texts(name@, depth as nat),
{
    let ghost wanted = guide_texts(name@, depth as nat);
    let mut guides: Vec<String> = Vec::new();
    let mut level: usize = 0;
    while level < depth
        invariant
            level <= depth,
            wanted == guide_texts(name@, depth as nat),
            texts(guides@) == wanted.take(level as int),
        decreases depth - level,
    {
        let ghost before = texts(guides@);
        let guide = concat4(
            "file-tree-guide-",
            name,
            "-",
            decimal_text(level as u64).as_str(),
        );
        guides.push(guide);
        assert(texts(guides@) =~= before.push(wanted[level as int]));
        assert(texts(guides@) =~= wanted.take(level + 1));
        level += 1;
    }
    assert(texts(guides@) =~= wanted);
    guides
}

fn contains_path(paths: &Vec<FilePath>, path: &FilePath) -> (found: bool)
    ensures
        found == views(paths@).contains(path@),
{
    let mut i: usize = 0;
    while i < paths.len()
        invariant
            i <= paths.len(),
            forall|k: int| 0 <= k < i ==> views(paths@)[k] != path@,
        decreases paths.len() - i,
    {
        if paths[i].same(path) {
            assert(views(paths@)[i as int] == path@);
            return true;
        }
        i += 1;
    }
    false
}

} // verus!
