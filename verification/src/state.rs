use vstd::prelude::*;

use crate::change_set::FileChangeStatus;
use crate::documents::{
    law_deleted_is_forgotten, law_rename_back_restores, lemma_buffers_moved_back, lemma_moved_back,
    lemma_tabs_moved_back, rename_in, Documents, Rename,
};
use crate::fold::{expanded_under, TreeFold};
use crate::history::TreeHistory;
use crate::panel::{BranchDiff, ChangesPanel, DiffFile};
use crate::path::{
    components, from_root, is_bare, is_under, join, law_components_are_well_formed,
    lemma_from_root, lemma_text_moved, path_text, path_view, remap_path, text_moved,
    worktree_relative, FilePath, PathText, PathView,
};
use crate::path_set::{given, members_moved, members_outside, read, views};
use crate::selection::TreeSelection;
use crate::table::Table;
use crate::theme::ThemeColor;
use crate::tree::FileTree;

verus! {

/// What the right sidebar shows.
#[derive(Clone, Copy, Debug, PartialEq, Eq, Structural)]
pub enum RightSidebarView {
    Files,
    Search,
    Changes,
}

pub open spec fn next_view(current: RightSidebarView) -> RightSidebarView {
    match current {
        RightSidebarView::Files => RightSidebarView::Search,
        RightSidebarView::Search => RightSidebarView::Changes,
        RightSidebarView::Changes => RightSidebarView::Files,
    }
}

/// The next view in the order of the tabs, the first again after the last.
pub fn next_right_sidebar_view(current: RightSidebarView) -> (next: RightSidebarView)
    ensures
        next == next_view(current),
{
    match current {
        RightSidebarView::Files => RightSidebarView::Search,
        RightSidebarView::Search => RightSidebarView::Changes,
        RightSidebarView::Changes => RightSidebarView::Files,
    }
}

/// Going on three times leads through every view and back.
pub proof fn law_views_cycle(view: RightSidebarView)
    ensures
        next_view(view) != view,
        next_view(next_view(view)) != view,
        next_view(next_view(next_view(view))) == view,
{
}

/// What the name editor in the tree is for.
pub enum InlineEditKind {
    NewFile { parent: FilePath },
    NewFolder { parent: FilePath },
    Rename { path: FilePath, is_dir: bool },
}

impl InlineEditKind {
    pub open spec fn anchor_text(self) -> PathText {
        match self {
            InlineEditKind::NewFile { parent } => parent.text(),
            InlineEditKind::NewFolder { parent } => parent.text(),
            InlineEditKind::Rename { path, .. } => path.text(),
        }
    }

    pub open spec fn anchor_path(self) -> PathView {
        components(self.anchor_text())
    }

    /// The row that the editor is drawn at: the directory that the new entry
    /// lands in, or the entry that gets a new name.
    pub fn anchor(&self) -> (anchor: &FilePath)
        ensures
            anchor.text() == self.anchor_text(),
            anchor@ == self.anchor_path(),
    {
        match self {
            InlineEditKind::NewFile { parent } => parent,
            InlineEditKind::NewFolder { parent } => parent,
            InlineEditKind::Rename { path, .. } => path,
        }
    }

    pub fn title(&self) -> (title: &'static str)
        ensures
            title@ == match *self {
                InlineEditKind::NewFile { .. } => "New file"@,
                InlineEditKind::NewFolder { .. } => "New folder"@,
                InlineEditKind::Rename { .. } => "Rename"@,
            },
    {
        match self {
            InlineEditKind::NewFile { .. } => "New file",
            InlineEditKind::NewFolder { .. } => "New folder",
            InlineEditKind::Rename { .. } => "Rename",
        }
    }
}

/// A name that is being typed in the tree. It is kept apart from the tree's
/// entries, so that reading the tree again does not touch it.
pub struct TreeInlineEdit {
    pub kind: InlineEditKind,
    pub name: String,
    /// Why the name was refused, until it is changed.
    pub error: Option<String>,
}

#[derive(Clone, Copy, Debug, PartialEq, Eq, Structural)]
pub enum ClipboardMode {
    Copy,
    Cut,
}

/// The entry of the tree that was cut or copied.
pub struct TreeClipboard {
    pub path: FilePath,
    pub mode: ClipboardMode,
}

pub open spec fn clipboard_view(clipboard: Option<TreeClipboard>) -> Option<
    (PathText, ClipboardMode),
> {
    match clipboard {
        Some(entry) => Some((entry.path.text(), entry.mode)),
        None => None,
    }
}

/// What an open context menu is about.
pub enum ContextTarget {
    File(FilePath),
    Folder(FilePath),
    /// The area below the rows.
    Empty,
    /// Several selected rows.
    Multiple(Vec<FilePath>),
}

/// The right sidebar: its file tree, its Changes panel, and what is kept about
/// the open files that both act on.
pub struct Sidebar {
    pub view: RightSidebarView,
    pub tree: FileTree,
    pub selection: TreeSelection,
    pub clipboard: Option<TreeClipboard>,
    pub inline_edit: Option<TreeInlineEdit>,
    pub context_menu: Option<ContextTarget>,
    /// Why the last operation on the tree failed.
    pub op_error: Option<String>,
    pub history: TreeHistory,
    /// The directory that a drag is over.
    pub drag_target: Option<FilePath>,
    pub docs: Documents,
    pub changes: ChangesPanel,
}

/// What has to be done outside after an operation on the tree.
#[derive(Clone, Copy, Debug, PartialEq, Eq, Structural)]
pub struct TreeEffects {
    /// Write the record of expanded directories.
    pub persist: bool,
    /// Read the tree and the diff again.
    pub refresh: bool,
}

/// What has to be done outside when the sidebar shows another view.
#[derive(Clone, Copy, Debug, PartialEq, Eq, Structural)]
pub struct ViewEffects {
    /// Move the focus off a field that is no longer drawn.
    pub restore_focus: bool,
    /// Let no overlay give the focus back to the tree.
    pub forget_tree_focus: bool,
    /// Let no overlay give the focus back to a search field.
    pub forget_search_focus: bool,
    pub refresh_diff: bool,
}

/// The mark on a row of the tree whose file changed.
#[derive(Clone, Copy, Debug, PartialEq, Eq, Structural)]
pub enum TreeMark {
    Added,
    Modified,
}

pub open spec fn mark_of(status: FileChangeStatus) -> Option<TreeMark> {
    match status {
        FileChangeStatus::Added => Some(TreeMark::Added),
        FileChangeStatus::Modified | FileChangeStatus::Renamed => Some(TreeMark::Modified),
        FileChangeStatus::Deleted => None,
    }
}

/// The marks for the files of a diff, by the whole path. A deleted file has no
/// row to be marked.
pub open spec fn marks_for(files: Seq<DiffFile>, root: PathView) -> Map<PathView, TreeMark>
    decreases files.len(),
{
    if files.len() == 0 {
        Map::empty()
    } else {
        let before = marks_for(files.drop_last(), root);
        match mark_of(files.last().status) {
            Some(mark) => before.insert(join(root, files.last().path@), mark),
            None => before,
        }
    }
}

impl TreeMark {
    pub fn label(self) -> (label: &'static str)
        ensures
            label@ == match self {
                TreeMark::Added => "A"@,
                TreeMark::Modified => "M"@,
            },
    {
        match self {
            TreeMark::Added => "A",
            TreeMark::Modified => "M",
        }
    }

    pub fn color(self) -> (color: ThemeColor)
        ensures
            color == match self {
                TreeMark::Added => ThemeColor::TreeAdded,
                TreeMark::Modified => ThemeColor::TreeModified,
            },
    {
        match self {
            TreeMark::Added => ThemeColor::TreeAdded,
            TreeMark::Modified => ThemeColor::TreeModified,
        }
    }
}

impl Sidebar {
    /// The sidebar of the worktree that `fold` is about, with its Files shown
    /// and nothing read yet. Copies of deleted entries are kept in
    /// `backup_root`.
    pub fn new(fold: TreeFold, backup_root: FilePath) -> (sidebar: Sidebar)
        ensures
            sidebar.view is Files,
            sidebar.tree.fold == fold,
            sidebar.tree.entries@.len() == 0,
            !sidebar.tree.complete,
            sidebar.tree.error is None,
            sidebar.selection.selected() == Set::<PathView>::empty(),
            sidebar.clipboard is None,
            sidebar.inline_edit is None,
            sidebar.context_menu is None,
            sidebar.op_error is None,
            sidebar.history.undos().len() == 0,
            sidebar.history.redos().len() == 0,
            sidebar.history.backup_root == backup_root,
            sidebar.history.backup_counter == 0,
            sidebar.drag_target is None,
            sidebar.docs.keeps_nothing(),
            sidebar.changes.diff_root.text() == fold.root.text(),
            sidebar.changes.is_fresh(),
    {
        let root = fold.root.clone();
        Sidebar {
            view: RightSidebarView::Files,
            tree: FileTree::new(fold),
            selection: TreeSelection::new(),
            clipboard: None,
            inline_edit: None,
            context_menu: None,
            op_error: None,
            history: TreeHistory::new(backup_root),
            drag_target: None,
            docs: Documents::new(),
            changes: ChangesPanel::new(root),
        }
    }

    pub open spec fn root(self) -> PathView {
        self.tree.fold.root@
    }

    pub open spec fn root_text(self) -> PathText {
        self.tree.fold.root.text()
    }

    /// Shows another view. What only the old one drew is closed with it: the
    /// tree's menu and name editor, and the commit menu.
    pub fn set_right_sidebar_view(
        &mut self,
        view: RightSidebarView,
        tree_focused: bool,
        search_focused: bool,
    ) -> (effects: ViewEffects)
        ensures
            *final(self) == (Sidebar {
                view,
                context_menu: if view is Files {
                    old(self).context_menu
                } else {
                    None
                },
                inline_edit: if view is Files {
                    old(self).inline_edit
                } else {
                    None
                },
                changes: ChangesPanel {
                    commit_menu_open: old(self).changes.commit_menu_open && view is Changes,
                    ..old(self).changes
                },
                ..*old(self)
            }),
            effects.restore_focus == (!(view is Files) && tree_focused || !(view is Search)
                && search_focused),
            effects.forget_tree_focus == !(view is Files),
            effects.forget_search_focus == !(view is Search),
            effects.refresh_diff == view is Changes,
    {
        let mut restore_focus = false;
        let leaves_files = view != RightSidebarView::Files;
        if leaves_files {
            self.context_menu = None;
            self.inline_edit = None;
            restore_focus = tree_focused;
        }
        let leaves_search = view != RightSidebarView::Search;
        if leaves_search && search_focused {
            restore_focus = true;
        }
        let shows_changes = view == RightSidebarView::Changes;
        if !shows_changes {
            self.changes.commit_menu_open = false;
        }
        self.view = view;
        ViewEffects {
            restore_focus,
            forget_tree_focus: leaves_files,
            forget_search_focus: leaves_search,
            refresh_diff: shows_changes,
        }
    }

    /// Shows why an operation on the tree failed.
    pub fn report_tree_op_error(&mut self, message: String)
        ensures
            *final(self) == (Sidebar { op_error: Some(message), ..*old(self) }),
    {
        self.op_error = Some(message);
    }

    /// Takes the message about the last failure off the tree.
    pub fn dismiss_op_error(&mut self)
        ensures
            *final(self) == (Sidebar { op_error: None, ..*old(self) }),
    {
        self.op_error = None;
    }

    /// The marks of the changed files, by the whole path.
    pub open spec fn change_marks(self) -> Map<PathView, TreeMark> {
        match self.changes.branch_diff {
            BranchDiff::Loaded(diff) => marks_for(diff.files@, self.root()),
            BranchDiff::Missing { .. } => Map::empty(),
        }
    }

    pub fn tree_change_marks(&self) -> (marks: Table<FilePath, TreeMark>)
        ensures
            marks@ == self.change_marks(),
    {
        let mut marks: Table<FilePath, TreeMark> = Table::new();
        let diff = match &self.changes.branch_diff {
            BranchDiff::Loaded(diff) => diff,
            BranchDiff::Missing { .. } => {
                return marks;
            },
        };
        let ghost files = diff.files@;
        let mut i: usize = 0;
        while i < diff.files.len()
            invariant
                i <= diff.files.len(),
                files == diff.files@,
                marks@ == marks_for(files.take(i as int), self.root()),
            decreases diff.files.len() - i,
        {
            assert(files.take(i + 1).drop_last() =~= files.take(i as int));
            let mark = match diff.files[i].status {
                FileChangeStatus::Added => Some(TreeMark::Added),
                FileChangeStatus::Modified | FileChangeStatus::Renamed => Some(TreeMark::Modified),
                FileChangeStatus::Deleted => None,
            };
            match mark {
                Some(mark) => {
                    marks.insert(self.tree.fold.root.join(&diff.files[i].path), mark);
                },
                None => {},
            }
            i += 1;
        }
        assert(files.take(i as int) =~= files);
        marks
    }

    /// Lets everything that is kept by path follow a rename or a move of
    /// `old_path`, with everything below it. Says whether the record of
    /// expanded directories has to be written.
    pub fn rename_open_paths(&mut self, old_path: &FilePath, new_path: &FilePath) -> (persist: bool)
        ensures
            old(self).renamed(*final(self), old_path@, new_path.text(), persist),
    {
        let root = self.tree.fold.root.clone();
        let rename = Rename {
            old_relative: worktree_relative(&root, old_path),
            new_relative: worktree_relative(&root, new_path),
            old_path: old_path.clone(),
            new_path: new_path.clone(),
            root,
        };
        self.docs.follow_rename(&rename);
        follow(&mut self.changes.open_change, &rename.old_relative, &rename.new_relative);
        self.changes.staged_files.remap(&rename.old_relative, &rename.new_relative);
        follow(&mut self.selection.anchor, old_path, new_path);
        self.selection.additional.remap(old_path, new_path);
        let clipboard = self.clipboard.take();
        self.clipboard = match clipboard {
            Some(entry) => {
                let path = match remap_path(&entry.path, old_path, new_path) {
                    Some(target) => target,
                    None => entry.path,
                };
                Some(TreeClipboard { path, mode: entry.mode })
            },
            None => None,
        };
        self.tree.fold.follow_rename(old_path, new_path)
    }

    /// Whether `next` is this after `old_path` became `new_path`.
    pub open spec fn renamed(
        self,
        next: Sidebar,
        old_path: PathView,
        new_path: PathText,
        persist: bool,
    ) -> bool {
        let rename = rename_in(self.root(), old_path, new_path);
        let there = components(new_path);
        &&& next == (Sidebar {
            docs: next.docs,
            changes: ChangesPanel {
                open_change: next.changes.open_change,
                staged_files: next.changes.staged_files,
                ..self.changes
            },
            selection: next.selection,
            clipboard: next.clipboard,
            tree: FileTree { fold: next.tree.fold, ..self.tree },
            ..self
        })
        &&& self.docs.renamed(next.docs, rename)
        &&& path_text(next.changes.open_change) == slot_moved(
            self.changes.open_change,
            rename.old_relative,
            rename.new_relative,
        )
        &&& next.changes.staged_files@ == members_moved(
            self.changes.staged_files@,
            rename.old_relative,
            components(rename.new_relative),
        )
        &&& path_text(next.selection.anchor) == slot_moved(
            self.selection.anchor,
            old_path,
            new_path,
        )
        &&& next.selection.additional@ == members_moved(
            self.selection.additional@,
            old_path,
            there,
        )
        &&& clipboard_view(next.clipboard) == match self.clipboard {
            Some(entry) => Some(
                (text_moved(entry.path.text(), old_path, new_path), entry.mode),
            ),
            None => None,
        }
        &&& self.tree.fold.steps_to(next.tree.fold, persist)
        &&& next.tree.fold.expanded@ == members_moved(
            self.tree.fold.expanded@,
            old_path,
            there,
        )
        &&& next.tree.fold.recorded_here() == self.tree.fold.recorded_renamed(old_path, there)
        &&& persist == self.tree.fold.rename_touches_record(old_path, there)
    }

    /// Drops everything that is kept about `deleted` and what lay below it.
    /// Says whether the record of expanded directories has to be written.
    pub fn forget_deleted_paths(&mut self, deleted: &FilePath) -> (persist: bool)
        ensures
            old(self).forgot(*final(self), deleted@, persist),
    {
        let root = self.tree.fold.root.clone();
        let relative = worktree_relative(&root, deleted);
        self.docs.forget(&root, deleted, &relative);
        if slot_under(&self.changes.open_change, &relative) {
            self.changes.open_change = if self.docs.open_files.len() > 0 {
                Some(self.docs.open_files[0].clone())
            } else {
                None
            };
        }
        if slot_under(&self.selection.anchor, deleted) {
            self.selection.anchor = None;
        }
        self.selection.additional.remove_under(deleted);
        let cut = match &self.clipboard {
            Some(entry) => entry.path.starts_with(deleted),
            None => false,
        };
        if cut {
            self.clipboard = None;
        }
        self.changes.staged_files.remove_under(&relative);
        assert(self.docs.open_files@.len() == given(self.docs.open_files@).len());
        self.tree.fold.collapse_subtree(deleted)
    }

    /// Whether `next` is this after `deleted` was deleted.
    pub open spec fn forgot(self, next: Sidebar, deleted: PathView, persist: bool) -> bool {
        let relative = from_root(deleted, self.root());
        let left = given(next.docs.open_files@);
        &&& next == (Sidebar {
            docs: next.docs,
            changes: ChangesPanel {
                open_change: next.changes.open_change,
                staged_files: next.changes.staged_files,
                ..self.changes
            },
            selection: next.selection,
            clipboard: next.clipboard,
            tree: FileTree { fold: next.tree.fold, ..self.tree },
            ..self
        })
        &&& self.docs.forgotten(next.docs, self.root(), deleted, relative)
        &&& path_text(next.changes.open_change) == match self.changes.open_change {
            Some(open) => if !is_under(open@, relative) {
                Some(open.text())
            } else if left.len() > 0 {
                Some(left[0])
            } else {
                None
            },
            None => None,
        }
        &&& path_text(next.selection.anchor) == match self.selection.anchor {
            Some(anchor) if !is_under(anchor@, deleted) => Some(anchor.text()),
            _ => None,
        }
        &&& next.selection.additional@ == members_outside(self.selection.additional@, deleted)
        &&& clipboard_view(next.clipboard) == match self.clipboard {
            Some(entry) if !is_under(entry.path@, deleted) => Some(
                (entry.path.text(), entry.mode),
            ),
            _ => None,
        }
        &&& next.changes.staged_files@ == members_outside(self.changes.staged_files@, relative)
        &&& self.tree.fold.steps_to(next.tree.fold, persist)
        &&& next.tree.fold.expanded@ == members_outside(self.tree.fold.expanded@, deleted)
        &&& next.tree.fold.recorded_here() == self.tree.fold.recorded_with(
            expanded_under(self.tree.fold.expanded@, deleted),
            false,
        )
        &&& persist == (next.tree.fold.recorded_here() != self.tree.fold.recorded_here())
    }
}

/// A rename and the rename back leave the tabs, the buffers, the open file, the
/// staged files, the selected rows and the expanded directories as they were,
/// where nothing of them lay at the new path before.
pub proof fn law_rename_back(
    first: Sidebar,
    second: Sidebar,
    third: Sidebar,
    old_path: PathText,
    new_path: PathText,
    there: bool,
    back: bool,
)
    requires
        first.renamed(second, components(old_path), new_path, there),
        second.renamed(third, components(new_path), old_path, back),
        !is_bare(from_root(components(old_path), first.root())),
        !is_bare(components(old_path)),
        first.nothing_at(components(new_path)),
    ensures
        views(third.docs.open_files@) == views(first.docs.open_files@),
        third.docs.edit_buffers@.dom() == first.docs.edit_buffers@.dom(),
        forall|key: (PathView, PathView)| #[trigger]
            first.docs.edit_buffers@.contains_key(key) ==> third.docs.edit_buffers@[key].text@
                == first.docs.edit_buffers@[key].text@,
        path_view(third.changes.open_change) == path_view(first.changes.open_change),
        third.changes.staged_files@ == first.changes.staged_files@,
        path_view(third.selection.anchor) == path_view(first.selection.anchor),
        third.selection.additional@ == first.selection.additional@,
        third.tree.fold.expanded@ == first.tree.fold.expanded@,
{
    let root = first.root();
    let before = components(old_path);
    let after = components(new_path);
    let from = from_root(before, root);
    let to = from_root(after, root);
    lemma_from_root(old_path, root);
    lemma_from_root(new_path, root);
    law_rename_back_restores(first.changes.staged_files, from, to);
    law_rename_back_restores(first.tree.fold.expanded, before, after);
    law_rename_back_restores(first.selection.additional, before, after);
    let rename = rename_in(root, before, new_path);
    let again = rename_in(root, after, old_path);
    if let Some(path) = first.changes.open_change {
        let text = text_moved(path.text(), from, rename.new_relative);
        law_components_are_well_formed(path.text());
        lemma_text_moved(path.text(), from, rename.new_relative);
        lemma_text_moved(text, to, again.new_relative);
        lemma_moved_back(path@, from, to);
    }
    if let Some(path) = first.selection.anchor {
        let text = text_moved(path.text(), before, new_path);
        law_components_are_well_formed(path.text());
        lemma_text_moved(path.text(), before, new_path);
        lemma_text_moved(text, after, old_path);
        lemma_moved_back(path@, before, after);
    }
    let tabs = first.docs.open_files@;
    assert forall|i: int| 0 <= i < given(tabs).len() implies !is_under(
        #[trigger] read(given(tabs))[i],
        components(rename.new_relative),
    ) by {
        assert(views(tabs)[i] == read(given(tabs))[i]);
        assert(views(tabs).contains(views(tabs)[i]));
    }
    lemma_tabs_moved_back(given(tabs), again.new_relative, rename.new_relative);
    assert(read(given(tabs)) =~= views(tabs));
    assert(read(given(third.docs.open_files@)) =~= views(third.docs.open_files@));
    lemma_buffers_moved_back(
        first.docs.edit_buffers,
        second.docs.edit_buffers,
        third.docs.edit_buffers,
        rename,
        again,
    );
}

impl Sidebar {
    /// Whether nothing that follows a rename lies at `path` or below it.
    pub open spec fn nothing_at(self, path: PathView) -> bool {
        let relative = from_root(path, self.root());
        &&& forall|tab: PathView| #[trigger]
            views(self.docs.open_files@).contains(tab) ==> !is_under(tab, relative)
        &&& forall|key: (PathView, PathView)| #[trigger]
            self.docs.edit_buffers@.contains_key(key) && key.0 == self.root() ==> !is_under(
                key.1,
                relative,
            )
        &&& self.changes.open_change matches Some(open) ==> !is_under(open@, relative)
        &&& forall|staged: PathView| #[trigger]
            self.changes.staged_files@.contains(staged) ==> !is_under(staged, relative)
        &&& self.selection.anchor matches Some(anchor) ==> !is_under(anchor@, path)
        &&& forall|row: PathView| #[trigger]
            self.selection.additional@.contains(row) ==> !is_under(row, path)
        &&& forall|dir: PathView| #[trigger]
            self.tree.fold.expanded@.contains(dir) ==> !is_under(dir, path)
    }
}

/// What was deleted is nowhere: neither its tab nor its checkbox nor its place
/// in the selection is left, and a new file at its place starts afresh.
pub proof fn law_deleted_leaves_nothing(
    before: Sidebar,
    after: Sidebar,
    deleted: PathView,
    persist: bool,
    path: PathView,
)
    requires
        before.forgot(after, deleted, persist),
    ensures
        is_under(path, from_root(deleted, before.root())) ==> {
            &&& !after.changes.staged_files@.contains(path)
            &&& path_view(after.changes.open_change) != Some(path)
            &&& !views(after.docs.open_files@).contains(path)
        },
        is_under(path, deleted) ==> {
            &&& !after.tree.fold.expanded@.contains(path)
            &&& !after.selection.selected().contains(path)
            &&& !(clipboard_view(after.clipboard) matches Some(entry) && components(entry.0)
                == path)
        },
{
    let relative = from_root(deleted, before.root());
    law_deleted_is_forgotten(before.docs, after.docs, before.root(), deleted, relative, path);
    let left = views(after.docs.open_files@);
    if is_under(path, relative) && path_view(after.changes.open_change) == Some(path) {
        assert(left.len() == given(after.docs.open_files@).len());
        assert(left[0] == path);
        assert(left.contains(path));
    }
}

pub open spec fn slot_moved(slot: Option<FilePath>, from: PathView, to: PathText) -> Option<
    PathText,
> {
    match slot {
        Some(path) => Some(text_moved(path.text(), from, to)),
        None => None,
    }
}

fn follow(slot: &mut Option<FilePath>, old_path: &FilePath, new_path: &FilePath)
    ensures
        path_text(*final(slot)) == slot_moved(*old(slot), old_path@, new_path.text()),
{
    let target = match &*slot {
        Some(path) => remap_path(path, old_path, new_path),
        None => None,
    };
    if target.is_some() {
        *slot = target;
    }
}

fn slot_under(slot: &Option<FilePath>, base: &FilePath) -> (under: bool)
    ensures
        under == (*slot matches Some(path) && is_under(path@, base@)),
{
    match slot {
        Some(path) => path.starts_with(base),
        None => false,
    }
}

} // verus!
