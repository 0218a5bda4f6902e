use vstd::prelude::*;
use vstd::string::*;

use crate::fold::expanded_under;
use crate::moves::{DestinationQuery, PasteStep};
use crate::path::{
    components, file_name, is_under, parent, path_text, shown, text_from_root, text_parent,
    FilePath, PathText, PathView,
};
use crate::path_set::{given, members_outside, PathSet};
use crate::selection::TreeSelection;
use crate::state::{clipboard_view, ClipboardMode, ContextTarget, Sidebar};
use crate::tree::FileTree;
use crate::undo::{ticket_views, DeleteTicket};

verus! {

/// What the tree's context menu offers.
#[derive(Clone, Copy, Debug, PartialEq, Eq, Structural)]
pub enum MenuAction {
    Open,
    NewFile,
    NewFolder,
    Rename,
    Duplicate,
    Cut,
    Copy,
    Paste,
    CopyPath,
    CopyRelativePath,
    CollapseSubtree,
    CollapseAll,
    Delete,
    Reveal,
}

pub enum TargetView {
    File(PathText),
    Folder(PathText),
    Empty,
    Multiple(Seq<PathText>),
}

impl View for ContextTarget {
    type V = TargetView;

    open spec fn view(&self) -> TargetView {
        match self {
            ContextTarget::File(path) => TargetView::File(path.text()),
            ContextTarget::Folder(path) => TargetView::Folder(path.text()),
            ContextTarget::Empty => TargetView::Empty,
            ContextTarget::Multiple(paths) => TargetView::Multiple(given(paths@)),
        }
    }
}

pub open spec fn target_view(menu: Option<ContextTarget>) -> Option<TargetView> {
    match menu {
        Some(target) => Some(target@),
        None => None,
    }
}

impl TargetView {
    /// The one entry that the menu is about.
    pub open spec fn entry(self) -> Option<PathText> {
        match self {
            TargetView::File(path) => Some(path),
            TargetView::Folder(path) => Some(path),
            TargetView::Empty => None,
            TargetView::Multiple(_) => None,
        }
    }

    /// The directory that new entries and pasted ones land in.
    pub open spec fn landing(self, root: PathText) -> PathText {
        match self {
            TargetView::Folder(path) => path,
            TargetView::File(path) => match parent(components(path)) {
                Some(_) => text_parent(path),
                None => root,
            },
            TargetView::Empty => root,
            TargetView::Multiple(_) => root,
        }
    }
}

impl ContextTarget {
    pub fn path(&self) -> (path: Option<&FilePath>)
        ensures
            path is Some == self@.entry() is Some,
            path matches Some(entry) ==> self@.entry() == Some(entry.text()),
    {
        match self {
            ContextTarget::File(path) => Some(path),
            ContextTarget::Folder(path) => Some(path),
            ContextTarget::Empty => None,
            ContextTarget::Multiple(_) => None,
        }
    }

    pub fn destination_dir(&self, root: &FilePath) -> (dir: FilePath)
        ensures
            dir.text() == self@.landing(root.text()),
    {
        match self {
            ContextTarget::Folder(path) => path.clone(),
            ContextTarget::File(path) => match path.parent() {
                Some(above) => above,
                None => root.clone(),
            },
            ContextTarget::Empty => root.clone(),
            ContextTarget::Multiple(_) => root.clone(),
        }
    }
}

/// What a row of the menu came to.
pub enum MenuWork {
    /// There was nothing to do.
    Nothing,
    OpenFile(FilePath),
    /// The editor for a new entry is open.
    EditorOpened { persist: bool },
    /// The editor for a new name is open.
    RenameOpened,
    Duplicate(Option<DestinationQuery>),
    ClipboardSet,
    Paste(PasteStep),
    /// A text goes to the system's clipboard.
    CopyText(String),
    Folded { persist: bool },
    Delete(Vec<DeleteTicket>),
    /// The file manager is to show a directory.
    Reveal(FilePath),
}

impl Sidebar {
    /// Whether a right click on `target` is one on several selected rows.
    pub open spec fn hits_selection(self, target: TargetView) -> bool {
        target.entry() matches Some(path) && self.selection.is_several()
            && self.selection.selected().contains(components(path))
    }

    /// Whether `next` is this with the menu open for `target`. On one of
    /// several selected rows the menu is about all of them, and otherwise
    /// `target` alone is selected.
    pub open spec fn menu_opened(self, next: Sidebar, target: TargetView) -> bool {
        &&& next == (Sidebar {
            inline_edit: None,
            op_error: None,
            context_menu: next.context_menu,
            selection: next.selection,
            ..self
        })
        &&& if self.hits_selection(target) {
            &&& next.selection == self.selection
            &&& next.context_menu matches Some(ContextTarget::Multiple(paths))
                && self.is_selection_order(given(paths@))
        } else {
            &&& path_text(next.selection.anchor) == target.entry()
            &&& next.selection.additional@ == Set::<PathView>::empty()
            &&& target_view(next.context_menu) == Some(target)
        }
    }

    /// Opens the context menu. An open editor is closed: the menu's rows act
    /// on another path.
    pub fn open_tree_context_menu(&mut self, target: ContextTarget)
        ensures
            old(self).menu_opened(*final(self), target@),
    {
        let _ = self.cancel_tree_inline_edit();
        let on_selection = match target.path() {
            Some(path) => self.selection.several() && self.selection.is_tree_path_selected(path),
            None => false,
        };
        let shown = if on_selection {
            ContextTarget::Multiple(self.selection.tree_selected_paths(&self.tree))
        } else {
            self.selection = TreeSelection {
                anchor: match target.path() {
                    Some(path) => Some(path.clone()),
                    None => None,
                },
                additional: PathSet::new(),
            };
            target
        };
        self.context_menu = Some(shown);
        self.op_error = None;
    }

    /// What a menu opened from the keyboard is about: the selected row, or the
    /// empty area.
    pub open spec fn keyboard_target(self, on_disk: bool) -> TargetView {
        match self.selection.anchor {
            Some(path) => if !is_under(path@, self.root()) {
                TargetView::Empty
            } else if self.tree.dir_at(path@, on_disk) {
                TargetView::Folder(path.text())
            } else {
                TargetView::File(path.text())
            },
            None => TargetView::Empty,
        }
    }

    pub fn open_tree_context_menu_from_keyboard(&mut self, on_disk: bool)
        ensures
            old(self).menu_opened(*final(self), old(self).keyboard_target(on_disk)),
    {
        let target = match &self.selection.anchor {
            Some(path) => {
                if !path.starts_with(&self.tree.fold.root) {
                    ContextTarget::Empty
                } else if self.tree.is_dir_at(path, on_disk) {
                    ContextTarget::Folder(path.clone())
                } else {
                    ContextTarget::File(path.clone())
                }
            },
            None => ContextTarget::Empty,
        };
        self.open_tree_context_menu(target);
    }

    /// How many deletions the open menu can start.
    pub open spec fn menu_deletes(self) -> nat {
        match self.context_menu {
            Some(ContextTarget::Multiple(paths)) => paths@.len(),
            _ => 1,
        }
    }

    /// This with the menu closed, before one of its rows is run.
    pub open spec fn menu_closed(self) -> Sidebar {
        Sidebar { context_menu: None, op_error: None, ..self }
    }

    /// Whether `next` and `work` are what a row of the menu about `target`
    /// comes to. `dirs` are the paths that are directories on the disk.
    pub open spec fn menu_ran(
        self,
        next: Sidebar,
        target: TargetView,
        action: MenuAction,
        work: MenuWork,
        dirs: Set<PathView>,
    ) -> bool {
        let landing = target.landing(self.root_text());
        match action {
            MenuAction::NewFile => {
                work matches MenuWork::EditorOpened { persist } && self.new_entry_started(
                    next,
                    landing,
                    false,
                    persist,
                )
            },
            MenuAction::NewFolder => {
                work matches MenuWork::EditorOpened { persist } && self.new_entry_started(
                    next,
                    landing,
                    true,
                    persist,
                )
            },
            MenuAction::Paste => work matches MenuWork::Paste(step) && self.pasted(
                next,
                step,
                landing,
            ),
            MenuAction::CollapseAll => {
                &&& next == (Sidebar {
                    tree: FileTree { fold: next.tree.fold, ..self.tree },
                    ..self
                })
                &&& work matches MenuWork::Folded { persist } && self.tree.fold.steps_to(
                    next.tree.fold,
                    persist,
                ) && next.tree.fold.expanded@ == Set::<PathView>::empty()
                    && next.tree.fold.recorded_here() == Set::<PathView>::empty() && persist == (
                next.tree.fold.recorded_here() != self.tree.fold.recorded_here())
            },
            MenuAction::Delete => match target {
                TargetView::Multiple(paths) => {
                    work matches MenuWork::Delete(tickets) && self.deletes_started(
                        next,
                        paths,
                        ticket_views(tickets@),
                        dirs,
                    )
                },
                TargetView::Empty => work is Nothing && next == self,
                TargetView::File(path) => {
                    work matches MenuWork::Delete(tickets) && self.one_delete_started(
                        next,
                        path,
                        false,
                        tickets@,
                    )
                },
                TargetView::Folder(path) => {
                    work matches MenuWork::Delete(tickets) && self.one_delete_started(
                        next,
                        path,
                        true,
                        tickets@,
                    )
                },
            },
            _ => match target.entry() {
                None => work is Nothing && next == self,
                Some(path) => self.menu_ran_on(next, target, path, action, work, dirs),
            },
        }
    }

    /// Whether `tickets` holds the ticket of a deletion that was started, or
    /// none where it was refused.
    pub open spec fn one_delete_started(
        self,
        next: Sidebar,
        path: PathText,
        is_dir: bool,
        tickets: Seq<DeleteTicket>,
    ) -> bool {
        ||| tickets.len() == 1 && self.delete_started(next, path, is_dir, Some(tickets[0]))
        ||| tickets.len() == 0 && self.delete_started(next, path, is_dir, None)
    }

    pub open spec fn menu_ran_on(
        self,
        next: Sidebar,
        target: TargetView,
        path: PathText,
        action: MenuAction,
        work: MenuWork,
        dirs: Set<PathView>,
    ) -> bool {
        match action {
            MenuAction::Open => next == self && (work matches MenuWork::OpenFile(opened)
                && opened.text() == path),
            MenuAction::Rename => work is RenameOpened && self.rename_started(
                next,
                path,
                target is Folder,
            ),
            MenuAction::Duplicate => next == self && (work matches MenuWork::Duplicate(query)
                && query is Some == (parent(components(path)) is Some && file_name(
                components(path),
            ) is Some) && (query matches Some(asked) ==> asked.source.text() == path
                && asked.dir.text() == text_parent(path) && file_name(components(path)) == Some(
                asked.name@,
            ))),
            MenuAction::Cut => {
                &&& work is ClipboardSet
                &&& next == (Sidebar { clipboard: next.clipboard, ..self })
                &&& clipboard_view(next.clipboard) == Some((path, ClipboardMode::Cut))
            },
            MenuAction::Copy => {
                &&& work is ClipboardSet
                &&& next == (Sidebar { clipboard: next.clipboard, ..self })
                &&& clipboard_view(next.clipboard) == Some((path, ClipboardMode::Copy))
            },
            MenuAction::CopyPath => next == self && (work matches MenuWork::CopyText(text) && text@
                == shown(path)),
            MenuAction::CopyRelativePath => next == self && (work matches MenuWork::CopyText(text)
                && text@ == shown(text_from_root(path, self.root()))),
            MenuAction::CollapseSubtree => {
                &&& next == (Sidebar {
                    tree: FileTree { fold: next.tree.fold, ..self.tree },
                    ..self
                })
                &&& work matches MenuWork::Folded { persist } && self.tree.fold.steps_to(
                    next.tree.fold,
                    persist,
                ) && next.tree.fold.expanded@ == members_outside(
                    self.tree.fold.expanded@,
                    components(path),
                ) && next.tree.fold.recorded_here() == self.tree.fold.recorded_with(
                    expanded_under(self.tree.fold.expanded@, components(path)),
                    false,
                ) && persist == (next.tree.fold.recorded_here()
                    != self.tree.fold.recorded_here())
            },
            MenuAction::Reveal => next == self && (work matches MenuWork::Reveal(dir)
                && dir.text() == self.dir_for_manager(path, dirs.contains(components(path)))),
            _ => false,
        }
    }

    /// Runs one row of the open menu, which is closed first. `dirs` are the
    /// paths that are directories on the disk.
    pub fn run_tree_menu_action(&mut self, action: MenuAction, dirs: &PathSet) -> (work: MenuWork)
        requires
            old(self).history.backup_counter + old(self).menu_deletes() <= u64::MAX,
        ensures
            match target_view(old(self).context_menu) {
                None => work is Nothing && *final(self) == *old(self),
                Some(target) => old(self).menu_closed().menu_ran(
                    *final(self),
                    target,
                    action,
                    work,
                    dirs@,
                ),
            },
    {
        let target = match self.context_menu.take() {
            Some(target) => target,
            None => {
                return MenuWork::Nothing;
            },
        };
        self.op_error = None;
        assert(*self == old(self).menu_closed());
        let landing = target.destination_dir(&self.tree.fold.root);
        match action {
            MenuAction::NewFile => {
                let persist = self.start_tree_new_entry(landing, false);
                MenuWork::EditorOpened { persist }
            },
            MenuAction::NewFolder => {
                let persist = self.start_tree_new_entry(landing, true);
                MenuWork::EditorOpened { persist }
            },
            MenuAction::Paste => MenuWork::Paste(self.paste_into_dir(&landing)),
            MenuAction::CollapseAll => {
                let persist = self.tree.fold.collapse_all_dirs();
                MenuWork::Folded { persist }
            },
            MenuAction::Delete => match target {
                ContextTarget::Multiple(paths) => {
                    MenuWork::Delete(self.request_tree_deletes(&paths, dirs))
                },
                ContextTarget::Empty => MenuWork::Nothing,
                ContextTarget::File(path) => self.delete_one(path, false),
                ContextTarget::Folder(path) => self.delete_one(path, true),
            },
            _ => {
                let is_folder = matches!(target, ContextTarget::Folder(_));
                let path = match target {
                    ContextTarget::File(path) => path,
                    ContextTarget::Folder(path) => path,
                    ContextTarget::Empty | ContextTarget::Multiple(_) => {
                        return MenuWork::Nothing;
                    },
                };
                match action {
                    MenuAction::Open => MenuWork::OpenFile(path),
                    MenuAction::Rename => {
                        self.start_tree_rename(path, is_folder);
                        MenuWork::RenameOpened
                    },
                    MenuAction::Duplicate => MenuWork::Duplicate(self.duplicate_tree_entry(&path)),
                    MenuAction::Cut => {
                        self.set_tree_clipboard(path, ClipboardMode::Cut);
                        MenuWork::ClipboardSet
                    },
                    MenuAction::Copy => {
                        self.set_tree_clipboard(path, ClipboardMode::Copy);
                        MenuWork::ClipboardSet
                    },
                    MenuAction::CopyPath => {
                        MenuWork::CopyText(self.path_for_clipboard(&path, false))
                    },
                    MenuAction::CopyRelativePath => {
                        MenuWork::CopyText(self.path_for_clipboard(&path, true))
                    },
                    MenuAction::CollapseSubtree => {
                        let persist = self.tree.fold.collapse_subtree(&path);
                        MenuWork::Folded { persist }
                    },
                    _ => MenuWork::Reveal(
                        self.reveal_in_file_manager(&path, dirs.contains(&path)),
                    ),
                }
            },
        }
    }

    fn delete_one(&mut self, path: FilePath, is_dir: bool) -> (work: MenuWork)
        requires
            old(self).history.backup_counter < u64::MAX,
        ensures
            work matches MenuWork::Delete(tickets) && old(self).one_delete_started(
                *final(self),
                path.text(),
                is_dir,
                tickets@,
            ),
    {
        let mut tickets: Vec<DeleteTicket> = Vec::new();
        match self.request_tree_delete(path, is_dir) {
            Some(ticket) => {
                tickets.push(ticket);
            },
            None => {},
        }
        MenuWork::Delete(tickets)
    }
}

/// Whatever row is run, the menu is closed and the last failure no longer
/// shown, except where the row itself fails.
pub proof fn law_menu_is_closed(
    before: Sidebar,
    after: Sidebar,
    target: TargetView,
    action: MenuAction,
    work: MenuWork,
    dirs: Set<PathView>,
)
    requires
        before.menu_closed().menu_ran(after, target, action, work, dirs),
    ensures
        after.context_menu is None,
        action != MenuAction::Delete ==> after.op_error is None,
{
}

} // verus!
