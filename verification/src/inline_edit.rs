use vstd::prelude::*;
use vstd::string::*;

use crate::moves::{entry_in, entry_path, MoveRequest, OperationOutcome};
use crate::path::{components, file_name, parent, text_parent, FilePath, PathText, PathView};
use crate::state::{InlineEditKind, Sidebar, TreeEffects, TreeInlineEdit};
use crate::text::{concat3, option_text};
use crate::tree::FileTree;

verus! {

pub enum EditKindView {
    NewFile { parent: PathText },
    NewFolder { parent: PathText },
    Rename { path: PathText, is_dir: bool },
}

pub struct EditView {
    pub kind: EditKindView,
    pub name: Seq<char>,
    pub error: Option<Seq<char>>,
}

pub open spec fn kind_view(kind: InlineEditKind) -> EditKindView {
    match kind {
        InlineEditKind::NewFile { parent } => EditKindView::NewFile { parent: parent.text() },
        InlineEditKind::NewFolder { parent } => EditKindView::NewFolder { parent: parent.text() },
        InlineEditKind::Rename { path, is_dir } => EditKindView::Rename {
            path: path.text(),
            is_dir,
        },
    }
}

pub open spec fn edit_view(edit: Option<TreeInlineEdit>) -> Option<EditView> {
    match edit {
        Some(inner) => Some(
            EditView {
                kind: kind_view(inner.kind),
                name: inner.name@,
                error: match inner.error {
                    Some(message) => Some(message@),
                    None => None,
                },
            },
        ),
        None => None,
    }
}

/// A key that was pressed in the tree.
pub struct KeyPress {
    pub platform: bool,
    pub control: bool,
    pub alt: bool,
    pub key: String,
    /// The text that the key types.
    pub text: Option<String>,
}

/// What a key in the tree came to.
#[derive(Clone, Copy, Debug, PartialEq, Eq, Structural)]
pub enum KeyOutcome {
    /// The key is not for the tree.
    Ignored,
    MenuClosed,
    EditCancelled,
    /// The name is to be committed.
    Commit,
    NameChanged,
}

/// What committing a typed name comes to before the disk is asked.
pub enum EditStep {
    /// No editor is open.
    Nothing,
    /// The name was refused; the editor stays open and says why.
    Refused,
    /// There is nothing to be done; the editor is closed.
    Closed,
    CreateFile { parent: FilePath, name: String },
    CreateFolder { destination: FilePath, name: String },
    Move(MoveRequest),
}

/// What became of a new folder on the disk.
pub enum FolderOutcome {
    AlreadyExists,
    Created,
    Failed(String),
}

/// What a key does to an open editor.
pub open spec fn typed(edit: EditView, key: Seq<char>, text: Option<Seq<char>>) -> (
    Option<EditView>,
    KeyOutcome,
) {
    if key == "escape"@ {
        (None, KeyOutcome::EditCancelled)
    } else if key == "enter"@ {
        (Some(edit), KeyOutcome::Commit)
    } else if key == "backspace"@ {
        (
            Some(
                EditView {
                    name: if edit.name.len() > 0 {
                        edit.name.drop_last()
                    } else {
                        edit.name
                    },
                    error: None,
                    ..edit
                },
            ),
            KeyOutcome::NameChanged,
        )
    } else {
        match text {
            Some(added) if added.len() > 0 => (
                Some(EditView { name: edit.name + added, error: None, ..edit }),
                KeyOutcome::NameChanged,
            ),
            _ => (Some(edit), KeyOutcome::Ignored),
        }
    }
}

impl Sidebar {
    /// Whether `next` is this with the editor open for a new entry in `parent`.
    pub open spec fn new_entry_started(
        self,
        next: Sidebar,
        parent: PathText,
        is_dir: bool,
        persist: bool,
    ) -> bool {
        &&& next == (Sidebar {
            inline_edit: next.inline_edit,
            tree: FileTree { fold: next.tree.fold, ..self.tree },
            ..self
        })
        &&& edit_view(next.inline_edit) == Some(
            EditView {
                kind: if is_dir {
                    EditKindView::NewFolder { parent }
                } else {
                    EditKindView::NewFile { parent }
                },
                name: Seq::<char>::empty(),
                error: None,
            },
        )
        &&& if components(parent) == self.root() {
            next.tree.fold == self.tree.fold && !persist
        } else {
            &&& self.tree.fold.steps_to(next.tree.fold, persist)
            &&& next.tree.fold.expanded@ == self.tree.fold.expanded@.insert(components(parent))
            &&& next.tree.fold.recorded_here() == self.tree.fold.recorded_with(
                set![components(parent)],
                true,
            )
            &&& persist == (next.tree.fold.recorded_here() != self.tree.fold.recorded_here())
        }
    }

    /// Opens the editor for a new entry in `parent`, which is expanded so that
    /// the editor shows.
    pub fn start_tree_new_entry(&mut self, parent: FilePath, is_dir: bool) -> (persist: bool)
        ensures
            old(self).new_entry_started(*final(self), parent.text(), is_dir, persist),
    {
        let persist = if parent.same(&self.tree.fold.root) {
            false
        } else {
            self.tree.fold.set_dir_expanded(&parent, true)
        };
        self.inline_edit = Some(
            TreeInlineEdit {
                kind: if is_dir {
                    InlineEditKind::NewFolder { parent }
                } else {
                    InlineEditKind::NewFile { parent }
                },
                name: String::new(),
                error: None,
            },
        );
        persist
    }

    /// The editor for a new name of `path`, with the name that it has.
    pub open spec fn rename_editor(path: PathText, is_dir: bool) -> EditView {
        EditView {
            kind: EditKindView::Rename { path, is_dir },
            name: match file_name(components(path)) {
                Some(name) => name,
                None => Seq::<char>::empty(),
            },
            error: None,
        }
    }

    /// Whether `next` is this with the editor open for a new name of `path`.
    pub open spec fn rename_started(self, next: Sidebar, path: PathText, is_dir: bool) -> bool {
        &&& next == (Sidebar { inline_edit: next.inline_edit, ..self })
        &&& edit_view(next.inline_edit) == if components(path) == self.root() {
            edit_view(self.inline_edit)
        } else {
            Some(Self::rename_editor(path, is_dir))
        }
    }

    /// Opens the editor for a new name of `path`. The root has no row and gets
    /// no name here.
    pub fn start_tree_rename(&mut self, path: FilePath, is_dir: bool)
        ensures
            old(self).rename_started(*final(self), path.text(), is_dir),
    {
        if path.same(&self.tree.fold.root) {
            return ;
        }
        let name = match path.file_name() {
            Some(name) => name,
            None => String::new(),
        };
        self.inline_edit = Some(
            TreeInlineEdit { kind: InlineEditKind::Rename { path, is_dir }, name, error: None },
        );
    }

    /// Opens the editor for a new name of the selected row. Several rows have
    /// no one name.
    pub fn start_tree_rename_for_selection(&mut self, on_disk: bool)
        ensures
            *final(self) == (Sidebar { inline_edit: final(self).inline_edit, ..*old(self) }),
            edit_view(final(self).inline_edit) == if old(self).selection.additional@
                == Set::<PathView>::empty() && old(self).selects_entry() {
                let path = old(self).selection.anchor->0;
                Some(Self::rename_editor(path.text(), old(self).tree.dir_at(path@, on_disk)))
            } else {
                edit_view(old(self).inline_edit)
            },
    {
        if !self.selection.additional.is_empty() {
            return ;
        }
        let path = match &self.selection.anchor {
            Some(path) => path.clone(),
            None => {
                return ;
            },
        };
        if !path.starts_with(&self.tree.fold.root) {
            return ;
        }
        let is_dir = self.tree.is_dir_at(&path, on_disk);
        self.start_tree_rename(path, is_dir);
    }

    /// Closes the editor. Says whether one was open.
    pub fn cancel_tree_inline_edit(&mut self) -> (open: bool)
        ensures
            open == old(self).inline_edit is Some,
            *final(self) == (Sidebar { inline_edit: None, ..*old(self) }),
    {
        let open = self.inline_edit.is_some();
        self.inline_edit = None;
        open
    }

    /// Closes the context menu. Says whether one was open.
    pub fn close_tree_context_menu(&mut self) -> (open: bool)
        ensures
            open == old(self).context_menu is Some,
            *final(self) == (Sidebar { context_menu: None, ..*old(self) }),
    {
        let open = self.context_menu.is_some();
        self.context_menu = None;
        open
    }

    /// Whether a key with a modifier was pressed, which is for others.
    pub open spec fn is_shortcut(press: KeyPress) -> bool {
        press.platform || press.control || press.alt
    }

    /// A key in the tree: it types into an open editor, or closes an open
    /// menu.
    pub fn handle_tree_key_down(&mut self, press: &KeyPress) -> (outcome: KeyOutcome)
        ensures
            *final(self) == (Sidebar {
                inline_edit: final(self).inline_edit,
                context_menu: final(self).context_menu,
                ..*old(self)
            }),
            Self::is_shortcut(*press) ==> outcome is Ignored && *final(self) == *old(self),
            !Self::is_shortcut(*press) ==> match edit_view(old(self).inline_edit) {
                None => if press.key@ == "escape"@ && old(self).context_menu is Some {
                    outcome is MenuClosed && *final(self) == (Sidebar {
                        context_menu: None,
                        ..*old(self)
                    })
                } else {
                    outcome is Ignored && *final(self) == *old(self)
                },
                Some(edit) => {
                    let result = typed(edit, press.key@, option_text(press.text));
                    &&& edit_view(final(self).inline_edit) == result.0
                    &&& outcome == result.1
                    &&& final(self).context_menu == old(self).context_menu
                },
            },
    {
        if press.platform || press.control || press.alt {
            return KeyOutcome::Ignored;
        }
        if self.inline_edit.is_none() {
            if press.key == "escape".to_owned() && self.context_menu.is_some() {
                let _ = self.close_tree_context_menu();
                return KeyOutcome::MenuClosed;
            }
            return KeyOutcome::Ignored;
        }
        if press.key == "escape".to_owned() {
            let _ = self.cancel_tree_inline_edit();
            return KeyOutcome::EditCancelled;
        }
        if press.key == "enter".to_owned() {
            return KeyOutcome::Commit;
        }
        let edit = self.inline_edit.take().unwrap();
        if press.key == "backspace".to_owned() {
            let length = edit.name.as_str().unicode_len();
            let name = if length > 0 {
                let shorter = edit.name.as_str().substring_char(0, length - 1).to_owned();
                assert(shorter@ =~= edit.name@.drop_last());
                shorter
            } else {
                edit.name
            };
            self.inline_edit = Some(TreeInlineEdit { kind: edit.kind, name, error: None });
            return KeyOutcome::NameChanged;
        }
        match &press.text {
            Some(text) => {
                if !text.as_str().is_empty() {
                    let mut name = edit.name;
                    name.append(text.as_str());
                    self.inline_edit = Some(TreeInlineEdit { kind: edit.kind, name, error: None });
                    return KeyOutcome::NameChanged;
                }
            },
            None => {},
        }
        self.inline_edit = Some(edit);
        KeyOutcome::Ignored
    }

    /// Puts back a name that the field's own history undid or redid. The hint
    /// was about the name before and goes with it.
    pub fn replace_inline_name(&mut self, restored: Option<String>)
        ensures
            *final(self) == (Sidebar { inline_edit: final(self).inline_edit, ..*old(self) }),
            edit_view(final(self).inline_edit) == match (
                edit_view(old(self).inline_edit),
                option_text(restored),
            ) {
                (Some(edit), Some(name)) => Some(EditView { name, error: None, ..edit }),
                (edit, _) => edit,
            },
    {
        match restored {
            Some(name) => match self.inline_edit.take() {
                Some(edit) => {
                    self.inline_edit = Some(TreeInlineEdit { kind: edit.kind, name, error: None });
                },
                None => {},
            },
            None => {},
        }
    }

    fn refuse_name(&mut self, message: String)
        ensures
            *final(self) == (Sidebar { inline_edit: final(self).inline_edit, ..*old(self) }),
            edit_view(final(self).inline_edit) == match edit_view(old(self).inline_edit) {
                Some(edit) => Some(EditView { error: Some(message@), ..edit }),
                None => None,
            },
    {
        match self.inline_edit.take() {
            Some(edit) => {
                self.inline_edit = Some(
                    TreeInlineEdit { kind: edit.kind, name: edit.name, error: Some(message) },
                );
            },
            None => {},
        }
    }

    /// What committing comes to, with a name that was found good.
    pub open spec fn edit_step(kind: EditKindView, name: Seq<char>, step: EditStep) -> bool {
        match kind {
            EditKindView::NewFile { parent } => {
                step matches EditStep::CreateFile { parent: dir, name: file } && dir.text()
                    == parent && file@ == name
            },
            EditKindView::NewFolder { parent } => {
                step matches EditStep::CreateFolder { destination, name: folder }
                    && destination.text() == entry_in(parent, name) && folder@ == name
            },
            EditKindView::Rename { path, .. } => match parent(components(path)) {
                None => step is Closed,
                Some(_) => if components(entry_in(text_parent(path), name)) == components(path) {
                    step is Closed
                } else {
                    step matches EditStep::Move(request) && request.source.text() == path
                        && request.destination.text() == entry_in(text_parent(path), name)
                },
            },
        }
    }

    /// Commits the typed name, which was checked before: `checked` is the name
    /// to use, or why it cannot be used.
    pub fn commit_tree_inline_edit(&mut self, checked: Result<String, String>) -> (step: EditStep)
        ensures
            *final(self) == (Sidebar { inline_edit: final(self).inline_edit, ..*old(self) }),
            match edit_view(old(self).inline_edit) {
                None => step is Nothing && *final(self) == *old(self),
                Some(edit) => match checked {
                    Err(message) => {
                        &&& step is Refused
                        &&& edit_view(final(self).inline_edit) == Some(
                            EditView { error: Some(message@), ..edit },
                        )
                    },
                    Ok(name) => {
                        &&& Self::edit_step(edit.kind, name@, step)
                        &&& edit_view(final(self).inline_edit) == if step is Closed {
                            None
                        } else {
                            Some(edit)
                        }
                    },
                },
            },
    {
        if self.inline_edit.is_none() {
            return EditStep::Nothing;
        }
        let name = match checked {
            Err(message) => {
                self.refuse_name(message);
                return EditStep::Refused;
            },
            Ok(name) => name,
        };
        let step = match &self.inline_edit {
            None => EditStep::Nothing,
            Some(edit) => match &edit.kind {
                InlineEditKind::NewFile { parent } => EditStep::CreateFile {
                    parent: parent.clone(),
                    name,
                },
                InlineEditKind::NewFolder { parent } => EditStep::CreateFolder {
                    destination: entry_path(parent, name.as_str()),
                    name,
                },
                InlineEditKind::Rename { path, .. } => match path.parent() {
                    None => EditStep::Closed,
                    Some(above) => {
                        let destination = entry_path(&above, name.as_str());
                        if destination.same(path) {
                            EditStep::Closed
                        } else {
                            EditStep::Move(MoveRequest { source: path.clone(), destination })
                        }
                    },
                },
            },
        };
        if matches!(step, EditStep::Closed) {
            self.inline_edit = None;
        }
        step
    }

    /// Takes in whether the new file was made.
    pub fn finish_new_file(&mut self, outcome: Result<(), String>) -> (effects: TreeEffects)
        ensures
            !effects.persist,
            effects.refresh == outcome is Ok,
            *final(self) == (Sidebar { inline_edit: final(self).inline_edit, ..*old(self) }),
            edit_view(final(self).inline_edit) == match outcome {
                Ok(()) => None,
                Err(message) => match edit_view(old(self).inline_edit) {
                    Some(edit) => Some(EditView { error: Some(message@), ..edit }),
                    None => None,
                },
            },
    {
        match outcome {
            Ok(()) => {
                self.inline_edit = None;
                TreeEffects { persist: false, refresh: true }
            },
            Err(message) => {
                self.refuse_name(message);
                TreeEffects { persist: false, refresh: false }
            },
        }
    }

    /// This with no editor open.
    pub open spec fn without_editor(self) -> Sidebar {
        Sidebar { inline_edit: None, ..self }
    }

    /// Takes in what became of the new folder: it is revealed and selected, or
    /// the editor says why not.
    pub fn finish_new_folder(
        &mut self,
        destination: &FilePath,
        name: &str,
        outcome: FolderOutcome,
    ) -> (effects: TreeEffects)
        ensures
            effects.refresh == outcome is Created,
            outcome is Created ==> old(self).without_editor().shown_at(
                *final(self),
                destination.text(),
                effects.persist,
            ),
            !(outcome is Created) ==> {
                &&& !effects.persist
                &&& *final(self) == (Sidebar { inline_edit: final(self).inline_edit, ..*old(self) })
                &&& edit_view(final(self).inline_edit) == match edit_view(old(self).inline_edit) {
                    Some(edit) => Some(
                        EditView {
                            error: Some(
                                match outcome {
                                    FolderOutcome::Failed(message) => message@,
                                    _ => "\""@ + name@ + "\" already exists"@,
                                },
                            ),
                            ..edit
                        },
                    ),
                    None => None,
                }
            },
    {
        match outcome {
            FolderOutcome::AlreadyExists => {
                let message = concat3("\"", name, "\" already exists");
                self.refuse_name(message);
                TreeEffects { persist: false, refresh: false }
            },
            FolderOutcome::Failed(message) => {
                self.refuse_name(message);
                TreeEffects { persist: false, refresh: false }
            },
            FolderOutcome::Created => {
                self.inline_edit = None;
                assert(*self == old(self).without_editor());
                let persist = self.show_at(destination);
                TreeEffects { persist, refresh: true }
            },
        }
    }

    /// Takes in whether the entry got its new name: everything that is kept by
    /// path follows it, or the editor says why not.
    pub fn finish_rename(&mut self, request: MoveRequest, outcome: Result<(), String>) -> (done:
        OperationOutcome)
        ensures
            done.effects.refresh == outcome is Ok,
            outcome is Ok ==> old(self).without_editor().relocated(
                *final(self),
                request.source.text(),
                request.destination.text(),
                done.effects.persist,
                done.dropped@,
            ),
            outcome matches Err(message) ==> {
                &&& !done.effects.persist
                &&& done.dropped@.len() == 0
                &&& *final(self) == (Sidebar { inline_edit: final(self).inline_edit, ..*old(self) })
                &&& edit_view(final(self).inline_edit) == match edit_view(old(self).inline_edit) {
                    Some(edit) => Some(EditView { error: Some(message@), ..edit }),
                    None => None,
                }
            },
    {
        match outcome {
            Err(message) => {
                self.refuse_name(message);
                OperationOutcome {
                    effects: TreeEffects { persist: false, refresh: false },
                    dropped: Vec::new(),
                }
            },
            Ok(()) => {
                self.inline_edit = None;
                assert(*self == old(self).without_editor());
                let (persist, dropped) = self.relocate(&request.source, &request.destination);
                OperationOutcome { effects: TreeEffects { persist, refresh: true }, dropped }
            },
        }
    }
}

} // verus!
