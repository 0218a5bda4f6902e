use sidebar::documents::EditBuffer;
use sidebar::fold::{FoldState, TreeFold};
use sidebar::history::{DeleteMechanism, TreeUndoEntry};
use sidebar::inline_edit::{EditStep, FolderOutcome, KeyOutcome, KeyPress};
use sidebar::menu::{MenuAction, MenuWork};
use sidebar::moves::{MoveRequest, PasteStep, PasteWork};
use sidebar::path::FilePath;
use sidebar::path_set::PathSet;
use sidebar::selection::ClickModifiers;
use sidebar::spelling::Letter;
use sidebar::state::{ClipboardMode, ContextTarget, InlineEditKind, Sidebar};
use sidebar::table::WorktreePath;
use sidebar::tree::FileTreeEntry;
use sidebar::undo::{
    trash_failed_text, trash_not_started_text, DeleteStep, RedoStep, UndoStep,
};

const PLAIN: ClickModifiers = ClickModifiers { shift: false, secondary: false };
const SHIFT: ClickModifiers = ClickModifiers { shift: true, secondary: false };

fn path(text: &str) -> FilePath {
    FilePath::parse(text)
}

fn entry(text: &str, is_dir: bool) -> FileTreeEntry {
    let path = path(text);
    FileTreeEntry {
        name: path.file_name().expect("a name"),
        depth: path.part_count() - 3,
        path,
        is_dir,
    }
}

/// `src/main.rs`, `src/util.rs` and `README.md` below `/repo`, all shown.
fn sidebar() -> Sidebar {
    let mut fold =
        TreeFold::restore(path("/repo"), Some("/repo".to_string()), FoldState::new());
    fold.set_dir_expanded(&path("/repo/src"), true);
    let mut sidebar = Sidebar::new(fold, path("/tmp/copies"));
    sidebar.tree.entries = vec![
        entry("/repo/src", true),
        entry("/repo/src/main.rs", false),
        entry("/repo/src/util.rs", false),
        entry("/repo/README.md", false),
    ];
    sidebar.tree.complete = true;
    sidebar
}

fn key(worktree: &str, file: &str) -> WorktreePath {
    WorktreePath { worktree: path(worktree), path: path(file) }
}

fn open_buffer(sidebar: &mut Sidebar, worktree: &str, file: &str) {
    let whole = path(worktree).join(&path(file));
    sidebar
        .docs
        .edit_buffers
        .insert(key(worktree, file), EditBuffer { path: whole, text: "text".to_string() });
}

fn press(key: &str, text: Option<&str>) -> KeyPress {
    KeyPress {
        platform: false,
        control: false,
        alt: false,
        key: key.to_string(),
        text: text.map(|text| text.to_string()),
    }
}

fn select(sidebar: &mut Sidebar, file: &str) {
    sidebar.selection.tree_click_select(&sidebar.tree, path(file), PLAIN);
}

fn anchor(sidebar: &Sidebar) -> Option<String> {
    sidebar.selection.anchor.as_ref().map(|p| p.display())
}

fn open_files(sidebar: &Sidebar) -> Vec<String> {
    sidebar.docs.open_files.iter().map(|p| p.display()).collect()
}

fn typed_name(sidebar: &Sidebar) -> Option<String> {
    sidebar.inline_edit.as_ref().map(|edit| edit.name.clone())
}

fn typed_error(sidebar: &Sidebar) -> Option<String> {
    sidebar.inline_edit.as_ref().and_then(|edit| edit.error.clone())
}

fn rename(sidebar: &mut Sidebar, from: &str, name: &str) {
    sidebar.start_tree_rename(path(from), false);
    match sidebar.commit_tree_inline_edit(Ok(name.to_string())) {
        EditStep::Move(request) => {
            let done = sidebar.finish_rename(request, Ok(()));
            assert!(done.effects.refresh);
        }
        _ => panic!("a rename moves"),
    }
}

#[test]
fn renaming_an_open_file_carries_its_tab_and_buffer_with_no_orphan_left_behind() {
    let mut sidebar = sidebar();
    sidebar.docs.open_files = vec![path("src/main.rs"), path("README.md")];
    sidebar.changes.open_change = Some(path("src/main.rs"));
    open_buffer(&mut sidebar, "/repo", "src/main.rs");
    open_buffer(&mut sidebar, "/other", "src/main.rs");
    select(&mut sidebar, "/repo/src/main.rs");

    rename(&mut sidebar, "/repo/src/main.rs", "renamed.rs");

    assert_eq!(open_files(&sidebar), vec!["src/renamed.rs", "README.md"]);
    assert_eq!(
        sidebar.changes.open_change.as_ref().map(|p| p.display()),
        Some("src/renamed.rs".to_string())
    );
    assert!(!sidebar.docs.edit_buffers.contains_key(&key("/repo", "src/main.rs")));
    let buffer = sidebar.docs.edit_buffers.get(&key("/repo", "src/renamed.rs")).expect("moved");
    assert_eq!(buffer.path.display(), "/repo/src/renamed.rs");
    assert_eq!(buffer.text, "text");
    assert_eq!(
        sidebar.docs.edit_buffers.get(&key("/other", "src/main.rs")).map(|b| b.path.display()),
        Some("/other/src/main.rs".to_string()),
        "another worktree's buffer is left alone"
    );
    assert_eq!(anchor(&sidebar), Some("/repo/src/renamed.rs".to_string()));
    assert!(sidebar.inline_edit.is_none());
}

#[test]
fn renaming_a_folder_carries_every_open_tab_underneath_it() {
    let mut sidebar = sidebar();
    sidebar.docs.open_files = vec![path("src/main.rs"), path("src/util.rs"), path("srcs/x.rs")];
    select(&mut sidebar, "/repo/src/main.rs");
    sidebar.selection.tree_click_select(&sidebar.tree, path("/repo/src/util.rs"), SHIFT);
    let persist = sidebar.rename_open_paths(&path("/repo/src"), &path("/repo/lib"));
    assert!(persist, "the recorded folder follows");
    assert_eq!(anchor(&sidebar).as_deref(), Some("/repo/lib/main.rs"));
    assert!(sidebar.selection.is_tree_path_selected(&path("/repo/lib/util.rs")));
    assert!(!sidebar.selection.is_tree_path_selected(&path("/repo/src/util.rs")));
    assert_eq!(open_files(&sidebar), vec!["lib/main.rs", "lib/util.rs", "srcs/x.rs"]);
    assert!(sidebar.tree.fold.expanded.contains(&path("/repo/lib")));
    assert!(!sidebar.tree.fold.expanded.contains(&path("/repo/src")));
    assert!(sidebar.tree.fold.saved.expanded_dirs(&"/repo".to_string()).contains(&path("lib")));
}

#[test]
fn a_rename_and_the_rename_back_leave_tabs_and_buffers_as_they_were() {
    let mut sidebar = sidebar();
    sidebar.docs.open_files = vec![path("src/main.rs"), path("README.md")];
    open_buffer(&mut sidebar, "/repo", "src/main.rs");
    open_buffer(&mut sidebar, "/other", "src/main.rs");
    sidebar.rename_open_paths(&path("/repo/src"), &path("/repo/lib"));
    assert!(sidebar.docs.edit_buffers.get(&key("/repo", "src/main.rs")).is_none());
    sidebar.rename_open_paths(&path("/repo/lib"), &path("/repo/src"));
    assert_eq!(open_files(&sidebar), vec!["src/main.rs", "README.md"]);
    for worktree in ["/repo", "/other"] {
        let buffer = sidebar.docs.edit_buffers.get(&key(worktree, "src/main.rs"));
        assert_eq!(buffer.map(|b| b.text.as_str()), Some("text"));
    }
}

#[test]
fn a_new_sidebar_keeps_nothing() {
    let fold = TreeFold::restore(path("/repo"), None, FoldState::new());
    let sidebar = Sidebar::new(fold, path("/tmp/copies"));
    assert!(sidebar.docs.save_pending.is_empty());
    assert!(sidebar.docs.open_files.is_empty());
    assert!(!sidebar.changes.commit_menu_open);
    assert!(sidebar.changes.staged_files.is_empty());
    assert_eq!(sidebar.changes.diff_root.display(), "/repo");
}

#[test]
fn a_drop_is_taken_back_entry_by_entry() {
    let mut sidebar = sidebar();
    let sources = vec![path("/repo/README.md"), path("/repo/src"), path("/repo/notes.md")];
    let mut run = sidebar.move_paths_into_dir(sources, path("/repo/src"));
    while let Some(query) = sidebar.next_drop(&mut run) {
        let free = query.dir.join(&path(&query.name));
        let request = sidebar.drop_to(query, Ok(free)).expect("a move");
        sidebar.finish_drop(&mut run, request, Ok(()));
    }
    sidebar.finish_drops(run);
    let moved: Vec<String> = sidebar
        .history
        .undo_stack
        .iter()
        .map(|entry| match entry {
            TreeUndoEntry::Relocate { old_path, .. } => old_path.display(),
            TreeUndoEntry::Delete { .. } => panic!("nothing was deleted"),
        })
        .collect();
    assert_eq!(moved, vec!["/repo/README.md", "/repo/notes.md"]);
}

#[test]
fn a_rename_carries_the_files_staged_checkbox_with_it() {
    let mut sidebar = sidebar();
    sidebar.changes.staged_files.insert(path("src/main.rs"));
    rename(&mut sidebar, "/repo/src/main.rs", "renamed.rs");
    assert!(sidebar.changes.staged_files.contains(&path("src/renamed.rs")));
    assert!(!sidebar.changes.staged_files.contains(&path("src/main.rs")));
}

fn with_server_state() -> Sidebar {
    let mut sidebar = sidebar();
    let whole = "/repo/src/main.rs";
    let inner = "src/main.rs";
    let docs = &mut sidebar.docs;
    docs.lsp_opened_files.insert(path(whole));
    docs.lsp_document_versions.insert(path(whole), 3);
    docs.lsp_uri_cache.insert(path(whole), "file:///repo/src/main.rs".to_string());
    docs.lsp_last_synced_content.insert(path(inner), "fn main() {}\n".to_string());
    docs.lsp_synced_version.insert(path(inner), 3);
    docs.lsp_diagnostics_confirmed_version.insert(path(inner), 2);
    docs.caches.hover = true;
    sidebar
}

#[test]
fn renaming_and_deleting_both_clear_the_lsp_per_document_bookkeeping() {
    for deletes in [false, true] {
        let mut sidebar = with_server_state();
        if deletes {
            sidebar.forget_deleted_paths(&path("/repo/src"));
        } else {
            sidebar.rename_open_paths(&path("/repo/src"), &path("/repo/lib"));
        }
        let docs = &sidebar.docs;
        assert!(docs.lsp_opened_files.is_empty());
        assert!(!docs.lsp_document_versions.contains_key(&path("/repo/src/main.rs")));
        assert!(!docs.lsp_uri_cache.contains_key(&path("/repo/src/main.rs")));
        assert!(!docs.lsp_last_synced_content.contains_key(&path("src/main.rs")));
        assert!(!docs.lsp_synced_version.contains_key(&path("src/main.rs")));
        assert!(!docs.lsp_diagnostics_confirmed_version.contains_key(&path("src/main.rs")));
        assert!(!docs.caches.hover);
    }
}

#[test]
fn a_rename_carries_the_save_state_and_drops_running_work() {
    let mut sidebar = sidebar();
    let docs = &mut sidebar.docs;
    docs.external_conflict.insert(path("src/main.rs"));
    docs.save_pending.insert(path("src/main.rs"));
    docs.save_running.insert(path("src/main.rs"));
    docs.save_tasks.insert(path("src/main.rs"));
    docs.save_error = Some((path("src/main.rs"), "disk full".to_string()));
    sidebar.rename_open_paths(&path("/repo/src"), &path("/repo/lib"));
    let docs = &sidebar.docs;
    assert!(docs.external_conflict.contains(&path("lib/main.rs")));
    assert!(docs.save_pending.contains(&path("lib/main.rs")));
    assert!(docs.save_running.is_empty());
    assert!(docs.save_tasks.is_empty());
    let (file, message) = docs.save_error.as_ref().expect("kept");
    assert_eq!((file.display().as_str(), message.as_str()), ("lib/main.rs", "disk full"));
}

#[test]
fn deleting_a_file_forgets_everything_about_it_and_can_be_taken_back() {
    let mut sidebar = sidebar();
    sidebar.docs.open_files = vec![path("src/util.rs"), path("README.md")];
    sidebar.changes.open_change = Some(path("src/util.rs"));
    open_buffer(&mut sidebar, "/repo", "src/util.rs");
    sidebar.changes.staged_files.insert(path("src/util.rs"));
    select(&mut sidebar, "/repo/src/util.rs");
    sidebar.set_tree_clipboard(path("/repo/src/util.rs"), ClipboardMode::Cut);

    let ticket =
        sidebar.request_tree_delete(path("/repo/src/util.rs"), false).expect("inside the tree");
    assert_eq!(ticket.backup_path.display(), "/tmp/copies/0-util.rs");
    let done = sidebar.finish_delete(ticket, DeleteMechanism::Permanent, Ok(()));
    assert!(done.effects.refresh);
    assert_eq!(open_files(&sidebar), vec!["README.md"]);
    assert!(!sidebar.docs.edit_buffers.contains_key(&key("/repo", "src/util.rs")));
    assert_eq!(
        sidebar.changes.open_change.as_ref().map(|p| p.display()),
        Some("README.md".to_string())
    );
    assert!(sidebar.changes.staged_files.is_empty());
    assert_eq!(anchor(&sidebar), None);
    assert!(sidebar.clipboard.is_none());
    match sidebar.history.undo_stack.last().expect("an entry") {
        TreeUndoEntry::Delete { original_path, is_dir, backup_path, .. } => {
            assert_eq!(original_path.display(), "/repo/src/util.rs");
            assert!(!is_dir);
            assert_eq!(backup_path.display(), "/tmp/copies/0-util.rs");
        }
        TreeUndoEntry::Relocate { .. } => panic!("a deletion"),
    }
}

#[test]
fn deleting_something_outside_the_worktree_is_refused_outright() {
    let mut sidebar = sidebar();
    assert!(sidebar.request_tree_delete(path("/elsewhere/a.rs"), false).is_none());
    assert_eq!(
        sidebar.op_error.as_deref(),
        Some("refusing to delete /elsewhere/a.rs: it is not inside this worktree")
    );
    assert!(sidebar.request_tree_delete(path("/repo//./../x/"), true).is_none());
    assert_eq!(
        sidebar.op_error.as_deref(),
        Some("refusing to delete /repo//./../x/: it is not inside this worktree")
    );
    assert!(sidebar.request_tree_delete(path("/repo"), true).is_none());
    assert!(sidebar.request_tree_delete(path("/repo/../x"), true).is_none());
    assert_eq!(sidebar.history.backup_counter, 0);
}

#[test]
fn a_reported_failure_stays_until_it_is_dismissed() {
    let mut sidebar = sidebar();
    sidebar.report_tree_op_error("no such file".to_string());
    assert_eq!(sidebar.op_error.as_deref(), Some("no such file"));
    sidebar.dismiss_op_error();
    assert_eq!(sidebar.op_error, None);
}

#[test]
fn a_copy_is_made_before_anything_is_removed() {
    let mut sidebar = sidebar();
    let ticket = sidebar.request_tree_delete(path("/repo/src"), true).expect("inside");
    let by = DeleteMechanism::Permanent;
    let next = |done: usize, last: Result<(), String>| {
        sidebar.next_delete_step(&ticket, &by, done, &last)
    };
    assert!(matches!(
        next(0, Ok(())),
        Some(DeleteStep::MakeDir(dir)) if dir.display() == "/tmp/copies"
    ));
    assert!(matches!(
        next(1, Ok(())),
        Some(DeleteStep::Copy { source, destination })
            if source.display() == "/repo/src" && destination.display() == "/tmp/copies/0-src"
    ));
    assert!(matches!(
        next(2, Ok(())),
        Some(DeleteStep::Remove { path, mechanism: DeleteMechanism::Permanent })
            if path.display() == "/repo/src"
    ));
    assert!(next(3, Ok(())).is_none());
    for done in 0..4 {
        let failed = next(done, Err("no space left".to_string()));
        assert!(failed.is_none(), "after a copy that failed nothing is removed");
    }
}

#[test]
fn a_failed_deletion_changes_nothing_and_hands_its_copy_back() {
    let mut sidebar = sidebar();
    sidebar.docs.open_files = vec![path("src/util.rs")];
    let ticket = sidebar.request_tree_delete(path("/repo/src/util.rs"), false).expect("inside");
    let done =
        sidebar.finish_delete(ticket, DeleteMechanism::Permanent, Err("busy".to_string()));
    assert!(!done.effects.refresh);
    assert_eq!(done.dropped[0].path.display(), "/tmp/copies/0-util.rs");
    assert_eq!(sidebar.op_error.as_deref(), Some("busy"));
    assert_eq!(open_files(&sidebar), vec!["src/util.rs"]);
    assert!(sidebar.history.undo_stack.is_empty());
}

#[test]
fn what_is_said_of_a_trash_command_that_failed() {
    assert_eq!(
        trash_failed_text("gio", "exit status: 1", "/repo/a"),
        "gio exited with exit status: 1 while trashing /repo/a"
    );
    assert_eq!(trash_not_started_text("gio", "not found"), "failed to run gio: not found");
}

#[test]
fn undoing_then_redoing_a_delete_restores_then_removes_the_file_again() {
    let mut sidebar = sidebar();
    let ticket = sidebar.request_tree_delete(path("/repo/src/util.rs"), false).expect("inside");
    let trash = DeleteMechanism::Trash {
        program: "gio".to_string(),
        args: vec!["trash".to_string(), "/repo/src/util.rs".to_string()],
    };
    sidebar.finish_delete(ticket, trash, Ok(()));

    match sidebar.undo_tree_op() {
        UndoStep::Restore { entry, dir, backup, original } => {
            assert_eq!(dir.map(|p| p.display()), Some("/repo/src".to_string()));
            assert_eq!(backup.display(), "/tmp/copies/0-util.rs");
            assert_eq!(original.display(), "/repo/src/util.rs");
            assert!(sidebar.finish_undo(entry, Ok(())).refresh);
        }
        _ => panic!("a deletion is put back"),
    }
    assert!(sidebar.history.undo_stack.is_empty());
    assert_eq!(sidebar.history.redo_stack.len(), 1);
    assert_eq!(anchor(&sidebar), Some("/repo/src/util.rs".to_string()));

    match sidebar.redo_tree_op() {
        RedoStep::Delete { stale, ticket, mechanism } => {
            assert!(
                matches!(&mechanism, DeleteMechanism::Trash { program, args }
                    if program == "gio" && args.len() == 2),
                "it is deleted again as it was deleted first"
            );
            assert_eq!(stale.path.display(), "/tmp/copies/0-util.rs");
            assert_eq!(ticket.backup_path.display(), "/tmp/copies/1-util.rs");
            assert!(!ticket.clear_redo);
            sidebar.finish_delete(ticket, mechanism, Ok(()));
        }
        _ => panic!("a deletion is done again"),
    }
    assert!(sidebar.history.redo_stack.is_empty());
    assert_eq!(sidebar.history.undo_stack.len(), 1);
}

#[test]
fn undoing_then_redoing_a_rename_restores_then_reapplies_it() {
    let mut sidebar = sidebar();
    sidebar.docs.open_files = vec![path("src/main.rs")];
    rename(&mut sidebar, "/repo/src/main.rs", "renamed.rs");
    match sidebar.undo_tree_op() {
        UndoStep::Move { entry, request } => {
            assert_eq!(request.source.display(), "/repo/src/renamed.rs");
            assert_eq!(request.destination.display(), "/repo/src/main.rs");
            sidebar.finish_undo(entry, Ok(()));
        }
        _ => panic!("a rename is moved back"),
    }
    assert_eq!(open_files(&sidebar), vec!["src/main.rs"]);
    assert_eq!(anchor(&sidebar), Some("/repo/src/main.rs".to_string()));
    match sidebar.redo_tree_op() {
        RedoStep::Move { entry, request } => {
            assert_eq!(request.destination.display(), "/repo/src/renamed.rs");
            sidebar.finish_redo_move(entry, Ok(()));
        }
        _ => panic!("a rename is moved again"),
    }
    assert_eq!(open_files(&sidebar), vec!["src/renamed.rs"]);
    assert_eq!(sidebar.history.undo_stack.len(), 1);
    assert!(sidebar.history.redo_stack.is_empty());
}

#[test]
fn an_undo_that_fails_can_be_tried_again() {
    let mut sidebar = sidebar();
    rename(&mut sidebar, "/repo/src/main.rs", "renamed.rs");
    match sidebar.undo_tree_op() {
        UndoStep::Move { entry, .. } => {
            let effects = sidebar.finish_undo(entry, Err("it is taken".to_string()));
            assert!(!effects.refresh);
        }
        _ => panic!("a rename is moved back"),
    }
    assert_eq!(sidebar.history.undo_stack.len(), 1);
    assert!(sidebar.history.redo_stack.is_empty());
    assert_eq!(sidebar.op_error.as_deref(), Some("it is taken"));

    if let UndoStep::Move { entry, .. } = sidebar.undo_tree_op() {
        sidebar.finish_undo(entry, Ok(()));
    }
    match sidebar.redo_tree_op() {
        RedoStep::Move { entry, .. } => {
            sidebar.finish_redo_move(entry, Err("it is gone".to_string()));
        }
        _ => panic!("a rename is moved again"),
    }
    assert_eq!(sidebar.history.redo_stack.len(), 1);
    assert!(sidebar.history.undo_stack.is_empty());
}

#[test]
fn a_fresh_edit_after_an_undo_clears_the_redo_stack() {
    let mut sidebar = sidebar();
    let ticket = sidebar.request_tree_delete(path("/repo/src/util.rs"), false).expect("inside");
    sidebar.finish_delete(ticket, DeleteMechanism::Permanent, Ok(()));
    if let UndoStep::Restore { entry, .. } = sidebar.undo_tree_op() {
        sidebar.finish_undo(entry, Ok(()));
    }
    assert_eq!(sidebar.history.redo_stack.len(), 1);
    sidebar.start_tree_rename(path("/repo/src/main.rs"), false);
    match sidebar.commit_tree_inline_edit(Ok("other.rs".to_string())) {
        EditStep::Move(request) => {
            let done = sidebar.finish_rename(request, Ok(()));
            assert_eq!(done.dropped.len(), 1, "the copy of the deletion is of no use any more");
            assert_eq!(done.dropped[0].path.display(), "/tmp/copies/0-util.rs");
        }
        _ => panic!("a rename moves"),
    }
    assert!(sidebar.history.redo_stack.is_empty());
    assert!(matches!(sidebar.redo_tree_op(), RedoStep::Nothing));
}

#[test]
fn clearing_the_history_hands_every_copy_back() {
    let mut sidebar = sidebar();
    for file in ["/repo/src/util.rs", "/repo/README.md"] {
        let ticket = sidebar.request_tree_delete(path(file), false).expect("inside");
        sidebar.finish_delete(ticket, DeleteMechanism::Permanent, Ok(()));
    }
    if let UndoStep::Restore { entry, .. } = sidebar.undo_tree_op() {
        sidebar.finish_undo(entry, Ok(()));
    }
    let dropped: Vec<String> =
        sidebar.history.clear_tree_undo_history().iter().map(|b| b.path.display()).collect();
    assert_eq!(dropped, vec!["/tmp/copies/0-util.rs", "/tmp/copies/1-README.md"]);
    assert!(matches!(sidebar.undo_tree_op(), UndoStep::Nothing));
}

#[test]
fn the_delete_key_removes_every_selected_file_not_just_the_anchor() {
    let mut sidebar = sidebar();
    select(&mut sidebar, "/repo/src/main.rs");
    sidebar.selection.tree_click_select(&sidebar.tree, path("/repo/README.md"), SHIFT);
    let tickets = sidebar.request_tree_delete_for_selection(&PathSet::new());
    let paths: Vec<String> = tickets.iter().map(|ticket| ticket.path.display()).collect();
    assert_eq!(paths, vec!["/repo/src/main.rs", "/repo/src/util.rs", "/repo/README.md"]);
    let copies: Vec<String> = tickets.iter().map(|t| t.backup_path.display()).collect();
    assert_eq!(
        copies,
        vec!["/tmp/copies/0-main.rs", "/tmp/copies/1-util.rs", "/tmp/copies/2-README.md"]
    );
    for ticket in tickets {
        sidebar.finish_delete(ticket, DeleteMechanism::Permanent, Ok(()));
    }
    assert_eq!(sidebar.selection.tree_selection_len(), 0, "nothing deleted stays selected");
    select(&mut sidebar, "/repo");
    assert!(sidebar.request_tree_delete_for_selection(&PathSet::new()).is_empty());
    assert!(sidebar.op_error.is_none());
}

fn paste(sidebar: &mut Sidebar, dir: &str, found: &str) -> PasteWork {
    match sidebar.paste_into_dir(&path(dir)) {
        PasteStep::Find(query, mode) => sidebar.paste_to(query, mode, Ok(path(found))),
        _ => panic!("a name is needed"),
    }
}

#[test]
fn pasting_into_the_source_folder_creates_a_real_suffixed_copy() {
    let mut sidebar = sidebar();
    select(&mut sidebar, "/repo/src/main.rs");
    sidebar.copy_selection_to_tree_clipboard(ClipboardMode::Copy);
    match paste(&mut sidebar, "/repo/src", "/repo/src/main copy.rs") {
        PasteWork::Copy(request) => {
            assert_eq!(request.source.display(), "/repo/src/main.rs");
            assert!(sidebar.finish_copy(request, Ok(())).refresh);
        }
        _ => panic!("a copy"),
    }
    assert_eq!(anchor(&sidebar), Some("/repo/src/main copy.rs".to_string()));
    assert!(sidebar.clipboard.is_some(), "a copy can be pasted again");
    assert!(sidebar.history.undo_stack.is_empty(), "a copy has nothing to take back");
}

#[test]
fn cutting_and_pasting_moves_the_entry_and_its_open_tab() {
    let mut sidebar = sidebar();
    sidebar.docs.open_files = vec![path("src/util.rs")];
    sidebar.set_tree_clipboard(path("/repo/src/util.rs"), ClipboardMode::Cut);
    match paste(&mut sidebar, "/repo", "/repo/util.rs") {
        PasteWork::Move(request) => {
            let done = sidebar.finish_paste_move(request, Ok(()));
            assert!(done.effects.refresh);
        }
        _ => panic!("a move"),
    }
    assert_eq!(open_files(&sidebar), vec!["util.rs"]);
    assert!(sidebar.clipboard.is_none());
    assert_eq!(anchor(&sidebar), Some("/repo/util.rs".to_string()));
    assert_eq!(sidebar.history.undo_stack.len(), 1);
}

#[test]
fn undoing_a_cut_and_paste_move_restores_the_original_location() {
    let mut sidebar = sidebar();
    sidebar.set_tree_clipboard(path("/repo/src/util.rs"), ClipboardMode::Cut);
    if let PasteWork::Move(request) = paste(&mut sidebar, "/repo", "/repo/util.rs") {
        sidebar.finish_paste_move(request, Ok(()));
    }
    match sidebar.undo_tree_op() {
        UndoStep::Move { request, .. } => {
            assert_eq!(request.source.display(), "/repo/util.rs");
            assert_eq!(request.destination.display(), "/repo/src/util.rs");
        }
        _ => panic!("a move is moved back"),
    }
}

#[test]
fn cutting_and_pasting_into_the_source_folder_is_a_no_op_not_a_rename() {
    let mut sidebar = sidebar();
    sidebar.set_tree_clipboard(path("/repo/src/util.rs"), ClipboardMode::Cut);
    assert!(matches!(sidebar.paste_into_dir(&path("/repo/src")), PasteStep::AlreadyThere));
    assert!(sidebar.clipboard.is_none());
    assert!(matches!(sidebar.paste_into_dir(&path("/repo/src")), PasteStep::Nothing));
}

#[test]
fn a_name_that_is_no_text_is_at_home_in_its_own_folder_too() {
    let mut sidebar = sidebar();
    let mut letters = path("/repo/src/odd").as_letters().to_vec();
    letters.push(Letter::Stray(0x1ff));
    let odd = FilePath::from_letters(letters);
    sidebar.set_tree_clipboard(odd.clone(), ClipboardMode::Cut);
    assert!(matches!(sidebar.paste_into_dir(&path("/repo/src")), PasteStep::AlreadyThere));
    assert!(sidebar.plan_drop(&odd, &path("/repo/src/")).is_none());
    assert!(sidebar.op_error.is_none());
    assert!(sidebar.plan_drop(&odd, &path("/repo")).is_some());
}

#[test]
fn a_paste_that_fails_says_why() {
    let mut sidebar = sidebar();
    sidebar.set_tree_clipboard(path("/repo/src/util.rs"), ClipboardMode::Cut);
    if let PasteStep::Find(query, mode) = sidebar.paste_into_dir(&path("/repo")) {
        let work = sidebar.paste_to(query, mode, Err("no free name".to_string()));
        assert!(matches!(work, PasteWork::Failed));
    }
    assert_eq!(sidebar.op_error.as_deref(), Some("no free name"));
    let request = MoveRequest { source: path("/repo/a"), destination: path("/repo/b") };
    let done = sidebar.finish_paste_move(request, Err("busy".to_string()));
    assert!(!done.effects.refresh);
    assert_eq!(sidebar.op_error.as_deref(), Some("busy"));
    assert!(sidebar.clipboard.is_some());
}

#[test]
fn a_paste_lands_in_the_selected_folder_or_beside_the_selected_file() {
    let mut sidebar = sidebar();
    assert_eq!(sidebar.paste_destination(false).display(), "/repo");
    select(&mut sidebar, "/repo/src");
    assert_eq!(sidebar.paste_destination(false).display(), "/repo/src");
    select(&mut sidebar, "/repo/src/main.rs");
    assert_eq!(sidebar.paste_destination(true).display(), "/repo/src");
    select(&mut sidebar, "/repo/unlisted");
    assert_eq!(sidebar.paste_destination(true).display(), "/repo/unlisted");
    assert_eq!(sidebar.paste_destination(false).display(), "/repo");
    select(&mut sidebar, "/elsewhere/a");
    assert_eq!(sidebar.paste_destination(true).display(), "/repo");
}

#[test]
fn nothing_is_captured_without_a_selected_entry() {
    let mut sidebar = sidebar();
    sidebar.copy_selection_to_tree_clipboard(ClipboardMode::Copy);
    assert!(sidebar.clipboard.is_none());
    select(&mut sidebar, "/repo");
    sidebar.copy_selection_to_tree_clipboard(ClipboardMode::Copy);
    assert!(sidebar.clipboard.is_none(), "the root is not an entry");
}

fn drop_on(sidebar: &mut Sidebar, sources: &[&str], dir: &str) -> bool {
    let sources: Vec<FilePath> = sources.iter().map(|source| path(source)).collect();
    let mut run = sidebar.move_paths_into_dir(sources, path(dir));
    while let Some(query) = sidebar.next_drop(&mut run) {
        let free = query.dir.join(&path(&query.name));
        if let Some(request) = sidebar.drop_to(query, Ok(free)) {
            sidebar.finish_drop(&mut run, request, Ok(()));
        }
    }
    sidebar.finish_drops(run).refresh
}

#[test]
fn dropping_a_file_onto_a_folder_moves_it_there_with_a_real_undo_entry() {
    let mut sidebar = sidebar();
    assert!(drop_on(&mut sidebar, &["/repo/README.md"], "/repo/src"));
    assert_eq!(anchor(&sidebar), Some("/repo/src/README.md".to_string()));
    match &sidebar.history.undo_stack[0] {
        TreeUndoEntry::Relocate { old_path, new_path } => {
            assert_eq!(old_path.display(), "/repo/README.md");
            assert_eq!(new_path.display(), "/repo/src/README.md");
        }
        TreeUndoEntry::Delete { .. } => panic!("a move"),
    }
}

#[test]
fn dropping_a_multi_selection_moves_every_selected_path() {
    let mut sidebar = sidebar();
    assert!(drop_on(&mut sidebar, &["/repo/src/main.rs", "/repo/src/util.rs"], "/repo"));
    assert_eq!(sidebar.history.undo_stack.len(), 2);
    assert_eq!(anchor(&sidebar), Some("/repo/util.rs".to_string()));
    assert!(sidebar.selection.additional.is_empty());
}

#[test]
fn dropping_a_folder_onto_its_own_descendant_is_refused_with_a_real_error() {
    let mut sidebar = sidebar();
    assert!(!drop_on(&mut sidebar, &["/repo/src"], "/repo/src/deep"));
    assert_eq!(
        sidebar.op_error.as_deref(),
        Some("can't move /repo/src into its own subtree")
    );
    assert!(sidebar.history.undo_stack.is_empty());
}

#[test]
fn dropping_onto_its_own_current_parent_is_a_real_no_op() {
    let mut sidebar = sidebar();
    assert!(!drop_on(&mut sidebar, &["/repo/src/main.rs"], "/repo/src"));
    assert!(sidebar.op_error.is_none());
    assert!(sidebar.history.undo_stack.is_empty());
}

#[test]
fn one_bad_source_does_not_stop_the_others() {
    let mut sidebar = sidebar();
    assert!(drop_on(&mut sidebar, &["/repo/src", "/repo/README.md"], "/repo/src"));
    assert_eq!(sidebar.history.undo_stack.len(), 1);
}

#[test]
fn a_drop_that_the_disk_refuses_goes_on_with_the_next_entry() {
    let mut sidebar = sidebar();
    let sources = vec![path("/repo/src/main.rs"), path("/repo/src/util.rs")];
    let mut run = sidebar.move_paths_into_dir(sources, path("/repo"));
    let query = sidebar.next_drop(&mut run).expect("the first entry");
    assert!(sidebar.drop_to(query, Err("no free name".to_string())).is_none());
    assert_eq!(sidebar.op_error.as_deref(), Some("no free name"));
    let query = sidebar.next_drop(&mut run).expect("the second entry");
    let request = sidebar.drop_to(query, Ok(path("/repo/util.rs"))).expect("a move");
    sidebar.finish_drop(&mut run, request, Err("busy".to_string()));
    assert_eq!(sidebar.op_error.as_deref(), Some("busy"));
    assert!(sidebar.next_drop(&mut run).is_none());
    assert!(!sidebar.finish_drops(run).refresh, "nothing was moved");
}

#[test]
fn a_duplicate_goes_beside_its_source() {
    let mut sidebar = sidebar();
    let query = sidebar.duplicate_tree_entry(&path("/repo/src/main.rs")).expect("a query");
    assert_eq!((query.dir.display().as_str(), query.name.as_str()), ("/repo/src", "main.rs"));
    let request = sidebar.duplicate_to(query, Ok(path("/repo/src/main copy.rs"))).expect("a copy");
    assert_eq!(request.destination.display(), "/repo/src/main copy.rs");
    assert!(sidebar.duplicate_tree_entry(&path("/")).is_none());
}

#[test]
fn the_new_folder_editor_creates_a_real_directory() {
    let mut sidebar = sidebar();
    sidebar.start_tree_new_entry(path("/repo/src"), true);
    for c in ["d", "o", "c", "s"] {
        assert_eq!(sidebar.handle_tree_key_down(&press(c, Some(c))), KeyOutcome::NameChanged);
    }
    assert_eq!(sidebar.handle_tree_key_down(&press("enter", None)), KeyOutcome::Commit);
    let name = typed_name(&sidebar).expect("an editor");
    match sidebar.commit_tree_inline_edit(Ok(name)) {
        EditStep::CreateFolder { destination, name } => {
            assert_eq!(destination.display(), "/repo/src/docs");
            let effects =
                sidebar.finish_new_folder(&destination, &name, FolderOutcome::Created);
            assert!(effects.refresh);
        }
        _ => panic!("a folder"),
    }
    assert!(sidebar.inline_edit.is_none());
    assert_eq!(anchor(&sidebar), Some("/repo/src/docs".to_string()));
}

#[test]
fn an_invalid_name_is_refused_with_a_real_hint_and_the_editor_stays_open() {
    let mut sidebar = sidebar();
    sidebar.start_tree_new_entry(path("/repo"), true);
    sidebar.handle_tree_key_down(&press("/", Some("/")));
    let step = sidebar.commit_tree_inline_edit(Err("a name cannot hold a slash".to_string()));
    assert!(matches!(step, EditStep::Refused));
    assert_eq!(typed_error(&sidebar), Some("a name cannot hold a slash".to_string()));
    sidebar.handle_tree_key_down(&press("backspace", None));
    assert_eq!(typed_error(&sidebar), None, "the hint goes with the next key");
    assert_eq!(typed_name(&sidebar), Some(String::new()));

    let effects =
        sidebar.finish_new_folder(&path("/repo/src"), "src", FolderOutcome::AlreadyExists);
    assert!(!effects.refresh);
    assert_eq!(typed_error(&sidebar), Some("\"src\" already exists".to_string()));
    let failed = FolderOutcome::Failed("read-only".to_string());
    sidebar.finish_new_folder(&path("/repo/x"), "x", failed);
    assert_eq!(typed_error(&sidebar), Some("read-only".to_string()));
}

#[test]
fn a_new_file_is_made_where_its_editor_is() {
    let mut sidebar = sidebar();
    sidebar.start_tree_new_entry(path("/repo/docs"), false);
    assert!(sidebar.tree.fold.expanded.contains(&path("/repo/docs")), "the editor shows");
    match sidebar.commit_tree_inline_edit(Ok("a.md".to_string())) {
        EditStep::CreateFile { parent, name } => {
            assert_eq!((parent.display().as_str(), name.as_str()), ("/repo/docs", "a.md"));
        }
        _ => panic!("a file"),
    }
    sidebar.finish_new_file(Err("it exists".to_string()));
    assert_eq!(typed_error(&sidebar), Some("it exists".to_string()));
    assert!(sidebar.finish_new_file(Ok(())).refresh);
    assert!(sidebar.inline_edit.is_none());
}

#[test]
fn renaming_to_the_same_name_closes_the_editor_and_moves_nothing() {
    let mut sidebar = sidebar();
    sidebar.start_tree_rename(path("/repo/src/main.rs"), false);
    assert_eq!(typed_name(&sidebar), Some("main.rs".to_string()));
    let step = sidebar.commit_tree_inline_edit(Ok("main.rs".to_string()));
    assert!(matches!(step, EditStep::Closed));
    assert!(sidebar.inline_edit.is_none());
    assert!(matches!(
        sidebar.commit_tree_inline_edit(Ok("x".to_string())),
        EditStep::Nothing
    ));
}

#[test]
fn a_rename_that_fails_keeps_the_editor_open() {
    let mut sidebar = sidebar();
    sidebar.start_tree_rename(path("/repo/src/main.rs"), false);
    match sidebar.commit_tree_inline_edit(Ok("util.rs".to_string())) {
        EditStep::Move(request) => {
            let done = sidebar.finish_rename(request, Err("it exists".to_string()));
            assert!(!done.effects.refresh);
        }
        _ => panic!("a rename moves"),
    }
    assert_eq!(typed_error(&sidebar), Some("it exists".to_string()));
    assert!(sidebar.history.undo_stack.is_empty());
}

#[test]
fn rename_is_a_no_op_with_more_than_one_row_selected() {
    let mut sidebar = sidebar();
    select(&mut sidebar, "/repo/src/main.rs");
    sidebar.selection.tree_click_select(&sidebar.tree, path("/repo/src/util.rs"), SHIFT);
    sidebar.start_tree_rename_for_selection(false);
    assert!(sidebar.inline_edit.is_none());
}

#[test]
fn rename_still_works_normally_with_exactly_one_row_selected() {
    let mut sidebar = sidebar();
    select(&mut sidebar, "/repo/src");
    sidebar.start_tree_rename_for_selection(false);
    match &sidebar.inline_edit.as_ref().expect("an editor").kind {
        InlineEditKind::Rename { path, is_dir } => {
            assert_eq!(path.display(), "/repo/src");
            assert!(is_dir);
        }
        _ => panic!("a rename"),
    }
    let mut on_root = sidebar;
    on_root.cancel_tree_inline_edit();
    select(&mut on_root, "/repo");
    on_root.start_tree_rename_for_selection(true);
    assert!(on_root.inline_edit.is_none(), "the root gets no name here");
}

#[test]
fn keys_with_modifiers_are_left_to_others() {
    let mut sidebar = sidebar();
    sidebar.start_tree_new_entry(path("/repo"), false);
    let mut shortcut = press("a", Some("a"));
    shortcut.control = true;
    assert_eq!(sidebar.handle_tree_key_down(&shortcut), KeyOutcome::Ignored);
    assert_eq!(typed_name(&sidebar), Some(String::new()));
    assert_eq!(sidebar.handle_tree_key_down(&press("f5", None)), KeyOutcome::Ignored);
    assert_eq!(sidebar.handle_tree_key_down(&press("escape", None)), KeyOutcome::EditCancelled);
    assert!(sidebar.inline_edit.is_none());
}

#[test]
fn escape_dismisses_the_context_menu() {
    let mut sidebar = sidebar();
    assert_eq!(sidebar.handle_tree_key_down(&press("escape", None)), KeyOutcome::Ignored);
    sidebar.open_tree_context_menu(ContextTarget::Empty);
    assert_eq!(sidebar.handle_tree_key_down(&press("escape", None)), KeyOutcome::MenuClosed);
    assert!(sidebar.context_menu.is_none());
}

#[test]
fn a_restored_name_takes_its_hint_with_it() {
    let mut sidebar = sidebar();
    sidebar.start_tree_rename(path("/repo/src/main.rs"), false);
    sidebar.commit_tree_inline_edit(Err("no".to_string()));
    sidebar.replace_inline_name(None);
    assert_eq!(typed_error(&sidebar), Some("no".to_string()));
    sidebar.replace_inline_name(Some("mai".to_string()));
    assert_eq!(typed_name(&sidebar), Some("mai".to_string()));
    assert_eq!(typed_error(&sidebar), None);
}

#[test]
fn opening_the_context_menu_cancels_an_open_inline_editor() {
    let mut sidebar = sidebar();
    sidebar.start_tree_rename(path("/repo/src/main.rs"), false);
    sidebar.open_tree_context_menu(ContextTarget::File(path("/repo/README.md")));
    assert!(sidebar.inline_edit.is_none());
    assert_eq!(anchor(&sidebar), Some("/repo/README.md".to_string()));
}

#[test]
fn right_clicking_a_row_already_inside_a_multi_selection_preserves_the_whole_selection() {
    let mut sidebar = sidebar();
    select(&mut sidebar, "/repo/src/main.rs");
    sidebar.selection.tree_click_select(&sidebar.tree, path("/repo/src/util.rs"), SHIFT);
    sidebar.open_tree_context_menu(ContextTarget::File(path("/repo/src/util.rs")));
    match sidebar.context_menu.as_ref().expect("a menu") {
        ContextTarget::Multiple(paths) => {
            let shown: Vec<String> = paths.iter().map(|p| p.display()).collect();
            assert_eq!(shown, vec!["/repo/src/main.rs", "/repo/src/util.rs"]);
        }
        _ => panic!("a menu about all selected rows"),
    }
    assert_eq!(sidebar.selection.tree_selection_len(), 2);
    match sidebar.run_tree_menu_action(MenuAction::Delete, &PathSet::new()) {
        MenuWork::Delete(tickets) => assert_eq!(tickets.len(), 2),
        _ => panic!("deletions"),
    }
    assert!(sidebar.context_menu.is_none());
}

#[test]
fn right_clicking_a_row_outside_the_selection_collapses_to_just_that_row() {
    let mut sidebar = sidebar();
    select(&mut sidebar, "/repo/src/main.rs");
    sidebar.selection.tree_click_select(&sidebar.tree, path("/repo/src/util.rs"), SHIFT);
    sidebar.open_tree_context_menu(ContextTarget::File(path("/repo/README.md")));
    assert_eq!(sidebar.selection.tree_selection_len(), 1);
    assert_eq!(anchor(&sidebar), Some("/repo/README.md".to_string()));
    assert!(matches!(sidebar.context_menu, Some(ContextTarget::File(_))));
}

#[test]
fn shift_f10_with_the_tree_focused_opens_the_menu_for_the_selected_row() {
    let mut sidebar = sidebar();
    sidebar.open_tree_context_menu_from_keyboard(false);
    assert!(matches!(sidebar.context_menu, Some(ContextTarget::Empty)));
    select(&mut sidebar, "/repo/src");
    sidebar.open_tree_context_menu_from_keyboard(false);
    assert!(matches!(sidebar.context_menu, Some(ContextTarget::Folder(_))));
    select(&mut sidebar, "/repo/README.md");
    sidebar.open_tree_context_menu_from_keyboard(true);
    assert!(matches!(sidebar.context_menu, Some(ContextTarget::File(_))));
}

fn run(sidebar: &mut Sidebar, target: ContextTarget, action: MenuAction) -> MenuWork {
    sidebar.open_tree_context_menu(target);
    sidebar.run_tree_menu_action(action, &PathSet::new())
}

#[test]
fn every_row_of_the_menu_does_what_it_says() {
    let file = || ContextTarget::File(path("/repo/src/main.rs"));
    let folder = || ContextTarget::Folder(path("/repo/src"));
    let mut s = sidebar();
    assert!(matches!(
        run(&mut s, file(), MenuAction::Open),
        MenuWork::OpenFile(p) if p.display() == "/repo/src/main.rs"
    ));
    assert!(matches!(run(&mut s, ContextTarget::Empty, MenuAction::Open), MenuWork::Nothing));
    run(&mut s, file(), MenuAction::NewFile);
    assert_eq!(s.inline_edit.as_ref().expect("editor").kind.anchor().display(), "/repo/src");
    assert_eq!(s.inline_edit.as_ref().expect("editor").kind.title(), "New file");
    run(&mut s, ContextTarget::Empty, MenuAction::NewFolder);
    assert_eq!(s.inline_edit.as_ref().expect("editor").kind.anchor().display(), "/repo");
    run(&mut s, folder(), MenuAction::Rename);
    assert_eq!(typed_name(&s), Some("src".to_string()));
    assert!(matches!(run(&mut s, file(), MenuAction::Duplicate), MenuWork::Duplicate(Some(_))));
    run(&mut s, file(), MenuAction::Cut);
    assert!(s.clipboard.as_ref().is_some_and(|c| c.mode == ClipboardMode::Cut));
    run(&mut s, file(), MenuAction::Copy);
    assert!(s.clipboard.as_ref().is_some_and(|c| c.mode == ClipboardMode::Copy));
    assert!(matches!(
        run(&mut s, folder(), MenuAction::Paste),
        MenuWork::Paste(PasteStep::Find(query, ClipboardMode::Copy))
            if query.dir.display() == "/repo/src"
    ));
    assert!(matches!(
        run(&mut s, file(), MenuAction::CopyPath),
        MenuWork::CopyText(text) if text == "/repo/src/main.rs"
    ));
    assert!(matches!(
        run(&mut s, folder(), MenuAction::CollapseSubtree),
        MenuWork::Folded { persist: true }
    ));
    s.tree.fold.set_dir_expanded(&path("/repo/src"), true);
    assert!(matches!(
        run(&mut s, ContextTarget::Empty, MenuAction::CollapseAll),
        MenuWork::Folded { persist: true }
    ));
    assert!(matches!(
        run(&mut s, file(), MenuAction::Reveal),
        MenuWork::Reveal(dir) if dir.display() == "/repo/src"
    ));
    match run(&mut s, folder(), MenuAction::Delete) {
        MenuWork::Delete(tickets) => assert!(tickets[0].is_dir),
        _ => panic!("a deletion"),
    }
    assert!(matches!(run(&mut s, ContextTarget::Empty, MenuAction::Delete), MenuWork::Nothing));
    assert!(matches!(
        s.run_tree_menu_action(MenuAction::Open, &PathSet::new()),
        MenuWork::Nothing
    ));
}

#[test]
fn copy_relative_path_writes_the_worktree_relative_path() {
    let mut sidebar = sidebar();
    assert!(matches!(
        run(
            &mut sidebar,
            ContextTarget::File(path("/repo/src/main.rs")),
            MenuAction::CopyRelativePath
        ),
        MenuWork::CopyText(text) if text == "src/main.rs"
    ));
    assert_eq!(sidebar.path_for_clipboard(&path("/other/a"), true), "/other/a");
    assert_eq!(sidebar.path_for_clipboard(&path("/repo/./src//main.rs/"), true), "src//main.rs");
    assert_eq!(sidebar.path_for_clipboard(&path("/repo//src/"), false), "/repo//src/");
}
