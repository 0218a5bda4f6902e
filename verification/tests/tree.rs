use sidebar::fold::{FoldState, SetExpanded, TreeFold};
use sidebar::path::FilePath;
use sidebar::path_set::PathSet;
use sidebar::selection::ClickModifiers;
use sidebar::spelling::Letter;
use sidebar::state::{InlineEditKind, Sidebar, TreeInlineEdit, TreeMark};
use sidebar::table::Table;
use sidebar::theme::ThemeColor;
use sidebar::tree::{FileTree, FileTreeEntry};
use sidebar::tree_view::{
    folder_icon_colors, tree_caret, tree_drop_target_dir, RowClick, TreeBody, TreeRow,
};

const PLAIN: ClickModifiers = ClickModifiers { shift: false, secondary: false };
const SHIFT: ClickModifiers = ClickModifiers { shift: true, secondary: false };
const SECONDARY: ClickModifiers = ClickModifiers { shift: false, secondary: true };

fn path(text: &str) -> FilePath {
    FilePath::parse(text)
}

fn entry(text: &str, is_dir: bool) -> FileTreeEntry {
    let path = path(text);
    FileTreeEntry {
        name: path.file_name().expect("a name"),
        depth: path.part_count() - 3,
        path,
        is_dir,
    }
}

/// `src/app/main.rs`, `src/lib/util.rs` and `README.md` below `/repo`.
fn entries() -> Vec<FileTreeEntry> {
    vec![
        entry("/repo/src", true),
        entry("/repo/src/app", true),
        entry("/repo/src/app/main.rs", false),
        entry("/repo/src/lib", true),
        entry("/repo/src/lib/util.rs", false),
        entry("/repo/README.md", false),
    ]
}

fn sidebar_at(root: &str, saved: FoldState) -> Sidebar {
    let fold = TreeFold::restore(path(root), Some(root.to_string()), saved);
    let mut sidebar = Sidebar::new(fold, path("/tmp/copies"));
    sidebar.tree.entries = entries();
    sidebar.tree.complete = true;
    sidebar
}

fn sidebar() -> Sidebar {
    sidebar_at("/repo", FoldState::new())
}

/// Four files directly in the root.
fn flat() -> Sidebar {
    let mut sidebar = sidebar();
    sidebar.tree.entries = vec![
        entry("/repo/a.txt", false),
        entry("/repo/b.txt", false),
        entry("/repo/c.txt", false),
        entry("/repo/d.txt", false),
    ];
    sidebar
}

fn names(tree: &FileTree) -> Vec<String> {
    tree.visible_indices().iter().map(|&i| tree.entries[i].name.clone()).collect()
}

fn sorted(set: &PathSet) -> Vec<String> {
    let mut shown: Vec<String> = set.to_vec().iter().map(|p| p.display()).collect();
    shown.sort();
    shown
}

fn selected(sidebar: &Sidebar) -> Vec<String> {
    sidebar
        .selection
        .tree_selected_paths(&sidebar.tree)
        .iter()
        .map(|p| p.display())
        .collect()
}

#[test]
fn a_worktree_opened_for_the_first_time_starts_fully_collapsed() {
    let sidebar = sidebar();
    assert!(sidebar.tree.fold.expanded.is_empty());
    assert_eq!(names(&sidebar.tree), vec!["src", "README.md"]);
}

#[test]
fn expanding_and_collapsing_a_directory_adds_and_removes_its_children() {
    let mut sidebar = sidebar();
    assert!(sidebar.tree.fold.toggle_dir_expanded(&path("/repo/src")));
    assert_eq!(names(&sidebar.tree), vec!["src", "app", "lib", "README.md"]);
    assert!(sidebar.tree.fold.toggle_dir_expanded(&path("/repo/src")));
    assert_eq!(names(&sidebar.tree), vec!["src", "README.md"]);
}

#[test]
fn expanded_folders_are_restored_exactly_after_a_simulated_reload() {
    let mut first = sidebar();
    assert!(first.tree.fold.toggle_dir_expanded(&path("/repo/src")));
    assert!(first.tree.fold.toggle_dir_expanded(&path("/repo/src/app")));
    assert_eq!(first.tree.fold.saved.expanded_dirs(&"/repo".to_string()).len(), 2);

    let again = sidebar_at("/repo", first.tree.fold.saved);
    assert_eq!(sorted(&again.tree.fold.expanded), vec!["/repo/src", "/repo/src/app"]);
    assert_eq!(names(&again.tree), vec!["src", "app", "main.rs", "lib", "README.md"]);
}

#[test]
fn fold_state_from_one_worktree_never_leaks_into_another() {
    let mut first = sidebar_at("/repo/a", FoldState::new());
    assert!(first.tree.fold.toggle_dir_expanded(&path("/repo/a/src")));
    let second = sidebar_at("/repo/b", first.tree.fold.saved);
    assert!(second.tree.fold.expanded.is_empty());
    assert_eq!(second.tree.fold.saved.expanded_dirs(&"/repo/a".to_string()).len(), 1);
}

#[test]
fn a_stale_entry_for_a_deleted_folder_is_pruned_silently() {
    let mut sidebar = sidebar();
    for dir in ["/repo/src", "/repo/src/app", "/repo/src/lib"] {
        sidebar.tree.fold.toggle_dir_expanded(&path(dir));
    }
    sidebar.tree.entries.retain(|entry| !entry.path.starts_with(&path("/repo/src/lib")));
    assert!(sidebar.tree.prune_stale_fold_state(), "the prune must be written back");
    assert_eq!(sorted(&sidebar.tree.fold.expanded), vec!["/repo/src", "/repo/src/app"]);
    assert_eq!(
        sorted(&sidebar.tree.fold.saved.expanded_dirs(&"/repo".to_string())),
        vec!["src", "src/app"]
    );
    assert!(!sidebar.tree.prune_stale_fold_state(), "there is nothing left to prune");
}

#[test]
fn an_incomplete_walk_never_prunes_fold_state() {
    let mut sidebar = sidebar();
    sidebar.tree.fold.toggle_dir_expanded(&path("/repo/src/lib"));
    sidebar.tree.entries.clear();
    sidebar.tree.complete = false;
    assert!(!sidebar.tree.prune_stale_fold_state());
    assert_eq!(sidebar.tree.fold.saved.expanded_dirs(&"/repo".to_string()).len(), 1);
}

#[test]
fn collapse_all_clears_both_the_tree_and_the_saved_state() {
    let mut sidebar = sidebar();
    sidebar.tree.fold.toggle_dir_expanded(&path("/repo/src"));
    sidebar.tree.fold.toggle_dir_expanded(&path("/repo/src/app"));
    assert!(sidebar.tree.fold.collapse_all_dirs());
    assert!(sidebar.tree.fold.expanded.is_empty());
    let again = sidebar_at("/repo", sidebar.tree.fold.saved);
    assert!(again.tree.fold.expanded.is_empty());
}

#[test]
fn revealing_a_file_expands_its_ancestors_and_records_them() {
    let mut sidebar = sidebar();
    assert!(sidebar.tree.fold.reveal_in_tree(&path("/repo/src/app/main.rs")));
    assert_eq!(sorted(&sidebar.tree.fold.expanded), vec!["/repo/src", "/repo/src/app"]);
    assert!(names(&sidebar.tree).contains(&"main.rs".to_string()));
    assert!(
        !sidebar.tree.fold.reveal_in_tree(&path("/repo/src/app/main.rs")),
        "a second reveal changes nothing"
    );
    assert!(!sidebar.tree.fold.reveal_in_tree(&path("/elsewhere/a/b.rs")));
    assert_eq!(sidebar.tree.fold.expanded.len(), 2);
}

#[test]
fn collapse_subtree_collapses_only_that_folders_own_descendants() {
    let mut sidebar = sidebar();
    for dir in ["/repo/src", "/repo/src/app", "/repo/docs"] {
        sidebar.tree.fold.toggle_dir_expanded(&path(dir));
    }
    assert!(sidebar.tree.fold.collapse_subtree(&path("/repo/src")));
    assert_eq!(sorted(&sidebar.tree.fold.expanded), vec!["/repo/docs"]);
    assert!(!sidebar.tree.fold.collapse_subtree(&path("/repo/src")));
}

#[test]
fn a_path_that_is_not_plainly_inside_is_expanded_but_not_recorded() {
    let mut sidebar = sidebar();
    assert!(!sidebar.tree.fold.set_dir_expanded(&path("/repo/../escape"), true));
    assert!(sidebar.tree.fold.expanded.contains(&path("/repo/../escape")));
    let mut saved = FoldState::new();
    let key = "k".to_string();
    assert_eq!(
        saved.set_expanded_with_key(&key, &path("/repo"), &path("/other"), true),
        SetExpanded::Refused
    );
    assert_eq!(
        saved.set_expanded_with_key(&key, &path("/repo"), &path("/repo/a"), true),
        SetExpanded::Changed
    );
    assert_eq!(
        saved.set_expanded_with_key(&key, &path("/repo"), &path("/repo/a"), true),
        SetExpanded::Unchanged
    );
}

#[test]
fn a_directory_that_is_no_text_is_expanded_but_not_recorded() {
    let mut fold = TreeFold::restore(path("/repo"), Some("k".to_string()), FoldState::new());
    let mut letters = path("/repo/d").as_letters().to_vec();
    letters.push(Letter::Stray(0x1ff));
    let dir = FilePath::from_letters(letters);
    assert!(fold.refuses(&dir));
    assert!(!fold.set_dir_expanded(&dir, true));
    assert!(fold.expanded.contains(&dir));
    assert!(fold.saved.expanded_dirs(&"k".to_string()).is_empty());
    assert!(!fold.refuses(&path("/repo/d")));
    assert!(fold.refuses(&path("/elsewhere")));
}

#[test]
fn a_worktree_without_a_key_records_nothing() {
    let fold = TreeFold::restore(path("/repo"), None, FoldState::new());
    let mut tree = FileTree::new(fold);
    assert!(!tree.fold.toggle_dir_expanded(&path("/repo/src")));
    assert!(tree.fold.expanded.contains(&path("/repo/src")));
    assert!(!tree.fold.collapse_all_dirs());
    assert!(tree.fold.expanded.is_empty());
}

#[test]
fn secondary_click_toggles_a_row_into_and_back_out_of_the_selection() {
    let mut sidebar = flat();
    sidebar.selection.tree_click_select(&sidebar.tree, path("/repo/a.txt"), PLAIN);
    sidebar.selection.tree_click_select(&sidebar.tree, path("/repo/c.txt"), SECONDARY);
    assert_eq!(selected(&sidebar), vec!["/repo/a.txt", "/repo/c.txt"]);
    assert_eq!(sidebar.selection.tree_selection_len(), 2);
    sidebar.selection.tree_click_select(&sidebar.tree, path("/repo/c.txt"), SECONDARY);
    assert_eq!(selected(&sidebar), vec!["/repo/a.txt"]);
}

#[test]
fn secondary_click_toggling_the_anchor_off_promotes_another_selected_row() {
    let mut sidebar = flat();
    sidebar.selection.tree_click_select(&sidebar.tree, path("/repo/a.txt"), PLAIN);
    sidebar.selection.tree_click_select(&sidebar.tree, path("/repo/b.txt"), SECONDARY);
    sidebar.selection.tree_click_select(&sidebar.tree, path("/repo/a.txt"), SECONDARY);
    assert_eq!(selected(&sidebar), vec!["/repo/b.txt"]);
    assert!(sidebar.selection.additional.is_empty());
    sidebar.selection.tree_click_select(&sidebar.tree, path("/repo/b.txt"), SECONDARY);
    assert_eq!(sidebar.selection.tree_selection_len(), 0);
}

#[test]
fn shift_click_range_selects_between_the_anchor_and_the_clicked_row() {
    let mut sidebar = flat();
    sidebar.selection.tree_click_select(&sidebar.tree, path("/repo/b.txt"), PLAIN);
    sidebar.selection.tree_click_select(&sidebar.tree, path("/repo/d.txt"), SHIFT);
    assert_eq!(selected(&sidebar), vec!["/repo/b.txt", "/repo/c.txt", "/repo/d.txt"]);
    sidebar.selection.tree_click_select(&sidebar.tree, path("/repo/a.txt"), SHIFT);
    assert_eq!(
        selected(&sidebar),
        vec!["/repo/a.txt", "/repo/b.txt"],
        "a second Shift-click measures the range anew from the same anchor"
    );
}

#[test]
fn a_range_to_a_row_that_does_not_show_selects_the_clicked_row_alone() {
    let mut sidebar = sidebar();
    sidebar.selection.tree_click_select(&sidebar.tree, path("/repo/src/app/main.rs"), PLAIN);
    sidebar.selection.tree_click_select(&sidebar.tree, path("/repo/README.md"), SHIFT);
    assert_eq!(selected(&sidebar), vec!["/repo/README.md"]);
    let mut fresh = flat();
    fresh.selection.tree_click_select(&fresh.tree, path("/repo/c.txt"), SHIFT);
    assert_eq!(selected(&fresh), vec!["/repo/c.txt"], "with no anchor there is no range");
}

#[test]
fn a_plain_click_collapses_the_selection_to_just_that_row() {
    let mut sidebar = flat();
    sidebar.selection.tree_click_select(&sidebar.tree, path("/repo/a.txt"), PLAIN);
    sidebar.selection.tree_click_select(&sidebar.tree, path("/repo/d.txt"), SHIFT);
    assert!(sidebar.selection.several());
    sidebar.selection.tree_click_select(&sidebar.tree, path("/repo/c.txt"), PLAIN);
    assert_eq!(selected(&sidebar), vec!["/repo/c.txt"]);
    assert!(!sidebar.selection.several());
}

#[test]
fn selected_rows_come_in_the_order_of_the_tree_and_hidden_ones_behind() {
    let mut sidebar = sidebar();
    sidebar.selection.tree_click_select(&sidebar.tree, path("/repo/src/app/main.rs"), PLAIN);
    sidebar.selection.tree_click_select(&sidebar.tree, path("/repo/README.md"), SECONDARY);
    sidebar.selection.tree_click_select(&sidebar.tree, path("/repo/src"), SECONDARY);
    assert_eq!(
        selected(&sidebar),
        vec!["/repo/src", "/repo/README.md", "/repo/src/app/main.rs"],
        "a row inside a collapsed folder is still part of the selection"
    );
}

#[test]
fn a_folder_click_selects_and_folds_and_a_modified_click_only_selects() {
    let mut sidebar = sidebar();
    let click = sidebar.tree_row_clicked(&path("/repo/src"), true, PLAIN);
    assert!(matches!(click, RowClick::Folded { persist: true }));
    assert_eq!(selected(&sidebar), vec!["/repo/src"]);
    let click = sidebar.tree_row_clicked(&path("/repo/src/app"), true, SECONDARY);
    assert!(matches!(click, RowClick::SelectionChanged));
    assert!(!sidebar.tree.fold.expanded.contains(&path("/repo/src/app")));
    assert_eq!(selected(&sidebar), vec!["/repo/src", "/repo/src/app"]);
}

#[test]
fn opening_a_file_from_the_tree_collapses_a_stray_multi_selection() {
    let mut sidebar = flat();
    sidebar.tree_row_clicked(&path("/repo/a.txt"), false, PLAIN);
    sidebar.tree_row_clicked(&path("/repo/b.txt"), false, SECONDARY);
    match sidebar.tree_row_clicked(&path("/repo/c.txt"), false, PLAIN) {
        RowClick::OpenFile(opened) => assert_eq!(opened.display(), "/repo/c.txt"),
        _ => panic!("a plain click opens the file"),
    }
    assert_eq!(selected(&sidebar), vec!["/repo/c.txt"]);
}

fn editing(kind: InlineEditKind) -> Option<TreeInlineEdit> {
    Some(TreeInlineEdit { kind, name: String::new(), error: None })
}

#[test]
fn the_name_editor_stands_in_for_the_renamed_row() {
    let mut sidebar = sidebar();
    sidebar.inline_edit =
        editing(InlineEditKind::Rename { path: path("/repo/README.md"), is_dir: false });
    let indices = sidebar.tree.visible_indices();
    let (rows, depth) = sidebar.file_tree_rows(&indices);
    assert_eq!(rows, vec![TreeRow::Entry(0), TreeRow::InlineEditor]);
    assert_eq!(depth, 0);
}

#[test]
fn the_name_editor_goes_below_the_folder_that_a_new_entry_lands_in() {
    let mut sidebar = sidebar();
    sidebar.tree.fold.toggle_dir_expanded(&path("/repo/src"));
    sidebar.inline_edit = editing(InlineEditKind::NewFile { parent: path("/repo/src/app") });
    let indices = sidebar.tree.visible_indices();
    let (rows, depth) = sidebar.file_tree_rows(&indices);
    assert_eq!(
        rows,
        vec![
            TreeRow::Entry(0),
            TreeRow::Entry(1),
            TreeRow::InlineEditor,
            TreeRow::Entry(3),
            TreeRow::Entry(5),
        ]
    );
    assert_eq!(depth, 2);
}

#[test]
fn a_name_editor_whose_row_is_gone_is_drawn_on_top() {
    let mut sidebar = sidebar();
    for kind in [
        InlineEditKind::NewFolder { parent: path("/repo/gone") },
        InlineEditKind::Rename { path: path("/repo/gone/a"), is_dir: false },
    ] {
        sidebar.inline_edit = editing(kind);
        let (rows, depth) = sidebar.file_tree_rows(&sidebar.tree.visible_indices());
        assert_eq!(rows, vec![TreeRow::InlineEditor, TreeRow::Entry(0), TreeRow::Entry(5)]);
        assert_eq!(depth, 0);
    }
    sidebar.inline_edit = None;
    let (rows, _) = sidebar.file_tree_rows(&sidebar.tree.visible_indices());
    assert_eq!(rows, vec![TreeRow::Entry(0), TreeRow::Entry(5)]);
}

#[test]
fn a_tree_reload_during_an_inline_rename_keeps_the_typed_text() {
    let mut sidebar = sidebar();
    sidebar.start_tree_rename(path("/repo/README.md"), false);
    sidebar.tree.entries = vec![entry("/repo/new.rs", false)];
    let field = sidebar.inline_edit_view(0).expect("the editor is still open");
    assert_eq!(field.name, "README.md");
    assert_eq!(field.title, "Rename");
    match sidebar.file_tree_body() {
        TreeBody::Rows { rows, .. } => assert_eq!(rows[0], TreeRow::InlineEditor),
        _ => panic!("rows"),
    }
}

#[test]
fn an_unreadable_or_empty_directory_is_drawn_as_a_message() {
    let mut sidebar = sidebar();
    sidebar.tree.entries.clear();
    match sidebar.file_tree_body() {
        TreeBody::Empty { text } => assert_eq!(text, "(empty directory)"),
        _ => panic!("a message"),
    }
    sidebar.tree.error = Some("permission denied".to_string());
    match sidebar.file_tree_body() {
        TreeBody::Error { message, editor } => {
            assert_eq!(message, "failed to read directory: permission denied");
            assert!(!editor);
        }
        _ => panic!("a message"),
    }
}

#[test]
fn a_failed_operation_is_told_below_the_rows_and_only_there() {
    let mut sidebar = sidebar();
    assert_eq!(sidebar.op_error_row(), None);
    sidebar.report_tree_op_error("busy".to_string());
    assert_eq!(sidebar.op_error_row().as_deref(), Some("busy"));
    sidebar.tree.error = Some("permission denied".to_string());
    assert_eq!(sidebar.op_error_row(), None);
    sidebar.tree.error = None;
    sidebar.tree.entries.clear();
    assert_eq!(sidebar.op_error_row(), None, "an empty directory is a message");
    sidebar.start_tree_new_entry(path("/repo"), false);
    assert_eq!(sidebar.op_error_row().as_deref(), Some("busy"));
}

#[test]
fn a_row_shows_its_state() {
    let mut sidebar = sidebar();
    sidebar.tree.fold.toggle_dir_expanded(&path("/repo/src"));
    let mut marks: Table<FilePath, TreeMark> = Table::new();
    marks.insert(path("/repo/README.md"), TreeMark::Modified);
    let folder = sidebar.file_tree_row_view(&sidebar.tree.entries[0], &marks, true);
    assert_eq!(folder.id, "file-tree-row-/repo/src");
    assert_eq!(folder.selector, "file-tree-row-src");
    assert!(folder.is_open);
    assert_eq!(folder.caret, "\u{25be}");
    assert_eq!(folder.background, ThemeColor::Transparent);
    assert_eq!(folder.name_color, ThemeColor::TextSecondary);
    assert_eq!(folder.new_file.expect("a control").tooltip, "New file in src");
    let file = sidebar.file_tree_row_view(&sidebar.tree.entries[5], &marks, true);
    assert_eq!(file.mark, Some(TreeMark::Modified));
    assert_eq!(file.caret, "");
    assert!(file.new_file.is_none());
    let deep = sidebar.file_tree_row_view(&sidebar.tree.entries[2], &marks, true);
    assert_eq!(deep.guides, vec!["file-tree-guide-main.rs-0", "file-tree-guide-main.rs-1"]);
    assert_eq!(deep.guide_color, ThemeColor::IndentGuide);
    assert_eq!(TreeMark::Added.label(), "A");
    assert_eq!(TreeMark::Modified.color(), ThemeColor::TreeModified);
}

#[test]
fn selection_lights_up_only_while_the_tree_has_focus_but_the_open_file_always_does() {
    let mut sidebar = flat();
    let marks: Table<FilePath, TreeMark> = Table::new();
    sidebar.tree_row_clicked(&path("/repo/b.txt"), false, PLAIN);
    sidebar.changes.open_change = Some(path("a.txt"));
    let color = |sidebar: &Sidebar, i: usize, focused: bool| {
        sidebar.file_tree_row_view(&sidebar.tree.entries[i], &marks, focused).background
    };
    assert_eq!(color(&sidebar, 0, false), ThemeColor::RowSelected);
    assert_eq!(color(&sidebar, 1, true), ThemeColor::RowSelected);
    assert_eq!(color(&sidebar, 1, false), ThemeColor::Transparent);
    assert_eq!(color(&sidebar, 2, true), ThemeColor::Transparent);
}

#[test]
fn a_drag_carries_the_whole_selection_or_the_row_alone() {
    let mut sidebar = flat();
    sidebar.tree_row_clicked(&path("/repo/a.txt"), false, PLAIN);
    sidebar.tree_row_clicked(&path("/repo/c.txt"), false, SECONDARY);
    let all = sidebar.tree_drag_payload(&sidebar.tree.entries[2]);
    assert_eq!(all.paths.len(), 2);
    assert_eq!(all.label, "2 items");
    let one = sidebar.tree_drag_payload(&sidebar.tree.entries[1]);
    assert_eq!(one.paths[0].display(), "/repo/b.txt");
    assert_eq!(one.label, "b.txt");
}

#[test]
fn a_drag_lights_up_the_folder_it_is_over_but_never_one_that_is_dragged() {
    let mut sidebar = sidebar();
    let marks: Table<FilePath, TreeMark> = Table::new();
    let src = path("/repo/src");
    assert!(!sidebar.tree_drag_moved(&src, true, true, &vec![path("/repo/src")]));
    assert!(sidebar.tree_drag_moved(&src, true, true, &vec![path("/repo/README.md")]));
    assert!(!sidebar.tree_drag_moved(&src, true, true, &vec![path("/repo/README.md")]));
    let row = sidebar.file_tree_row_view(&sidebar.tree.entries[0], &marks, true);
    assert_eq!(row.background, ThemeColor::DropTarget);
    assert!(sidebar.tree_drag_moved(&src, false, true, &vec![]));
    assert!(sidebar.drag_target.is_none());
    assert_eq!(
        tree_drop_target_dir(&path("/repo/src/a.rs"), false).map(|p| p.display()),
        Some("/repo/src".to_string())
    );
    assert_eq!(
        tree_drop_target_dir(&src, true).map(|p| p.display()),
        Some("/repo/src".to_string())
    );
}

#[test]
fn carets_and_icons() {
    assert_eq!(tree_caret(false, true), "");
    assert_eq!(tree_caret(true, false), "\u{25b8}");
    assert_eq!(folder_icon_colors(true), (ThemeColor::ChipNeutral, ThemeColor::TextFaint));
    assert_eq!(folder_icon_colors(false), (ThemeColor::Transparent, ThemeColor::TextGhost));
}
