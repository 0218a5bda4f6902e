use sidebar::keys::{
    changes_footer, default_key_bindings, file_tree_footer, file_tree_key_context, resolve_combo,
    BindingScope, ContextWord, FooterAction, KeyBinding, BoundAction, CHANGES_SEEN_SPEC,
    CHANGES_STAGE_SPEC, FILE_TREE_CONTEXT_MENU_SPEC, FILE_TREE_RENAME_SPEC,
};

fn find(bindings: &[KeyBinding], name: &str) -> KeyBinding {
    *bindings
        .iter()
        .find(|binding| binding.action.name() == name)
        .unwrap_or_else(|| panic!("`{name}` must have a real registered binding"))
}

#[test]
fn the_changes_footer_only_advertises_a_really_registered_binding() {
    let bindings = default_key_bindings(false);
    let keystroke = find(&bindings, "app::ToggleChangeSeen").keystroke;
    assert_eq!(keystroke.key, CHANGES_SEEN_SPEC);
    assert!(
        !keystroke.control && !keystroke.alt && !keystroke.platform && !keystroke.shift,
        "a bare `V`"
    );
}

#[test]
fn the_changes_footers_space_hint_only_advertises_a_really_registered_binding() {
    let bindings = default_key_bindings(false);
    let stage = find(&bindings, "app::ToggleChangeStaged");
    let seen = find(&bindings, "app::ToggleChangeSeen");
    assert_eq!(stage.keystroke.key, CHANGES_STAGE_SPEC);
    let keystroke = stage.keystroke;
    assert!(
        !keystroke.control && !keystroke.alt && !keystroke.platform && !keystroke.shift,
        "a bare `space`"
    );
    assert_eq!(stage.scope.predicate(), "diff && !file-editor && !text-input");
    assert_eq!(
        stage.scope.predicate(),
        seen.scope.predicate(),
        "and both hints in the one strip name the same real surface"
    );
}

#[test]
fn every_file_tree_binding_is_scoped_away_from_the_inline_editor() {
    let expected = "file-tree && !tree-editing";
    let tree_actions = [
        "app::FileTreeContextMenu",
        "app::FileTreeRename",
        "app::FileTreeCopy",
        "app::FileTreeCut",
        "app::FileTreePaste",
        "app::FileTreeDelete",
        "app::FileTreeUndo",
        "app::FileTreeRedo",
    ];
    let bindings = default_key_bindings(false);
    let mut seen = Vec::new();
    for binding in &bindings {
        let name = binding.action.name();
        if !tree_actions.contains(&name) {
            continue;
        }
        seen.push(name);
        assert_eq!(
            binding.scope.predicate(),
            expected,
            "{name} is bound with the wrong context predicate"
        );
    }
    seen.sort_unstable();
    let mut want = tree_actions;
    want.sort_unstable();
    assert_eq!(seen, want, "every file-tree action must have a real registered binding");
}

#[test]
fn the_file_tree_footer_only_advertises_real_registered_bindings() {
    let bindings = default_key_bindings(false);
    for (spec, action) in [
        (FILE_TREE_CONTEXT_MENU_SPEC, "app::FileTreeContextMenu"),
        (FILE_TREE_RENAME_SPEC, "app::FileTreeRename"),
    ] {
        let keystroke = find(&bindings, action).keystroke;
        let printed = resolve_combo(spec);
        let mut parts: Vec<String> = Vec::new();
        if keystroke.control {
            parts.push("ctrl".to_string());
        }
        if keystroke.alt {
            parts.push("alt".to_string());
        }
        if keystroke.platform {
            parts.push("cmd".to_string());
        }
        if keystroke.shift {
            parts.push("shift".to_string());
        }
        parts.push(keystroke.key.to_string());
        let real: Vec<String> =
            parts.iter().map(|part| resolve_combo(part).join("")).collect();
        let lower = |parts: &[String]| -> Vec<String> {
            parts.iter().map(|part| part.to_lowercase()).collect()
        };
        assert_eq!(
            lower(&printed),
            lower(&real),
            "the footer prints {spec:?} for {action}, which is not what that action is actually \
             bound to"
        );
    }
}

#[test]
fn combinations_are_split_into_keycaps() {
    assert_eq!(resolve_combo("shift+F10"), vec!["shift", "F10"]);
    assert_eq!(resolve_combo("space"), vec!["space"]);
    assert_eq!(resolve_combo(""), vec![""]);
    assert_eq!(resolve_combo("a+"), vec!["a", ""]);
}

#[test]
fn tree_keys_act_in_the_tree_and_not_while_a_name_is_typed() {
    assert!(BindingScope::Tree.matches(&file_tree_key_context(false)));
    assert!(!BindingScope::Tree.matches(&file_tree_key_context(true)));
    assert!(!BindingScope::Tree.matches(&[]), "a focused terminal keeps its keys");
    assert!(BindingScope::Diff.matches(&[ContextWord::Diff]));
    assert!(!BindingScope::Diff.matches(&[ContextWord::Diff, ContextWord::FileEditor]));
    assert!(!BindingScope::Diff.matches(&[ContextWord::Diff, ContextWord::TextInput]));
}

#[test]
fn command_stands_for_control_on_a_mac() {
    let copy = find(&default_key_bindings(true), "app::FileTreeCopy").keystroke;
    assert!(copy.platform && !copy.control);
    let copy = find(&default_key_bindings(false), "app::FileTreeCopy").keystroke;
    assert!(copy.control && !copy.platform);
    let redo = find(&default_key_bindings(false), "app::FileTreeRedo").keystroke;
    assert!(redo.shift && redo.control && redo.key == "z");
}

#[test]
fn a_footer_shows_only_hints_that_would_do_something() {
    assert!(changes_footer(false, false, false).is_empty());
    let all = changes_footer(true, true, true);
    let labels: Vec<&str> = all.iter().map(|hint| hint.label).collect();
    assert_eq!(labels, vec!["stage", "mark seen", "filter by author"]);
    assert_eq!(all[0].selector, "changes-footer-stage-hint");
    assert_eq!(all[0].action, FooterAction::Bound(BoundAction::ToggleChangeStaged));
    assert_eq!(changes_footer(false, true, false)[0].selector, "changes-footer-seen-hint");
    assert_eq!(file_tree_footer(true)[0].label, "rename");
    assert!(file_tree_footer(false).is_empty());
}
