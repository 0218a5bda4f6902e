use vstd::prelude::*;
use vstd::string::*;

verus! {

/// The keys that stage the open file.
pub const CHANGES_STAGE_SPEC: &'static str = "space";

/// The keys that mark the open file as seen.
pub const CHANGES_SEEN_SPEC: &'static str = "v";

/// The keys that rename the selected row.
pub const FILE_TREE_RENAME_SPEC: &'static str = "F2";

/// The keys that open the tree's menu.
pub const FILE_TREE_CONTEXT_MENU_SPEC: &'static str = "shift+F10";

/// What a key of the sidebar does.
#[derive(Clone, Copy, Debug, PartialEq, Eq, Structural)]
pub enum BoundAction {
    FileTreeContextMenu,
    FileTreeRename,
    FileTreeCopy,
    FileTreeCut,
    FileTreePaste,
    FileTreeDelete,
    FileTreeUndo,
    FileTreeRedo,
    ToggleChangeSeen,
    ToggleChangeStaged,
}

/// One key with its modifiers.
#[derive(Clone, Copy, Debug)]
pub struct Keystroke {
    pub control: bool,
    pub alt: bool,
    pub platform: bool,
    pub shift: bool,
    pub key: &'static str,
}

/// A word that a focused part of the window puts into its key context.
#[derive(Clone, Copy, Debug, PartialEq, Eq, Structural)]
pub enum ContextWord {
    FileTree,
    /// A name is being typed in the tree.
    TreeEditing,
    /// Text is being typed.
    TextInput,
    Diff,
    /// A file is being edited.
    FileEditor,
}

/// Where a key is bound.
#[derive(Clone, Copy, Debug, PartialEq, Eq, Structural)]
pub enum BindingScope {
    /// The tree, except while a name is typed in it.
    Tree,
    /// A diff, except where text is typed.
    Diff,
}

/// A key, what it does, and where.
#[derive(Clone, Copy, Debug)]
pub struct KeyBinding {
    pub action: BoundAction,
    pub keystroke: Keystroke,
    pub scope: BindingScope,
}

impl BoundAction {
    pub open spec fn is_tree_action(self) -> bool {
        !(self is ToggleChangeSeen) && !(self is ToggleChangeStaged)
    }

    pub fn name(self) -> (name: &'static str)
        ensures
            name@ == match self {
                BoundAction::FileTreeContextMenu => "app::FileTreeContextMenu"@,
                BoundAction::FileTreeRename => "app::FileTreeRename"@,
                BoundAction::FileTreeCopy => "app::FileTreeCopy"@,
                BoundAction::FileTreeCut => "app::FileTreeCut"@,
                BoundAction::FileTreePaste => "app::FileTreePaste"@,
                BoundAction::FileTreeDelete => "app::FileTreeDelete"@,
                BoundAction::FileTreeUndo => "app::FileTreeUndo"@,
                BoundAction::FileTreeRedo => "app::FileTreeRedo"@,
                BoundAction::ToggleChangeSeen => "app::ToggleChangeSeen"@,
                BoundAction::ToggleChangeStaged => "app::ToggleChangeStaged"@,
            },
    {
        match self {
            BoundAction::FileTreeContextMenu => "app::FileTreeContextMenu",
            BoundAction::FileTreeRename => "app::FileTreeRename",
            BoundAction::FileTreeCopy => "app::FileTreeCopy",
            BoundAction::FileTreeCut => "app::FileTreeCut",
            BoundAction::FileTreePaste => "app::FileTreePaste",
            BoundAction::FileTreeDelete => "app::FileTreeDelete",
            BoundAction::FileTreeUndo => "app::FileTreeUndo",
            BoundAction::FileTreeRedo => "app::FileTreeRedo",
            BoundAction::ToggleChangeSeen => "app::ToggleChangeSeen",
            BoundAction::ToggleChangeStaged => "app::ToggleChangeStaged",
        }
    }
}

impl BindingScope {
    /// The scope as a predicate over context words.
    pub fn predicate(self) -> (text: &'static str)
        ensures
            text@ == match self {
                BindingScope::Tree => "file-tree && !tree-editing"@,
                BindingScope::Diff => "diff && !file-editor && !text-input"@,
            },
    {
        match self {
            BindingScope::Tree => "file-tree && !tree-editing",
            BindingScope::Diff => "diff && !file-editor && !text-input",
        }
    }

    pub open spec fn holds_in(self, words: Seq<ContextWord>) -> bool {
        match self {
            BindingScope::Tree => words.contains(ContextWord::FileTree) && !words.contains(
                ContextWord::TreeEditing,
            ),
            BindingScope::Diff => words.contains(ContextWord::Diff) && !words.contains(
                ContextWord::FileEditor,
            ) && !words.contains(ContextWord::TextInput),
        }
    }

    /// Whether a key of this scope acts where the focused part has `words`.
    pub fn matches(self, words: &[ContextWord]) -> (acts: bool)
        ensures
            acts == self.holds_in(words@),
    {
        match self {
            BindingScope::Tree => has_word(words, ContextWord::FileTree) && !has_word(
                words,
                ContextWord::TreeEditing,
            ),
            BindingScope::Diff => has_word(words, ContextWord::Diff) && !has_word(
                words,
                ContextWord::FileEditor,
            ) && !has_word(words, ContextWord::TextInput),
        }
    }
}

fn has_word(words: &[ContextWord], word: ContextWord) -> (found: bool)
    ensures
        found == words@.contains(word),
{
    let mut i: usize = 0;
    while i < words.len()
        invariant
            i <= words@.len(),
            forall|k: int| 0 <= k < i ==> words@[k] != word,
        decreases words@.len() - i,
    {
        if words[i] == word {
            assert(words@[i as int] == word);
            return true;
        }
        i += 1;
    }
    false
}

/// The words of the tree's key context: while a name is typed in it, it is a
/// field for text as well.
pub fn file_tree_key_context(editing: bool) -> (words: Vec<ContextWord>)
    ensures
        words@ == if editing {
            seq![ContextWord::FileTree, ContextWord::TreeEditing, ContextWord::TextInput]
        } else {
            seq![ContextWord::FileTree]
        },
{
    let mut words: Vec<ContextWord> = Vec::new();
    words.push(ContextWord::FileTree);
    if editing {
        words.push(ContextWord::TreeEditing);
        words.push(ContextWord::TextInput);
    }
    assert(words@ =~= if editing {
        seq![ContextWord::FileTree, ContextWord::TreeEditing, ContextWord::TextInput]
    } else {
        seq![ContextWord::FileTree]
    });
    words
}

/// While a name is typed in the tree none of its keys acts, and otherwise all
/// of them do.
pub proof fn law_editor_silences_tree_keys(editing: bool)
    ensures
        BindingScope::Tree.holds_in(
            if editing {
                seq![ContextWord::FileTree, ContextWord::TreeEditing, ContextWord::TextInput]
            } else {
                seq![ContextWord::FileTree]
            },
        ) == !editing,
{
    let typing = seq![ContextWord::FileTree, ContextWord::TreeEditing, ContextWord::TextInput];
    let idle = seq![ContextWord::FileTree];
    assert(typing[1] == ContextWord::TreeEditing);
    assert(idle[0] == ContextWord::FileTree);
}

/// Where text is typed, a bare key is never taken for a command on a diff.
pub proof fn law_typing_silences_diff_keys(words: Seq<ContextWord>)
    requires
        words.contains(ContextWord::FileEditor) || words.contains(ContextWord::TextInput),
    ensures
        !BindingScope::Diff.holds_in(words),
{
}

/// The key text of an action's binding.
pub open spec fn key_of(action: BoundAction) -> Seq<char> {
    match action {
        BoundAction::FileTreeContextMenu => "f10"@,
        BoundAction::FileTreeRename => "f2"@,
        BoundAction::FileTreeCopy => "c"@,
        BoundAction::FileTreeCut => "x"@,
        BoundAction::FileTreePaste => "v"@,
        BoundAction::FileTreeDelete => "delete"@,
        BoundAction::FileTreeUndo => "z"@,
        BoundAction::FileTreeRedo => "z"@,
        BoundAction::ToggleChangeSeen => "v"@,
        BoundAction::ToggleChangeStaged => "space"@,
    }
}

/// Whether an action's key is pressed with Control, or Command on a Mac.
pub open spec fn with_secondary(action: BoundAction) -> bool {
    match action {
        BoundAction::FileTreeCopy => true,
        BoundAction::FileTreeCut => true,
        BoundAction::FileTreePaste => true,
        BoundAction::FileTreeUndo => true,
        BoundAction::FileTreeRedo => true,
        _ => false,
    }
}

pub open spec fn with_shift(action: BoundAction) -> bool {
    action is FileTreeContextMenu || action is FileTreeRedo
}

impl KeyBinding {
    /// Whether this is the binding of `action`.
    pub open spec fn binds(self, action: BoundAction, macos: bool) -> bool {
        &&& self.action == action
        &&& self.scope == if action.is_tree_action() {
            BindingScope::Tree
        } else {
            BindingScope::Diff
        }
        &&& self.keystroke.key@ == key_of(action)
        &&& self.keystroke.control == (with_secondary(action) && !macos)
        &&& self.keystroke.platform == (with_secondary(action) && macos)
        &&& self.keystroke.shift == with_shift(action)
        &&& !self.keystroke.alt
    }
}

/// The binding of an action.
pub fn binding_for(action: BoundAction, macos: bool) -> (binding: KeyBinding)
    ensures
        binding.binds(action, macos),
{
    let key = match action {
        BoundAction::FileTreeContextMenu => "f10",
        BoundAction::FileTreeRename => "f2",
        BoundAction::FileTreeCopy => "c",
        BoundAction::FileTreeCut => "x",
        BoundAction::FileTreePaste => "v",
        BoundAction::FileTreeDelete => "delete",
        BoundAction::FileTreeUndo => "z",
        BoundAction::FileTreeRedo => "z",
        BoundAction::ToggleChangeSeen => "v",
        BoundAction::ToggleChangeStaged => "space",
    };
    let secondary = match action {
        BoundAction::FileTreeCopy | BoundAction::FileTreeCut | BoundAction::FileTreePaste
        | BoundAction::FileTreeUndo | BoundAction::FileTreeRedo => true,
        _ => false,
    };
    let shift = match action {
        BoundAction::FileTreeContextMenu | BoundAction::FileTreeRedo => true,
        _ => false,
    };
    let scope = match action {
        BoundAction::ToggleChangeSeen | BoundAction::ToggleChangeStaged => BindingScope::Diff,
        _ => BindingScope::Tree,
    };
    KeyBinding {
        action,
        keystroke: Keystroke {
            control: secondary && !macos,
            alt: false,
            platform: secondary && macos,
            shift,
            key,
        },
        scope,
    }
}

/// The sidebar's actions, each once.
pub open spec fn all_actions() -> Seq<BoundAction> {
    seq![
        BoundAction::FileTreeContextMenu,
        BoundAction::FileTreeRename,
        BoundAction::FileTreeCopy,
        BoundAction::FileTreeCut,
        BoundAction::FileTreePaste,
        BoundAction::FileTreeDelete,
        BoundAction::FileTreeUndo,
        BoundAction::FileTreeRedo,
        BoundAction::ToggleChangeSeen,
        BoundAction::ToggleChangeStaged,
    ]
}

/// The bindings of the sidebar, one for each action.
pub fn default_key_bindings(macos: bool) -> (bindings: Vec<KeyBinding>)
    ensures
        bindings@.len() == all_actions().len(),
        forall|i: int|
            0 <= i < bindings@.len() ==> (#[trigger] bindings@[i]).binds(all_actions()[i], macos),
{
    let mut bindings: Vec<KeyBinding> = Vec::new();
    bindings.push(binding_for(BoundAction::FileTreeContextMenu, macos));
    bindings.push(binding_for(BoundAction::FileTreeRename, macos));
    bindings.push(binding_for(BoundAction::FileTreeCopy, macos));
    bindings.push(binding_for(BoundAction::FileTreeCut, macos));
    bindings.push(binding_for(BoundAction::FileTreePaste, macos));
    bindings.push(binding_for(BoundAction::FileTreeDelete, macos));
    bindings.push(binding_for(BoundAction::FileTreeUndo, macos));
    bindings.push(binding_for(BoundAction::FileTreeRedo, macos));
    bindings.push(binding_for(BoundAction::ToggleChangeSeen, macos));
    bindings.push(binding_for(BoundAction::ToggleChangeStaged, macos));
    bindings
}

/// The pieces of `spec` between its plus signs.
pub open spec fn combo_parts(spec: Seq<char>) -> Seq<Seq<char>>
    decreases spec.len(),
{
    if spec.len() == 0 {
        seq![seq![]]
    } else {
        let before = combo_parts(spec.drop_last());
        if spec.last() == '+' {
            before.push(seq![])
        } else {
            before.drop_last().push(before.last().push(spec.last()))
        }
    }
}

proof fn lemma_combo_parts(spec: Seq<char>)
    ensures
        combo_parts(spec).len() > 0,
    decreases spec.len(),
{
    if spec.len() > 0 {
        lemma_combo_parts(spec.drop_last());
    }
}

/// The keycaps that a combination of keys is drawn as.
pub fn resolve_combo(spec: &str) -> (parts: Vec<String>)
    ensures
        crate::text::texts(parts@) == combo_parts(spec@),
{
    let length = spec.unicode_len();
    let ghost whole = spec@;
    let mut parts: Vec<String> = Vec::new();
    let mut start: usize = 0;
    let mut i: usize = 0;
    assert(crate::text::texts(parts@) =~= combo_parts(whole.take(0)).drop_last());
    while i < length
        invariant
            length == spec@.len(),
            whole == spec@,
            start <= i <= length,
            combo_parts(whole.take(i as int)).len() > 0,
            combo_parts(whole.take(i as int)).last() == whole.subrange(start as int, i as int),
            crate::text::texts(parts@) == combo_parts(whole.take(i as int)).drop_last(),
        decreases length - i,
    {
        let ghost now = combo_parts(whole.take(i as int));
        let ghost before = crate::text::texts(parts@);
        assert(whole.take(i + 1).drop_last() =~= whole.take(i as int));
        if spec.get_char(i) == '+' {
            parts.push(spec.substring_char(start, i).to_owned());
            proof {
                assert(crate::text::texts(parts@) =~= before.push(now.last()));
                assert(combo_parts(whole.take(i + 1)).drop_last() =~= now);
                assert(now =~= now.drop_last().push(now.last()));
                assert(whole.subrange(i + 1, i + 1) =~= Seq::<char>::empty());
            }
            start = i + 1;
        } else {
            proof {
                assert(combo_parts(whole.take(i + 1)).drop_last() =~= now.drop_last());
                assert(whole.subrange(start as int, i + 1) =~= whole.subrange(
                    start as int,
                    i as int,
                ).push(whole[i as int]));
            }
        }
        i += 1;
    }
    let ghost before = crate::text::texts(parts@);
    parts.push(spec.substring_char(start, length).to_owned());
    proof {
        let all = combo_parts(whole);
        lemma_combo_parts(whole);
        assert(whole.take(i as int) =~= whole);
        assert(crate::text::texts(parts@) =~= before.push(all.last()));
        assert(all =~= all.drop_last().push(all.last()));
    }
    parts
}

/// One hint of a footer: the keys, and what they do.
#[derive(Clone, Copy, Debug)]
pub struct FooterHint {
    pub action: FooterAction,
    pub selector: &'static str,
    pub label: &'static str,
}

/// What a hint of a footer is about.
#[derive(Clone, Copy, Debug, PartialEq, Eq, Structural)]
pub enum FooterAction {
    /// A key that is bound.
    Bound(BoundAction),
    /// A click on an author's chip.
    FilterByAuthor,
}

pub open spec fn footer_actions(stage: bool, seen: bool, author: bool) -> Seq<FooterAction> {
    let first = if stage {
        seq![FooterAction::Bound(BoundAction::ToggleChangeStaged)]
    } else {
        seq![]
    };
    let second = if seen {
        seq![FooterAction::Bound(BoundAction::ToggleChangeSeen)]
    } else {
        seq![]
    };
    let third = if author {
        seq![FooterAction::FilterByAuthor]
    } else {
        seq![]
    };
    first + second + third
}

pub open spec fn hint_actions(hints: Seq<FooterHint>) -> Seq<FooterAction> {
    hints.map_values(|hint: FooterHint| hint.action)
}

impl FooterHint {
    pub open spec fn is_labelled(self) -> bool {
        match self.action {
            FooterAction::Bound(BoundAction::ToggleChangeStaged) => self.selector@
                == "changes-footer-stage-hint"@ && self.label@ == "stage"@,
            FooterAction::Bound(BoundAction::ToggleChangeSeen) => self.selector@
                == "changes-footer-seen-hint"@ && self.label@ == "mark seen"@,
            FooterAction::FilterByAuthor => self.selector@ == "changes-footer-author-filter-hint"@
                && self.label@ == "filter by author"@,
            FooterAction::Bound(BoundAction::FileTreeRename) => self.selector@
                == "file-tree-footer"@ && self.label@ == "rename"@,
            _ => false,
        }
    }
}

/// The hints below the Changes panel. One is shown only while what it names
/// would do something.
pub fn changes_footer(stage: bool, seen: bool, author: bool) -> (hints: Vec<FooterHint>)
    ensures
        hint_actions(hints@) == footer_actions(stage, seen, author),
        forall|i: int| 0 <= i < hints@.len() ==> (#[trigger] hints@[i]).is_labelled(),
{
    let mut hints: Vec<FooterHint> = Vec::new();
    if stage {
        hints.push(
            FooterHint {
                action: FooterAction::Bound(BoundAction::ToggleChangeStaged),
                selector: "changes-footer-stage-hint",
                label: "stage",
            },
        );
    }
    if seen {
        hints.push(
            FooterHint {
                action: FooterAction::Bound(BoundAction::ToggleChangeSeen),
                selector: "changes-footer-seen-hint",
                label: "mark seen",
            },
        );
    }
    if author {
        hints.push(
            FooterHint {
                action: FooterAction::FilterByAuthor,
                selector: "changes-footer-author-filter-hint",
                label: "filter by author",
            },
        );
    }
    assert(hint_actions(hints@) =~= footer_actions(stage, seen, author));
    hints
}

/// The hints below the file tree, while no name is typed in it.
pub fn file_tree_footer(live: bool) -> (hints: Vec<FooterHint>)
    ensures
        hint_actions(hints@) == if live {
            seq![FooterAction::Bound(BoundAction::FileTreeRename)]
        } else {
            seq![]
        },
        forall|i: int| 0 <= i < hints@.len() ==> (#[trigger] hints@[i]).is_labelled(),
{
    let mut hints: Vec<FooterHint> = Vec::new();
    if live {
        hints.push(
            FooterHint {
                action: FooterAction::Bound(BoundAction::FileTreeRename),
                selector: "file-tree-footer",
                label: "rename",
            },
        );
    }
    assert(hint_actions(hints@) =~= if live {
        seq![FooterAction::Bound(BoundAction::FileTreeRename)]
    } else {
        seq![]
    });
    hints
}

} // verus!
