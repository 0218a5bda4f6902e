use vstd::prelude::*;
use vstd::string::*;

use crate::chrome::{view_at, HeaderBar, SidebarLayout};
use crate::keys::{
    all_actions, binding_for, changes_footer, default_key_bindings, file_tree_footer,
    file_tree_key_context, hint_actions, BindingScope, BoundAction, ContextWord, FooterAction,
    FooterHint, KeyBinding,
};
use crate::panel::ChangesPanel;
use crate::section_view::{
    commit_row_view, run_row_view, section_header_view, CommitElement, HeaderElement, RunElement,
    SectionElement,
};
use crate::sections::{
    section_diffstat, seen_label, BranchCommit, RunRow, SectionHeader, SectionRow,
};
use crate::state::{RightSidebarView, Sidebar};
use crate::text::decimal_text;
use crate::theme::ThemeColor;

verus! {

/// A header is drawn with what it states: its label, its count, whether it is
/// open, its lines where it has any, and how many were seen where there is
/// anything to see.
pub proof fn law_header_is_drawn(
    header: &SectionHeader,
    element: HeaderElement,
    count: String,
    halves: Option<(String, String)>,
)
    requires
        call_ensures(section_header_view, (header,), element),
        call_ensures(decimal_text, (header.count as u64,), count),
        call_ensures(section_diffstat, (header.stat,), halves),
    ensures
        element.section == header.section,
        element.label@ == header.label@,
        element.count@ == count@,
        element.open == header.open,
        element.stat is Some == halves is Some,
        element.stat matches Some(drawn) ==> (halves matches Some(told) && drawn.0@ == told.0@
            && drawn.1@ == told.1@),
        header.seen is None ==> element.seen is None,
        header.seen matches Some((seen, total)) ==> element.seen is Some == (total != 0),
        element.seen matches Some(meter) ==> (header.seen matches Some((seen, total)) && meter.seen
            == seen && meter.total == total),
{
}

/// The two halves of a diffstat are the added lines behind a plus and the
/// removed ones behind a minus; without lines there is none.
pub proof fn law_halves_of_a_diffstat(
    stat: crate::change_set::DiffStat,
    halves: Option<(String, String)>,
    added: String,
    removed: String,
)
    requires
        call_ensures(section_diffstat, (stat,), halves),
        call_ensures(decimal_text, (stat.added as u64,), added),
        call_ensures(decimal_text, (stat.removed as u64,), removed),
    ensures
        halves is None == (stat.added == 0 && stat.removed == 0),
        halves matches Some(told) ==> told.0@ == "+"@ + added@ && told.1@ == "\u{2212}"@
            + removed@,
{
}

/// The counter of what was seen: the one number, a slash, the other.
pub proof fn law_counter_of_seen(
    seen: usize,
    total: usize,
    label: Option<String>,
    first: String,
    second: String,
)
    requires
        call_ensures(seen_label, (seen, total), label),
        call_ensures(decimal_text, (seen as u64,), first),
        call_ensures(decimal_text, (total as u64,), second),
    ensures
        label is None == (total == 0),
        label matches Some(text) ==> text@ == first@ + "/"@ + second@ + " seen"@,
{
}

/// The row of a run is drawn with what it states, its edge in its agent's
/// colour, and its second line warm exactly while it is alive.
pub proof fn law_run_is_drawn(run: &RunRow, element: RunElement, added: String, removed: String)
    requires
        call_ensures(run_row_view, (run,), element),
        call_ensures(decimal_text, (run.stat.added as u64,), added),
        call_ensures(decimal_text, (run.stat.removed as u64,), removed),
    ensures
        element.agent_id == run.agent_id,
        element.title@ == run.title@,
        element.meta@ == run.meta@,
        element.files_label@ == run.files_label@,
        element.initial@ == run.initial@,
        element.edge == run.tint_fg,
        element.chip_text == run.tint_fg,
        element.chip_background == run.tint_bg,
        run.live ==> element.meta_color == ThemeColor::RunMetaLive,
        !run.live ==> element.meta_color == ThemeColor::RunMetaEnded,
        element.added@ == "+"@ + added@,
        element.removed@ == "\u{2212}"@ + removed@,
{
}

/// The row of a commit is drawn with its id, its subject and its lines.
pub proof fn law_commit_is_drawn(
    commit: &BranchCommit,
    element: CommitElement,
    added: String,
    removed: String,
)
    requires
        call_ensures(commit_row_view, (commit,), element),
        call_ensures(decimal_text, (commit.added as u64,), added),
        call_ensures(decimal_text, (commit.removed as u64,), removed),
    ensures
        element.short_id@ == commit.short_id@,
        element.subject@ == commit.subject@,
        element.added@ == "+"@ + added@,
        element.removed@ == "\u{2212}"@ + removed@,
{
}

/// Every row is drawn as what it is: a file by its index, where there still is
/// one, a note in its colour, a run, a commit and a header as they are alone.
pub proof fn law_rows_are_drawn(
    panel: &ChangesPanel,
    row: &SectionRow,
    element: SectionElement,
    i: usize,
)
    requires
        call_ensures(ChangesPanel::section_row_view, (panel, row), element),
    ensures
        *row == SectionRow::UncommittedFile(i) && i < panel.uncommitted_change_set@.len() ==> (
        element matches SectionElement::File(drawn) && drawn == i),
        *row == SectionRow::UncommittedFile(i) && i >= panel.uncommitted_change_set@.len()
            ==> element is Nothing,
        *row matches SectionRow::Run(run) ==> (element matches SectionElement::Run(drawn)
            && drawn.agent_id == run.agent_id && drawn.title@ == run.title@),
        *row matches SectionRow::Commit(commit) ==> (element matches SectionElement::Commit(drawn)
            && drawn.short_id@ == commit.short_id@ && drawn.subject@ == commit.subject@),
        *row matches SectionRow::Header(header) ==> (element matches SectionElement::Header(drawn)
            && drawn.section == header.section && drawn.open == header.open),
        *row matches SectionRow::AgainstMainContext { text, sub } ==> (
        element matches SectionElement::Context { text: told, sub: below, .. } && told@ == text@
            && below@ == sub@),
        *row matches SectionRow::Note { text, emphasis, .. } ==> (
        element matches SectionElement::Note { text: told, color, .. } && told@ == text@ && (
        emphasis is Warning ==> color == ThemeColor::StatusAsk) && (emphasis is Quiet ==> color
            == ThemeColor::TextFaint)),
{
}

/// The tab that is drawn as the selected one leads to the view that is shown,
/// and a click on a tab leads to the view that it is drawn for.
pub proof fn law_selected_tab_is_the_view(
    sidebar: &Sidebar,
    totals: Option<(usize, usize)>,
    bar: HeaderBar,
    there: RightSidebarView,
)
    requires
        call_ensures(Sidebar::header_bar, (sidebar, totals), bar),
        call_ensures(view_at, (bar.selected,), there),
    ensures
        bar.selected < 3,
        there == sidebar.view,
        sidebar.view is Files ==> bar.tabs@[bar.selected as int].label@ == "Files"@,
        sidebar.view is Search ==> bar.tabs@[bar.selected as int].label@ == "Search"@,
        sidebar.view is Changes ==> bar.tabs@[bar.selected as int].label@ == "Changes"@,
        bar.collapse_all is Some == sidebar.view is Files,
        bar.new_file is Some == sidebar.view is Files,
{
}

/// The header states the lines that it was given.
pub proof fn law_totals_of_the_header(
    sidebar: &Sidebar,
    lines: (usize, usize),
    totals: Option<(usize, usize)>,
    bar: HeaderBar,
    added: String,
    removed: String,
)
    requires
        call_ensures(Sidebar::header_bar, (sidebar, totals), bar),
        totals == Some(lines),
        call_ensures(decimal_text, (lines.0 as u64,), added),
        call_ensures(decimal_text, (lines.1 as u64,), removed),
    ensures
        bar.totals matches Some(told) && told.0@ == "+"@ + added@ && told.1@ == "\u{2212}"@
            + removed@,
{
}

/// Without a diff the header states no lines.
pub proof fn law_no_totals_without_a_diff(sidebar: &Sidebar, bar: HeaderBar)
    requires
        call_ensures(Sidebar::header_bar, (sidebar, None), bar),
    ensures
        bar.totals is None,
{
}

/// Below the header the view that is shown is drawn, unless the graph has the
/// panel; each hint is shown exactly while what it names would do something.
pub proof fn law_layout_is_of_the_view(
    sidebar: &Sidebar,
    graph: bool,
    several: bool,
    shows: &[bool],
    layout: SidebarLayout,
    stages: bool,
    marks: bool,
    filters: bool,
)
    requires
        call_ensures(Sidebar::sidebar_layout, (sidebar, graph, several, shows), layout),
        call_ensures(ChangesPanel::change_stage_toggle_live, (&sidebar.changes,), stages),
        call_ensures(ChangesPanel::change_seen_toggle_live, (&sidebar.changes,), marks),
        call_ensures(
            ChangesPanel::change_author_filter_live,
            (&sidebar.changes, several, shows),
            filters,
        ),
    ensures
        graph == layout is Graph,
        !graph && sidebar.view is Search ==> layout is Search,
        !graph && sidebar.view is Files ==> (layout matches SidebarLayout::Files { rename_hint }
            && rename_hint == sidebar.inline_edit is None),
        !graph && sidebar.view is Changes ==> (layout matches SidebarLayout::Changes {
            row_error,
            stage_hint,
            seen_hint,
            author_hint,
        } && row_error == sidebar.changes.row_error is Some && stage_hint == stages && seen_hint
            == marks && author_hint == filters),
{
}

/// While a name is typed in the tree none of the tree's keys acts, nor any of
/// a diff's; otherwise the tree's do.
pub proof fn law_typing_silences_the_tree(
    editing: bool,
    words: Vec<ContextWord>,
    context: &[ContextWord],
    tree: bool,
    diff: bool,
)
    requires
        call_ensures(file_tree_key_context, (editing,), words),
        context@ == words@,
        call_ensures(BindingScope::matches, (BindingScope::Tree, context), tree),
        call_ensures(BindingScope::matches, (BindingScope::Diff, context), diff),
    ensures
        tree == !editing,
        !diff,
{
    let all = words@;
    assert(all[0] == ContextWord::FileTree);
    if editing {
        assert(all[1] == ContextWord::TreeEditing);
        assert(all[2] == ContextWord::TextInput);
    }
}

/// A key of a scope acts where the scope's word is there, and none of a field
/// in which text is typed.
pub proof fn law_scopes(scope: BindingScope, words: &[ContextWord], acts: bool)
    requires
        call_ensures(BindingScope::matches, (scope, words), acts),
    ensures
        scope is Tree ==> acts == (words@.contains(ContextWord::FileTree) && !words@.contains(
            ContextWord::TreeEditing,
        )),
        scope is Diff ==> acts == (words@.contains(ContextWord::Diff) && !words@.contains(
            ContextWord::FileEditor,
        ) && !words@.contains(ContextWord::TextInput)),
{
}

/// Two keystrokes that cannot be told apart.
pub open spec fn same_keys(a: KeyBinding, b: KeyBinding) -> bool {
    &&& a.keystroke.key@ == b.keystroke.key@
    &&& a.keystroke.control == b.keystroke.control
    &&& a.keystroke.alt == b.keystroke.alt
    &&& a.keystroke.platform == b.keystroke.platform
    &&& a.keystroke.shift == b.keystroke.shift
}

/// Every action has a binding, and no two of one scope share their keys: a
/// keystroke never means two things in one place.
pub proof fn law_keys_mean_one_thing(
    macos: bool,
    bindings: Vec<KeyBinding>,
    i: int,
    j: int,
)
    requires
        call_ensures(default_key_bindings, (macos,), bindings),
        0 <= i < j < bindings@.len(),
    ensures
        bindings@[i].action != bindings@[j].action,
        bindings@[i].scope == bindings@[j].scope ==> !same_keys(bindings@[i], bindings@[j]),
{
    let a = bindings@[i];
    let b = bindings@[j];
    assert(a.binds(all_actions()[i], macos));
    assert(b.binds(all_actions()[j], macos));
    reveal_strlit("f10");
    reveal_strlit("f2");
    reveal_strlit("c");
    reveal_strlit("x");
    reveal_strlit("v");
    reveal_strlit("delete");
    reveal_strlit("z");
    reveal_strlit("space");
    assert("f10"@.len() == 3 && "f2"@.len() == 2 && "delete"@.len() == 6 && "space"@.len() == 5);
    assert("c"@.len() == 1 && "x"@.len() == 1 && "v"@.len() == 1 && "z"@.len() == 1);
    assert("c"@[0] == 'c' && "x"@[0] == 'x' && "v"@[0] == 'v' && "z"@[0] == 'z');
}

/// Each action of the sidebar is bound.
pub proof fn law_every_action_is_bound(
    macos: bool,
    bindings: Vec<KeyBinding>,
    action: BoundAction,
)
    requires
        call_ensures(default_key_bindings, (macos,), bindings),
    ensures
        exists|i: int| 0 <= i < bindings@.len() && (#[trigger] bindings@[i]).action == action,
{
    let all = all_actions();
    let i: int = match action {
        BoundAction::FileTreeContextMenu => 0,
        BoundAction::FileTreeRename => 1,
        BoundAction::FileTreeCopy => 2,
        BoundAction::FileTreeCut => 3,
        BoundAction::FileTreePaste => 4,
        BoundAction::FileTreeDelete => 5,
        BoundAction::FileTreeUndo => 6,
        BoundAction::FileTreeRedo => 7,
        BoundAction::ToggleChangeSeen => 8,
        BoundAction::ToggleChangeStaged => 9,
    };
    assert(all[i] == action);
    assert(bindings@[i].binds(all[i], macos));
}

/// Copy, cut, paste, undo and redo take Control, or Command on a Mac, and
/// never the other; redo is undo with Shift. The other keys take neither.
pub proof fn law_modifiers_of_the_keys(action: BoundAction, macos: bool, binding: KeyBinding)
    requires
        call_ensures(binding_for, (action, macos), binding),
    ensures
        binding.action == action,
        !binding.keystroke.alt,
        ({
            let edits = action is FileTreeCopy || action is FileTreeCut || action is FileTreePaste
                || action is FileTreeUndo || action is FileTreeRedo;
            &&& binding.keystroke.control == (edits && !macos)
            &&& binding.keystroke.platform == (edits && macos)
        }),
        binding.keystroke.shift == (action is FileTreeRedo || action is FileTreeContextMenu),
        action is FileTreeUndo || action is FileTreeRedo ==> binding.keystroke.key@ == "z"@,
        action is FileTreeCopy ==> binding.keystroke.key@ == "c"@,
        action is FileTreeCut ==> binding.keystroke.key@ == "x"@,
        action is FileTreePaste ==> binding.keystroke.key@ == "v"@,
        action is FileTreeDelete ==> binding.keystroke.key@ == "delete"@,
        action is FileTreeRename ==> binding.keystroke.key@ == "f2"@,
        action is FileTreeContextMenu ==> binding.keystroke.key@ == "f10"@,
        action is ToggleChangeStaged ==> binding.keystroke.key@ == "space"@
            && binding.scope is Diff,
        action is ToggleChangeSeen ==> binding.keystroke.key@ == "v"@ && binding.scope is Diff,
        !(action is ToggleChangeStaged || action is ToggleChangeSeen) ==> binding.scope is Tree,
{
}

/// A footer has a hint for an action exactly where the action would do
/// something, each at most once.
pub proof fn law_hints_of_the_changes(
    stage: bool,
    seen: bool,
    author: bool,
    hints: Vec<FooterHint>,
)
    requires
        call_ensures(changes_footer, (stage, seen, author), hints),
    ensures
        hints@.len() == (if stage {
            1int
        } else {
            0
        }) + (if seen {
            1int
        } else {
            0
        }) + (if author {
            1int
        } else {
            0
        }),
        stage == exists|i: int|
            0 <= i < hints@.len() && (#[trigger] hints@[i]).action == FooterAction::Bound(
                BoundAction::ToggleChangeStaged,
            ),
        seen == exists|i: int|
            0 <= i < hints@.len() && (#[trigger] hints@[i]).action == FooterAction::Bound(
                BoundAction::ToggleChangeSeen,
            ),
        author == exists|i: int|
            0 <= i < hints@.len() && (#[trigger] hints@[i]).action == FooterAction::FilterByAuthor,
        stage ==> hints@[0].label@ == "stage"@,
        !stage && seen ==> hints@[0].label@ == "mark seen"@,
        author ==> hints@.last().label@ == "filter by author"@,
{
    let all = hint_actions(hints@);
    assert(all.len() == hints@.len());
    assert forall|i: int| 0 <= i < all.len() implies #[trigger] all[i] == hints@[i].action by {
    }
    let first: int = if stage {
        1
    } else {
        0
    };
    let second: int = first + if seen {
        1int
    } else {
        0
    };
    if stage {
        assert(all[0] == FooterAction::Bound(BoundAction::ToggleChangeStaged));
        assert(hints@[0].is_labelled());
    }
    if seen {
        assert(all[first] == FooterAction::Bound(BoundAction::ToggleChangeSeen));
        assert(hints@[first].is_labelled());
        assert(hints@[first].action == all[first]);
    }
    if author {
        assert(all[second] == FooterAction::FilterByAuthor);
        assert(hints@[second].is_labelled());
        assert(hints@[second].action == all[second]);
    }
}

/// Below the tree stands the hint on renaming, while nothing is typed in it.
pub proof fn law_hint_of_the_tree(live: bool, hints: Vec<FooterHint>)
    requires
        call_ensures(file_tree_footer, (live,), hints),
    ensures
        !live ==> hints@.len() == 0,
        live ==> hints@.len() == 1 && hints@[0].action == FooterAction::Bound(
            BoundAction::FileTreeRename,
        ) && hints@[0].label@ == "rename"@,
{
    let all = hint_actions(hints@);
    assert(all.len() == hints@.len());
    if live {
        assert(all[0] == hints@[0].action);
        assert(hints@[0].is_labelled());
    }
}

/// Actions and scopes go by their names.
pub proof fn law_names_of_actions(
    action: BoundAction,
    other: BoundAction,
    name: &'static str,
    second: &'static str,
    scope: BindingScope,
    predicate: &'static str,
)
    requires
        call_ensures(BoundAction::name, (action,), name),
        call_ensures(BoundAction::name, (other,), second),
        call_ensures(BindingScope::predicate, (scope,), predicate),
    ensures
        action is FileTreeCopy ==> name@ == "app::FileTreeCopy"@,
        action is FileTreeCut ==> name@ == "app::FileTreeCut"@,
        action is FileTreePaste ==> name@ == "app::FileTreePaste"@,
        action is FileTreeDelete ==> name@ == "app::FileTreeDelete"@,
        action is FileTreeUndo ==> name@ == "app::FileTreeUndo"@,
        action is FileTreeRedo ==> name@ == "app::FileTreeRedo"@,
        action is FileTreeRename ==> name@ == "app::FileTreeRename"@,
        action is FileTreeContextMenu ==> name@ == "app::FileTreeContextMenu"@,
        action is ToggleChangeSeen ==> name@ == "app::ToggleChangeSeen"@,
        action is ToggleChangeStaged ==> name@ == "app::ToggleChangeStaged"@,
        scope is Tree ==> predicate@ == "file-tree && !tree-editing"@,
        scope is Diff ==> predicate@ == "diff && !file-editor && !text-input"@,
        action == other ==> name@ == second@,
{
}

} // verus!
