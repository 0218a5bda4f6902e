use vstd::prelude::*;
use vstd::string::*;

use crate::change_row::{
    staging_checkbox_view, status_letter, ChangeRowElement, CheckboxElement, RowActionsElement,
    StatusLetter,
};
use crate::change_set::{ChangeEntry, FileChangeStatus};
use crate::chrome::HeaderBar;
use crate::composer::CommitMenuAction;
use crate::composer_view::{CommitLabel, CommitMenuRow, ComposerElement};
use crate::panel::ChangesPanel;
use crate::path::FilePath;
use crate::section_view::{
    context_selector, note_selector, run_row_view, section_header_view, HeaderElement, RunElement,
};
use crate::sections::{ChangesSection, RunRow, SectionHeader};
use crate::state::{Sidebar, TreeMark};
use crate::table::Table;
use crate::text::{count_text, decimal_text};
use crate::tree::FileTreeEntry;
use crate::tree_view::TreeRowElement;

verus! {

/// A row of the tree goes by its path where it must be told from every other
/// row, and by its name where it is looked up.
pub proof fn law_names_of_a_tree_row(
    sidebar: &Sidebar,
    entry: &FileTreeEntry,
    marks: &Table<FilePath, TreeMark>,
    focused: bool,
    row: TreeRowElement,
    path: String,
)
    requires
        call_ensures(Sidebar::file_tree_row_view, (sidebar, entry, marks, focused), row),
        call_ensures(FilePath::display, (&entry.path,), path),
    ensures
        row.id@ == "file-tree-row-"@ + path@,
        row.selector@ == "file-tree-row-"@ + entry.name@,
        row.new_file matches Some(control) ==> control.id@ == "file-tree-new-file-"@ + path@,
{
}

/// The parts of a change's row go by its path, and tell its section, its letter
/// and whether it was seen.
pub proof fn law_names_of_a_change_row(
    panel: &ChangesPanel,
    entry: &ChangeEntry,
    section: ChangesSection,
    several: bool,
    row: ChangeRowElement,
    path: &FilePath,
    told: String,
    status: FileChangeStatus,
    letter: StatusLetter,
    glyph: &'static str,
    key: &'static str,
)
    requires
        call_ensures(ChangesPanel::change_row_view, (panel, entry, section, several), row),
        call_ensures(ChangeEntry::path, (entry,), path),
        call_ensures(FilePath::display, (path,), told),
        call_ensures(ChangeEntry::status, (entry,), status),
        call_ensures(status_letter, (status,), letter),
        call_ensures(StatusLetter::glyph, (letter,), glyph),
        call_ensures(ChangesSection::key, (section,), key),
    ensures
        section is Uncommitted ==> row.row_selector@ == "change-row"@ + "-"@ + told@
            && row.dir_selector@ == "change-row"@ + "-dir-"@ + told@,
        !(section is Uncommitted) ==> row.row_selector@ == key@ + "-row"@ + "-"@ + told@
            && row.dir_selector@ == key@ + "-row"@ + "-dir-"@ + told@,
        row.edge_selector@ == row.row_selector@ + "-selection-edge"@,
        row.letter_selector@ == row.row_selector@ + "-status-"@ + glyph@,
        row.seen ==> row.name_selector@ == row.row_selector@ + "-name-"@ + "seen"@,
        !row.seen ==> row.name_selector@ == row.row_selector@ + "-name-"@ + "unseen"@,
{
}

/// The controls over a row and its checkbox go by the row's path; the one that
/// throws changes away has another name once it is armed.
pub proof fn law_names_of_controls(
    panel: &ChangesPanel,
    path: &FilePath,
    armed: bool,
    bar: RowActionsElement,
    checked: bool,
    checkbox: CheckboxElement,
    told: String,
)
    requires
        call_ensures(ChangesPanel::change_row_actions_view, (panel, path, armed), bar),
        call_ensures(staging_checkbox_view, (path, checked), checkbox),
        call_ensures(FilePath::display, (path,), told),
    ensures
        bar.bar_selector@ == "change-row-actions-"@ + told@,
        bar.editor_selector@ == "change-row-open-in-editor-"@ + told@,
        armed ==> bar.discard_selector@ == "change-row-discard-confirm-"@ + told@
            && bar.discard_tooltip@ == "Click again to discard \u{2014} this cannot be undone"@,
        !armed ==> bar.discard_selector@ == "change-row-discard-"@ + told@ && bar.discard_tooltip@
            == "Discard this file's changes"@,
        checkbox.selector@ == "stage-checkbox-"@ + told@,
{
}

/// A header goes by its section's key, its count and whether it is open.
pub proof fn law_names_of_a_header(
    header: &SectionHeader,
    element: HeaderElement,
    key: &'static str,
    count: String,
)
    requires
        call_ensures(section_header_view, (header,), element),
        call_ensures(ChangesSection::key, (header.section,), key),
        call_ensures(decimal_text, (header.count as u64,), count),
    ensures
        element.id@ == "changes-section-"@ + key@,
        header.open ==> element.selector@ == "changes-section-"@ + key@ + "-"@ + count@ + "-open"@,
        !header.open ==> element.selector@ == "changes-section-"@ + key@ + "-"@ + count@
            + "-collapsed"@,
        header.stat.added == 0 && header.stat.removed == 0 ==> element.stat_selector@
            == "changes-section-"@ + key@ + "-stat-empty"@,
{
}

/// A run goes by its agent, what would land by its text, and a note by its
/// section.
pub proof fn law_names_of_rows(
    run: &RunRow,
    element: RunElement,
    agent: String,
    text: &str,
    context: String,
    section: ChangesSection,
    key: &'static str,
    note: String,
)
    requires
        call_ensures(run_row_view, (run,), element),
        call_ensures(decimal_text, (run.agent_id,), agent),
        call_ensures(context_selector, (text,), context),
        call_ensures(ChangesSection::key, (section,), key),
        call_ensures(note_selector, (section,), note),
    ensures
        element.id@ == "changes-run-row-"@ + agent@,
        element.selector@ == "changes-run-"@ + agent@,
        context@ == "changes-against-main-context-"@ + text@,
        note@ == "changes-section-"@ + key@ + "-note"@,
{
}

/// The parts of the composer go by what they state.
pub proof fn law_names_of_the_composer(
    panel: &ChangesPanel,
    composer: ComposerElement,
    staged: String,
    total: String,
    busy: Option<&'static str>,
)
    requires
        call_ensures(ChangesPanel::commit_composer, (panel,), composer),
        call_ensures(decimal_text, (composer.staged as u64,), staged),
        call_ensures(decimal_text, (composer.total as u64,), total),
        call_ensures(CommitLabel::busy_text, (composer.label,), busy),
    ensures
        composer.progress_selector@ == "commit-composer-progress-"@ + staged@ + "-of-"@ + total@,
        composer.stat_selector@ == "commit-composer-stat-"@ + composer.stat@,
        composer.branch_selector@ == "commit-composer-branch-"@ + composer.branch@,
        panel.commit_message@.len() > 0 ==> composer.message_selector@
            == "commit-composer-message-"@ + panel.commit_message@,
        panel.commit_message@.len() == 0 ==> composer.message_selector@
            == "commit-composer-message-empty"@,
        busy is Some == composer.label is Committing,
        busy matches Some(text) ==> text@ == "committing\u{2026}"@,
{
}

/// A row of the commit menu goes by its action's key, and tells whether it can
/// be clicked.
pub proof fn law_names_of_the_commit_menu(
    panel: &ChangesPanel,
    action: CommitMenuAction,
    row: CommitMenuRow,
    key: &'static str,
)
    requires
        call_ensures(ChangesPanel::commit_menu_row, (panel, action), row),
        call_ensures(CommitMenuAction::key, (action,), key),
    ensures
        row.id@ == "commit-menu-row-"@ + key@,
        row.enabled ==> row.selector@ == "commit-menu-row-"@ + key@ + "-"@ + "enabled"@,
        !row.enabled ==> row.selector@ == "commit-menu-row-"@ + key@ + "-"@ + "disabled"@,
{
}

/// What the actions of the commit menu say they would do.
pub proof fn law_hints_of_the_commit_menu(
    action: CommitMenuAction,
    branch: &str,
    count: usize,
    hint: String,
    files: String,
)
    requires
        call_ensures(CommitMenuAction::hint, (action, branch, count), hint),
        call_ensures(count_text, (count, "file"), files),
    ensures
        action is CommitAndPush ==> hint@ == "origin/"@ + branch@,
        action is CommitAllFiles ==> hint@ == "stages the rest first \u{2022} "@ + files@,
        action is AmendLastCommit ==> hint@ == "rewrites the tip"@,
        action is StashStaged ==> hint@ == "keeps the worktree clean"@,
{
}

/// The tabs say what they lead to, and the controls of Files what they do.
pub proof fn law_names_of_the_tabs(
    sidebar: &Sidebar,
    totals: Option<(usize, usize)>,
    bar: HeaderBar,
)
    requires
        call_ensures(Sidebar::header_bar, (sidebar, totals), bar),
    ensures
        bar.tabs@[0].label@ == "Files"@ && bar.tabs@[1].label@ == "Search"@ && bar.tabs@[2].label@
            == "Changes"@,
        bar.tabs@[0].tooltip@ == "Files \u{2014} the file tree for this worktree"@,
        bar.tabs@[1].tooltip@ == "Search \u{2014} find in this worktree"@,
        bar.tabs@[2].tooltip@
            == "Changes \u{2014} runs, uncommitted, commits and the branch diff"@,
        bar.collapse_all matches Some(control) ==> control.id@ == "file-tree-collapse-all"@
            && control.tooltip@ == "Collapse all folders (also clears the saved fold state)"@,
        bar.new_file matches Some(control) ==> control.id@ == "file-tree-new-file-root"@
            && control.glyph@ == "+"@ && control.tooltip@ == "New file in worktree root"@,
{
}

} // verus!
