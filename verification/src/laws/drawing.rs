use vstd::prelude::*;
use vstd::string::*;

use crate::change_row::{
    split_dir_name, status_letter, staging_checkbox_view, ChangeRowElement, CheckboxElement,
    RowActionsElement, StatusLetter,
};
use crate::change_set::{ChangeEntry, DiffStat, FileChangeStatus};
use crate::composer::CommitMenuAction;
use crate::composer_view::{CommitLabel, CommitMenuRow, ComposerElement};
use crate::laws::commit::{is_written, something_staged};
use crate::panel::{BranchDiff, ChangesPanel};
use crate::path::{file_name, parent, shown, FilePath, PathText};
use crate::sections::{ChangesSection, ScopeLoad, SeenFiles};
use crate::text::decimal_text;
use crate::theme::ThemeColor;

verus! {

/// The row of a change is of its file. In Uncommitted its box is checked
/// exactly where the file is staged, and its name is drawn as seen exactly
/// where the file was seen as it is now; no other section has a box, or says
/// what was seen.
pub proof fn law_row_of_a_change(
    panel: &ChangesPanel,
    entry: &ChangeEntry,
    section: ChangesSection,
    several: bool,
    row: ChangeRowElement,
    path: &FilePath,
    stat: DiffStat,
    seen: bool,
)
    requires
        call_ensures(ChangesPanel::change_row_view, (panel, entry, section, several), row),
        call_ensures(ChangeEntry::path, (entry,), path),
        call_ensures(ChangeEntry::stat, (entry,), stat),
        call_ensures(SeenFiles::is_seen, (&panel.seen_files, &panel.diff_root, path, stat), seen),
    ensures
        row.path.text() == path.text(),
        section is Uncommitted ==> {
            &&& row.checkbox == Some(panel.staged_files@.contains(path@))
            &&& row.seen == seen
            &&& seen ==> row.name_color == ThemeColor::FilenameSeen
            &&& !seen ==> row.name_color == ThemeColor::FilenameUnseen
            &&& row.tooltip is Some
            &&& row.chips == several
        },
        !(section is Uncommitted) ==> {
            &&& row.checkbox is None
            &&& !row.seen
            &&& row.name_color == ThemeColor::TextDim
            &&& row.tooltip is None
            &&& !row.chips
            &&& !row.actions
        },
        row.selected == (panel.open_change matches Some(open) && open@ == path@),
        row.selected ==> row.edge_color == ThemeColor::SelectedEdge,
        !row.selected && section is Uncommitted ==> row.edge_color == ThemeColor::EdgeUncommitted,
        !row.selected && section is AgainstMain ==> row.edge_color == ThemeColor::EdgeAgainstMain,
        section is Uncommitted ==> row.actions == ((panel.row_hover matches Some(over) && over@
            == path@) || (panel.actions_hover matches Some(over) && over@ == path@)),
        row.discard_armed == (panel.discard_armed matches Some(armed) && armed@ == path@),
{
    assert(stat.lines() == (stat.added as nat, stat.removed as nat));
}

/// The row of a change tells its file's directory, name, letter and lines.
pub proof fn law_row_tells_the_change(
    panel: &ChangesPanel,
    entry: &ChangeEntry,
    section: ChangesSection,
    several: bool,
    row: ChangeRowElement,
    path: &FilePath,
    stat: DiffStat,
    status: FileChangeStatus,
    letter: StatusLetter,
    added: String,
    removed: String,
)
    requires
        call_ensures(ChangesPanel::change_row_view, (panel, entry, section, several), row),
        call_ensures(ChangeEntry::path, (entry,), path),
        call_ensures(ChangeEntry::stat, (entry,), stat),
        call_ensures(ChangeEntry::status, (entry,), status),
        call_ensures(status_letter, (status,), letter),
        call_ensures(decimal_text, (stat.added as u64,), added),
        call_ensures(decimal_text, (stat.removed as u64,), removed),
    ensures
        row.letter == letter,
        row.added@ == "+"@ + added@,
        row.removed@ == "\u{2212}"@ + removed@,
        file_name(path@) matches Some(name) ==> row.name@ == name,
        parent(path@) is None ==> row.dir@.len() == 0,
        parent(path@) matches Some(above) ==> exists|dir: PathText|
            #[trigger] crate::path::components(dir) == above && (shown(dir).len() > 0 ==> row.dir@
                == shown(dir) + "/"@),
        row.committed ==> section is AgainstMain,
        section is AgainstMain ==> row.committed == (panel.dirty_files matches Some(dirty)
            && !dirty@.contains(path@)),
{
    assert(stat.lines() == (stat.added as nat, stat.removed as nat));
    crate::path::lemma_parent_text(path.text());
    if parent(path@) is Some {
        let dir = crate::path::text_parent(path.text());
        assert(crate::path::components(dir) == parent(path@)->0);
    }
}

/// A row is told moved exactly where its section's diff has its path as that
/// of a file that git moved.
pub proof fn law_row_of_a_moved_file(
    panel: &ChangesPanel,
    entry: &ChangeEntry,
    section: ChangesSection,
    several: bool,
    row: ChangeRowElement,
    path: &FilePath,
)
    requires
        call_ensures(ChangesPanel::change_row_view, (panel, entry, section, several), row),
        call_ensures(ChangeEntry::path, (entry,), path),
    ensures
        section is Uncommitted ==> (row.renamed <==> (
        panel.uncommitted_diff matches ScopeLoad::Loaded(diff) && exists|i: int|
            0 <= i < diff.files@.len() && (#[trigger] diff.files@[i]).path@ == path@
                && diff.files@[i].renamed)),
        section is AgainstMain ==> (row.renamed <==> (panel.branch_diff matches BranchDiff::Loaded(
            diff,
        ) && exists|i: int|
            0 <= i < diff.files@.len() && (#[trigger] diff.files@[i]).path@ == path@
                && diff.files@[i].renamed)),
        section is Runs || section is Commits ==> !row.renamed,
{
}

/// The letter of a file: A where it was added, D where it was deleted, and M
/// where it was modified or moved.
pub proof fn law_letters(status: FileChangeStatus, letter: StatusLetter, glyph: &'static str)
    requires
        call_ensures(status_letter, (status,), letter),
        call_ensures(StatusLetter::glyph, (letter,), glyph),
    ensures
        status is Added ==> glyph@ == "A"@,
        status is Deleted ==> glyph@ == "D"@,
        status is Modified || status is Renamed ==> glyph@ == "M"@,
{
}

/// A path is split into the directory that it lies in and its name there.
pub proof fn law_path_is_split(path: &FilePath, parts: (String, String))
    requires
        call_ensures(split_dir_name, (path,), parts),
    ensures
        parent(path@) is None ==> parts.0@.len() == 0,
        parent(path@) matches Some(above) ==> exists|dir: PathText|
            #[trigger] crate::path::components(dir) == above && parts.0@ == shown(dir),
        file_name(path@) matches Some(name) ==> parts.1@ == name,
        file_name(path@) is None ==> parts.1@ == shown(path.text()),
{
    crate::path::lemma_parent_text(path.text());
    if parent(path@) is Some {
        let dir = crate::path::text_parent(path.text());
        assert(crate::path::components(dir) == parent(path@)->0);
    }
}

/// The bar over a row leads to the file in the panel's worktree, and its
/// discard control throws away only what was armed.
pub proof fn law_bar_over_a_row(
    panel: &ChangesPanel,
    path: &FilePath,
    armed: bool,
    bar: RowActionsElement,
    whole: FilePath,
)
    requires
        call_ensures(ChangesPanel::change_row_actions_view, (panel, path, armed), bar),
        call_ensures(FilePath::join, (&panel.diff_root, path), whole),
    ensures
        bar.editor_path.text() == whole.text(),
        armed ==> bar.discard_click is Discard && bar.discard_label@ == "Discard?"@,
        !armed ==> bar.discard_click is Arm && bar.discard_label@ == "\u{21ba}"@,
{
}

/// A checkbox shows a tick exactly where it is checked.
pub proof fn law_checkbox_shows_its_state(
    path: &FilePath,
    checked: bool,
    checkbox: CheckboxElement,
)
    requires
        call_ensures(staging_checkbox_view, (path, checked), checkbox),
    ensures
        checkbox.checked == checked,
        checked ==> checkbox.glyph@ == "\u{2713}"@ && checkbox.background
            == ThemeColor::ButtonGreen,
        !checked ==> checkbox.glyph@.len() == 0 && checkbox.background == ThemeColor::Transparent,
{
    reveal_strlit("");
    assert(""@.len() == 0);
}

/// The composer states what the commit button would commit: as many files as
/// are staged, of as many as are changed, their lines, on the branch that is
/// checked out, with the message as it was typed.
pub proof fn law_composer_states_the_commit(
    panel: &ChangesPanel,
    composer: ComposerElement,
    paths: Option<Vec<FilePath>>,
    stat: DiffStat,
    branch: Option<String>,
    staged: String,
    total: String,
    added: String,
    removed: String,
)
    requires
        call_ensures(ChangesPanel::commit_composer, (panel,), composer),
        call_ensures(ChangesPanel::staged_uncommitted_paths, (panel,), paths),
        call_ensures(ChangesPanel::staged_stat, (panel,), stat),
        call_ensures(ChangesPanel::composer_branch, (panel,), branch),
        call_ensures(decimal_text, (composer.staged as u64,), staged),
        call_ensures(decimal_text, (composer.total as u64,), total),
        call_ensures(decimal_text, (stat.added as u64,), added),
        call_ensures(decimal_text, (stat.removed as u64,), removed),
    ensures
        paths matches Some(list) ==> composer.staged == list@.len(),
        paths is None ==> composer.staged == 0,
        composer.total == (match panel.uncommitted_diff {
            ScopeLoad::Loaded(diff) => diff.files@.len(),
            _ => 0,
        }),
        composer.progress@ == staged@ + " of "@ + total@ + " staged"@,
        paths is Some ==> composer.stat@ == "+"@ + added@ + " \u{2212}"@ + removed@,
        paths is None ==> composer.stat@.len() == 0,
        branch matches Some(name) ==> composer.branch@ == name@,
        branch is None ==> composer.branch@ == "(detached)"@,
        composer.message@ == panel.commit_message@,
{
    assert(stat.lines() == (stat.added as nat, stat.removed as nat));
    if let Some(list) = paths {
        assert(crate::path_set::given(list@).len() == list@.len());
    }
}

/// The composer's button commits exactly where a file is staged, a message is
/// written and nothing is on its way, and says so; it is green where it would
/// once nothing is on its way.
pub proof fn law_composer_button(panel: &ChangesPanel, composer: ComposerElement)
    requires
        call_ensures(ChangesPanel::commit_composer, (panel,), composer),
    ensures
        composer.can_commit == (panel.op_in_flight is None && something_staged(*panel)
            && is_written(panel.commit_message@)),
        something_staged(*panel) && is_written(panel.commit_message@) ==> composer.colors.background
            == ThemeColor::ButtonGreen,
        !(something_staged(*panel) && is_written(panel.commit_message@))
            ==> composer.colors.background == ThemeColor::Transparent,
        composer.label is Committing == (panel.op_in_flight == Some(
            crate::panel::HistoryOp::Commit,
        )),
        composer.label matches CommitLabel::Commit { staged } ==> staged == composer.staged,
{
    crate::laws::commit::lemma_something_staged(*panel);
    crate::laws::commit::lemma_written(panel.commit_message@);
}

/// A row of the commit menu can be clicked exactly where its action can run.
/// It says what the action would do, or why it cannot run.
pub proof fn law_commit_menu_row(
    panel: &ChangesPanel,
    action: CommitMenuAction,
    row: CommitMenuRow,
    available: Result<(), String>,
    label: &'static str,
)
    requires
        call_ensures(ChangesPanel::commit_menu_row, (panel, action), row),
        call_ensures(ChangesPanel::commit_menu_availability, (panel, action), available),
        call_ensures(CommitMenuAction::label, (action,), label),
    ensures
        row.action == action,
        row.enabled == available is Ok,
        row.label@ == label@,
        available matches Err(reason) ==> row.sub@ == reason@,
        row.enabled ==> row.label_color == ThemeColor::TextHeading,
        !row.enabled ==> row.label_color == ThemeColor::TextGhoster,
{
}

/// What an enabled row says of its action: where the push goes, or how many
/// files are committed.
pub proof fn law_commit_menu_hint(
    panel: &ChangesPanel,
    action: CommitMenuAction,
    row: CommitMenuRow,
    branch: &str,
    told: Option<String>,
    count: usize,
    hint: String,
)
    requires
        call_ensures(ChangesPanel::commit_menu_row, (panel, action), row),
        row.enabled,
        call_ensures(ChangesPanel::composer_branch, (panel,), told),
        told matches Some(name) && name@ == branch@,
        panel.uncommitted_diff matches ScopeLoad::Loaded(diff) && diff.files@.len() == count,
        call_ensures(CommitMenuAction::hint, (action, branch, count), hint),
    ensures
        row.sub@ == hint@,
        action is CommitAndPush ==> row.sub@ == "origin/"@ + branch@,
{
}

/// The menu has its four rows in their order, each as it is alone.
pub proof fn law_commit_menu_rows(
    panel: &ChangesPanel,
    rows: Vec<CommitMenuRow>,
    i: int,
    action: CommitMenuAction,
    available: Result<(), String>,
)
    requires
        call_ensures(ChangesPanel::commit_menu_rows, (panel,), rows),
        0 <= i < rows@.len(),
        action == (if i == 0 {
            CommitMenuAction::CommitAndPush
        } else if i == 1 {
            CommitMenuAction::CommitAllFiles
        } else if i == 2 {
            CommitMenuAction::AmendLastCommit
        } else {
            CommitMenuAction::StashStaged
        }),
        call_ensures(ChangesPanel::commit_menu_availability, (panel, action), available),
    ensures
        rows@.len() == 4,
        rows@[i].action == action,
        rows@[i].enabled == available is Ok,
        available matches Err(reason) ==> rows@[i].sub@ == reason@,
{
}

} // verus!
