use vstd::prelude::*;
use vstd::string::*;

use crate::change_set::DiffStat;
use crate::composer::{
    branch_at, staged_lines, staged_paths, step_views, CommitMenuAction, CommitRequest, GitStep,
    MenuRequest,
};
use crate::laws::{lemma_picks, picks, says};
use crate::panel::{ChangesPanel, DiffFile, HistoryOp, WorktreeItem};
use crate::path::{FilePath, PathView};
use crate::path_set::given;
use crate::sections::ScopeLoad;
use crate::text::{count_text, is_white_space};

verus! {

/// Whether `paths` are the staged files of the uncommitted diff: the files at
/// the places `at`, which are all that are staged, each once and in the order
/// of the diff.
pub open spec fn are_the_staged_files(
    paths: Seq<FilePath>,
    panel: ChangesPanel,
    at: Seq<int>,
) -> bool {
    panel.uncommitted_diff matches ScopeLoad::Loaded(diff) && {
        &&& picks(
            at,
            diff.files@.len() as int,
            |i: int| panel.staged_files@.contains(diff.files@[i].path@),
        )
        &&& paths.len() == at.len()
        &&& forall|k: int|
            0 <= k < paths.len() ==> (#[trigger] paths[k]).text() == diff.files@[at[k]].path.text()
    }
}

/// Whether a file of the uncommitted diff is staged.
pub open spec fn something_staged(panel: ChangesPanel) -> bool {
    panel.uncommitted_diff matches ScopeLoad::Loaded(diff) && exists|i: int|
        0 <= i < diff.files@.len() && panel.staged_files@.contains(
            (#[trigger] diff.files@[i]).path@,
        )
}

/// Whether a message holds anything but white space.
pub open spec fn is_written(message: Seq<char>) -> bool {
    exists|i: int| 0 <= i < message.len() && !is_white_space(#[trigger] message[i])
}

proof fn lemma_staged_pick(files: Seq<DiffFile>, staged: Set<PathView>) -> (at: Seq<int>)
    ensures
        picks(at, files.len() as int, |i: int| staged.contains(files[i].path@)),
        at.len() == staged_paths(files, staged).len(),
        forall|k: int|
            0 <= k < at.len() ==> staged_paths(files, staged)[k] == files[
                #[trigger] at[k]
            ].path.text(),
    decreases files.len(),
{
    if files.len() == 0 {
        seq![]
    } else {
        let rest = files.drop_last();
        let before = lemma_staged_pick(rest, staged);
        lemma_picks(
            before,
            files.len() - 1,
            |i: int| staged.contains(rest[i].path@),
            |i: int| staged.contains(files[i].path@),
        )
    }
}

pub(crate) proof fn lemma_something_staged(panel: ChangesPanel)
    ensures
        something_staged(panel) == (panel.staged_uncommitted().len() > 0),
{
    if let ScopeLoad::Loaded(diff) = panel.uncommitted_diff {
        let files = diff.files@;
        let kept = |i: int| panel.staged_files@.contains(files[i].path@);
        let at = lemma_staged_pick(files, panel.staged_files@);
        if at.len() > 0 {
            assert(kept(at[0]));
            assert(panel.staged_files@.contains(files[at[0]].path@));
        }
        if something_staged(panel) {
            let i = choose|i: int|
                0 <= i < files.len() && panel.staged_files@.contains(
                    (#[trigger] files[i]).path@,
                );
            assert(kept(i));
        }
    }
}

proof fn lemma_given_at(paths: Seq<FilePath>)
    ensures
        given(paths).len() == paths.len(),
        forall|k: int| 0 <= k < paths.len() ==> given(paths)[k] == (#[trigger] paths[k]).text(),
{
}

/// What the composer takes for staged are the staged files of the uncommitted
/// diff, and there are none where no file of it is staged.
pub proof fn law_staged_files_of_the_diff(
    panel: &ChangesPanel,
    paths: Option<Vec<FilePath>>,
) -> (at: Seq<int>)
    requires
        call_ensures(ChangesPanel::staged_uncommitted_paths, (panel,), paths),
    ensures
        paths is Some == something_staged(*panel),
        paths matches Some(list) ==> are_the_staged_files(list@, *panel, at),
{
    lemma_something_staged(*panel);
    if let ScopeLoad::Loaded(diff) = panel.uncommitted_diff {
        let at = lemma_staged_pick(diff.files@, panel.staged_files@);
        if let Some(list) = paths {
            lemma_given_at(list@);
        }
        at
    } else {
        seq![]
    }
}

/// The commit button commits the staged files of the uncommitted diff, all of
/// them and no other, with the message as it was typed, in the panel's
/// worktree, and the status line states their number. It does so exactly where
/// a file is staged, a message is written and no operation is on its way.
pub proof fn law_button_commits_what_is_staged(
    panel: &mut ChangesPanel,
    branch: &str,
    request: Option<CommitRequest>,
    files: String,
) -> (at: Seq<int>)
    requires
        call_ensures(ChangesPanel::commit_staged_files, (panel, branch), request),
        request matches Some(asked) ==> asked.paths@.len() <= usize::MAX && call_ensures(
            count_text,
            (asked.paths@.len() as usize, "file"),
            files,
        ),
    ensures
        request is Some == (old(panel).op_in_flight is None && something_staged(*old(panel))
            && is_written(old(panel).commit_message@)),
        request matches Some(asked) ==> {
            &&& are_the_staged_files(asked.paths@, *old(panel), at)
            &&& asked.message@ == old(panel).commit_message@
            &&& asked.worktree.text() == old(panel).diff_root.text()
            &&& asked.branch_display@ == branch@
            &&& final(panel).op_in_flight == Some(HistoryOp::Commit)
            &&& says(
                final(panel).status,
                "committing "@ + files@ + " in "@ + branch@ + "\u{2026}"@,
            )
        },
        request is None ==> *final(panel) == *old(panel),
        final(panel).staged_files == old(panel).staged_files,
        final(panel).commit_message == old(panel).commit_message,
{
    lemma_something_staged(*old(panel));
    lemma_written(old(panel).commit_message@);
    if let ScopeLoad::Loaded(diff) = old(panel).uncommitted_diff {
        let at = lemma_staged_pick(diff.files@, old(panel).staged_files@);
        if let Some(asked) = request {
            lemma_given_at(asked.paths@);
        }
        at
    } else {
        seq![]
    }
}

pub(crate) proof fn lemma_written(message: Seq<char>)
    ensures
        is_written(message) == !crate::text::is_blank(message),
{
    if !crate::text::is_blank(message) {
        let i = choose|i: int| 0 <= i < message.len() && !is_white_space(#[trigger] message[i]);
        assert(!is_white_space(message[i]));
    }
}

proof fn lemma_steps_at(steps: Seq<GitStep>)
    ensures
        step_views(steps).len() == steps.len(),
        forall|k: int| 0 <= k < steps.len() ==> step_views(steps)[k] == (#[trigger] steps[k])@,
{
}

/// Commit and push commits the staged files of the uncommitted diff, all of
/// them and no other, and pushes the checked-out branch, unforced. The status
/// line and what it says in the end state the number of files committed.
pub proof fn law_commit_and_push(
    panel: &mut ChangesPanel,
    display: &str,
    asked: MenuRequest,
    files: String,
    branch: Option<String>,
) -> (at: Seq<int>)
    requires
        call_ensures(
            ChangesPanel::run_commit_menu_action,
            (panel, CommitMenuAction::CommitAndPush, display),
            Some(asked),
        ),
        asked.steps@[0] matches GitStep::CommitPaths { paths, .. } ==> paths@.len() <= usize::MAX
            && call_ensures(count_text, (paths@.len() as usize, "file"), files),
        exists|before: &ChangesPanel|
            *before == *old(panel) && #[trigger] call_ensures(
                ChangesPanel::composer_branch,
                (before,),
                branch,
            ),
    ensures
        asked.steps@.len() == 2,
        asked.steps@[0] matches GitStep::CommitPaths { paths, message } && {
            &&& are_the_staged_files(paths@, *old(panel), at)
            &&& message@ == old(panel).commit_message@
            &&& says(
                final(panel).status,
                "committing and pushing "@ + files@ + " in "@ + display@ + "\u{2026}"@,
            )
        },
        branch is Some,
        asked.steps@[1] matches GitStep::PushBranch { branch: pushed, force } && !force && pushed@
            == branch->0@,
        asked.done@ == "committed "@ + files@ + " and pushed "@ + branch->0@,
{
    let before = *old(panel);
    lemma_steps_at(asked.steps@);
    let diff = before.uncommitted_diff->Loaded_0;
    let at = lemma_staged_pick(diff.files@, before.staged_files@);
    assert(step_views(asked.steps@)[0] == asked.steps@[0]@);
    assert(step_views(asked.steps@)[1] == asked.steps@[1]@);
    if let GitStep::CommitPaths { paths, message } = asked.steps@[0] {
        lemma_given_at(paths@);
    }
    at
}

/// A path is in the commit of Commit and push exactly where a file of the
/// uncommitted diff has it and it is staged.
pub proof fn law_commit_holds_a_path(
    panel: &mut ChangesPanel,
    display: &str,
    asked: MenuRequest,
    paths: Vec<FilePath>,
    message: String,
    file: DiffFile,
)
    requires
        call_ensures(
            ChangesPanel::run_commit_menu_action,
            (panel, CommitMenuAction::CommitAndPush, display),
            Some(asked),
        ),
        asked.steps@[0] == (GitStep::CommitPaths { paths, message }),
        old(panel).uncommitted_diff matches ScopeLoad::Loaded(diff) && diff.files@.contains(file),
    ensures
        old(panel).staged_files@.contains(file.path@) <==> exists|k: int|
            0 <= k < paths@.len() && (#[trigger] paths@[k]).text() == file.path.text(),
{
    let before = *old(panel);
    let files = before.uncommitted_diff->Loaded_0.files@;
    lemma_steps_at(asked.steps@);
    assert(step_views(asked.steps@)[0] == asked.steps@[0]@);
    lemma_given_at(paths@);
    let at = lemma_staged_pick(files, before.staged_files@);
    let kept = |i: int| before.staged_files@.contains(files[i].path@);
    if before.staged_files@.contains(file.path@) {
        let i = files.index_of(file);
        assert(kept(i));
        let k = at.index_of(i);
        assert(at[k] == i);
        assert(paths@[k].text() == file.path.text());
    }
    if exists|k: int| 0 <= k < paths@.len() && (#[trigger] paths@[k]).text() == file.path.text() {
        let k = choose|k: int|
            0 <= k < paths@.len() && (#[trigger] paths@[k]).text() == file.path.text();
        assert(kept(at[k]));
        assert(files[at[k]].path.text() == file.path.text());
    }
}

/// The other three actions ask git for one thing each: everything committed
/// with the message, the staged files folded into the last commit, or what is
/// staged stashed under the message.
pub proof fn law_other_actions(
    panel: &mut ChangesPanel,
    action: CommitMenuAction,
    display: &str,
    asked: MenuRequest,
) -> (at: Seq<int>)
    requires
        call_ensures(
            ChangesPanel::run_commit_menu_action,
            (panel, action, display),
            Some(asked),
        ),
        !(action is CommitAndPush),
    ensures
        asked.steps@.len() == 1,
        action is CommitAllFiles ==> (asked.steps@[0] matches GitStep::CommitAll { message }
            && message@ == old(panel).commit_message@),
        action is AmendLastCommit ==> (asked.steps@[0] matches GitStep::AmendWithPaths { paths }
            && are_the_staged_files(paths@, *old(panel), at)),
        action is StashStaged ==> (asked.steps@[0] matches GitStep::StashStaged { message }
            && message@ == "jerry: "@ + old(panel).commit_message@),
{
    let before = *old(panel);
    lemma_steps_at(asked.steps@);
    assert(step_views(asked.steps@)[0] == asked.steps@[0]@);
    let diff = before.uncommitted_diff->Loaded_0;
    let at = lemma_staged_pick(diff.files@, before.staged_files@);
    if let GitStep::AmendWithPaths { paths } = asked.steps@[0] {
        lemma_given_at(paths@);
    }
    at
}

/// What every action of the menu leaves behind: the menu closed, one operation
/// on its way, and everything that is staged or typed as it was.
pub proof fn law_action_on_its_way(
    panel: &mut ChangesPanel,
    action: CommitMenuAction,
    display: &str,
    request: Option<MenuRequest>,
)
    requires
        call_ensures(ChangesPanel::run_commit_menu_action, (panel, action, display), request),
    ensures
        request is None ==> *final(panel) == *old(panel),
        request matches Some(asked) ==> {
            &&& asked.action == action
            &&& asked.worktree.text() == old(panel).diff_root.text()
            &&& asked.branch_display@ == display@
            &&& !final(panel).commit_menu_open
            &&& final(panel).op_in_flight is Some
            &&& final(panel).status is Some
        },
        final(panel).staged_files == old(panel).staged_files,
        final(panel).commit_message == old(panel).commit_message,
        final(panel).uncommitted_diff == old(panel).uncommitted_diff,
        final(panel).seen_files == old(panel).seen_files,
        final(panel).open_change == old(panel).open_change,
{
}

/// When an action of the menu can run: never while another is on its way, or
/// before the working tree was read; each needs what it would commit, the ones
/// that write a message need one, the push needs a branch, and amending a
/// commit that is not known to be missing.
pub proof fn law_when_an_action_can_run(
    panel: &ChangesPanel,
    action: CommitMenuAction,
    available: Result<(), String>,
    branch: Option<String>,
)
    requires
        call_ensures(ChangesPanel::commit_menu_availability, (panel, action), available),
        call_ensures(ChangesPanel::composer_branch, (panel,), branch),
    ensures
        available is Ok == {
            &&& panel.op_in_flight is None
            &&& panel.uncommitted_diff is Loaded
            &&& match action {
                CommitMenuAction::CommitAndPush => something_staged(*panel) && is_written(
                    panel.commit_message@,
                ) && branch is Some,
                CommitMenuAction::CommitAllFiles => panel.uncommitted_diff->Loaded_0.files@.len()
                    > 0 && is_written(panel.commit_message@),
                CommitMenuAction::AmendLastCommit => something_staged(*panel) && !(
                panel.branch_commits matches ScopeLoad::Loaded(loaded) && loaded.base_branch is Some
                    && loaded.commits@.len() == 0),
                CommitMenuAction::StashStaged => something_staged(*panel) && is_written(
                    panel.commit_message@,
                ),
            }
        },
{
    lemma_something_staged(*panel);
    lemma_written(panel.commit_message@);
}

/// The reason that is given where an action cannot run is the first that
/// holds: an operation on its way, a working tree that was not read, nothing
/// to commit, no message, no branch.
pub proof fn law_why_an_action_cannot_run(
    panel: &ChangesPanel,
    action: CommitMenuAction,
    reason: String,
)
    requires
        call_ensures(ChangesPanel::commit_menu_availability, (panel, action), Err(reason)),
    ensures
        panel.op_in_flight is Some ==> reason@ == "another git operation is still running"@,
        panel.op_in_flight is None && !(panel.uncommitted_diff is Loaded) ==> reason@
            == "the working tree has not been read yet"@,
        panel.op_in_flight is None && panel.uncommitted_diff is Loaded ==> match action {
            CommitMenuAction::CommitAndPush => reason@ == if !something_staged(*panel) {
                "nothing staged"@
            } else if !is_written(panel.commit_message@) {
                "write a commit message first"@
            } else {
                "HEAD is detached, so there is no branch to push"@
            },
            CommitMenuAction::CommitAllFiles => reason@
                == if panel.uncommitted_diff->Loaded_0.files@.len() == 0 {
                "nothing uncommitted to commit"@
            } else {
                "write a commit message first"@
            },
            CommitMenuAction::AmendLastCommit => reason@ == if !something_staged(*panel) {
                "nothing staged to fold into the last commit"@
            } else {
                "this branch has no commit of its own to amend"@
            },
            CommitMenuAction::StashStaged => reason@ == if !something_staged(*panel) {
                "nothing staged to stash"@
            } else {
                "write a message first"@
            },
        },
{
    lemma_something_staged(*panel);
    lemma_written(panel.commit_message@);
}

/// An action starts exactly where the menu offers it.
pub proof fn law_offered_actions_start(
    panel: &mut ChangesPanel,
    action: CommitMenuAction,
    display: &str,
    request: Option<MenuRequest>,
    available: Result<(), String>,
)
    requires
        call_ensures(ChangesPanel::run_commit_menu_action, (panel, action, display), request),
        exists|before: &ChangesPanel|
            *before == *old(panel) && #[trigger] call_ensures(
                ChangesPanel::commit_menu_availability,
                (before, action),
                available,
            ),
    ensures
        request is Some == available is Ok,
{
}

/// While one operation is on its way no other starts.
pub proof fn law_one_at_a_time(
    first: &mut ChangesPanel,
    second: &mut ChangesPanel,
    third: &mut ChangesPanel,
    action: CommitMenuAction,
    next: CommitMenuAction,
    display: &str,
    asked: MenuRequest,
    again: Option<MenuRequest>,
    pressed: Option<CommitRequest>,
)
    requires
        call_ensures(
            ChangesPanel::run_commit_menu_action,
            (first, action, display),
            Some(asked),
        ),
        *second == *final(first),
        call_ensures(ChangesPanel::run_commit_menu_action, (second, next, display), again),
        *third == *final(first),
        call_ensures(ChangesPanel::commit_staged_files, (third, display), pressed),
    ensures
        again is None,
        pressed is None,
{
}

/// The branch is that of the first worktree of the list that lies where the
/// panel's does, and of no other.
pub proof fn law_branch_of_the_worktree(panel: &ChangesPanel, branch: Option<String>)
    requires
        call_ensures(ChangesPanel::composer_branch, (panel,), branch),
    ensures
        forall|i: int|
            0 <= i < panel.worktrees@.len() && (#[trigger] panel.worktrees@[i]).path@
                == panel.diff_root@ && (forall|k: int|
                0 <= k < i ==> (#[trigger] panel.worktrees@[k]).path@ != panel.diff_root@) ==> (
            match (panel.worktrees@[i].branch, branch) {
                (Some(own), Some(told)) => own@ == told@,
                (None, None) => true,
                _ => false,
            }),
        (forall|k: int|
            0 <= k < panel.worktrees@.len() ==> (#[trigger] panel.worktrees@[k]).path@
                != panel.diff_root@) ==> branch is None,
{
    lemma_branch_at(panel.worktrees@, panel.diff_root@);
}

proof fn lemma_branch_at(worktrees: Seq<WorktreeItem>, root: PathView)
    ensures
        forall|i: int|
            0 <= i < worktrees.len() && (#[trigger] worktrees[i]).path@ == root && (forall|k: int|
                0 <= k < i ==> (#[trigger] worktrees[k]).path@ != root) ==> branch_at(
                worktrees,
                root,
            ) == crate::text::option_text(worktrees[i].branch),
        (forall|k: int| 0 <= k < worktrees.len() ==> (#[trigger] worktrees[k]).path@ != root)
            ==> branch_at(worktrees, root) is None,
    decreases worktrees.len(),
{
    if worktrees.len() > 0 {
        let rest = worktrees.skip(1);
        lemma_branch_at(rest, root);
        assert forall|i: int|
            0 <= i < worktrees.len() && (#[trigger] worktrees[i]).path@ == root && (forall|k: int|
                0 <= k < i ==> (#[trigger] worktrees[k]).path@ != root) implies branch_at(
            worktrees,
            root,
        ) == crate::text::option_text(worktrees[i].branch) by {
            if i > 0 {
                assert(worktrees[0].path@ != root);
                assert(rest[i - 1] == worktrees[i]);
                assert forall|k: int| 0 <= k < i - 1 implies (#[trigger] rest[k]).path@ != root by {
                    assert(rest[k] == worktrees[k + 1]);
                }
            }
        }
        if forall|k: int| 0 <= k < worktrees.len() ==> (#[trigger] worktrees[k]).path@ != root {
            assert(worktrees[0].path@ != root);
            assert forall|k: int| 0 <= k < rest.len() implies (#[trigger] rest[k]).path@
                != root by {
                assert(rest[k] == worktrees[k + 1]);
            }
        }
    }
}

/// A commit that was made takes its own paths out of what is staged and leaves
/// every other; one that was not leaves everything staged. Either way the next
/// operation can start.
pub proof fn law_finished_commit(
    panel: &mut ChangesPanel,
    request: CommitRequest,
    outcome: Result<(), String>,
    reload: bool,
    path: PathView,
    files: String,
)
    requires
        call_ensures(ChangesPanel::finish_commit, (panel, request, outcome), reload),
        request.paths@.len() <= usize::MAX,
        call_ensures(count_text, (request.paths@.len() as usize, "file"), files),
    ensures
        final(panel).op_in_flight is None,
        reload == outcome is Ok,
        outcome is Ok
            ==> (final(panel).staged_files@.contains(path) <==> old(panel).staged_files@.contains(path) && forall|k: int|
            0 <= k < request.paths@.len() ==> (#[trigger] request.paths@[k])@ != path) && says(
            final(panel).status,
            "committed "@ + files@ + " in "@ + request.branch_display@,
        ),
        outcome matches Err(err) ==> final(panel).staged_files == old(panel).staged_files && says(
            final(panel).status,
            "commit failed: "@ + err@,
        ),
        final(panel).commit_message == old(panel).commit_message,
        final(panel).uncommitted_diff == old(panel).uncommitted_diff,
{
    let all = crate::path_set::views(request.paths@);
    assert(all.len() == request.paths@.len());
    if all.to_set().contains(path) {
        let k = all.index_of(path);
        assert(request.paths@[k]@ == path);
    }
    assert forall|k: int| 0 <= k < request.paths@.len() implies all.to_set().contains(
        (#[trigger] request.paths@[k])@,
    ) by {
        assert(all[k] == request.paths@[k]@);
    }
}

/// The button from end to end: once the commit was made, of the files that the
/// diff had nothing is staged any more, and what is staged elsewhere stays.
pub proof fn law_committed_is_staged_no_longer(
    first: &mut ChangesPanel,
    second: &mut ChangesPanel,
    display: &str,
    asked: CommitRequest,
    reload: bool,
    file: DiffFile,
    other: PathView,
)
    requires
        call_ensures(ChangesPanel::commit_staged_files, (first, display), Some(asked)),
        *second == *final(first),
        call_ensures(ChangesPanel::finish_commit, (second, asked, Ok(())), reload),
        old(first).uncommitted_diff matches ScopeLoad::Loaded(diff) && diff.files@.contains(file)
            && forall|i: int|
            0 <= i < diff.files@.len() ==> (#[trigger] diff.files@[i]).path@ != other,
    ensures
        !final(second).staged_files@.contains(file.path@),
        final(second).staged_files@.contains(other) == old(first).staged_files@.contains(other),
{
    let before = *old(first);
    let files = before.uncommitted_diff->Loaded_0.files@;
    let at = lemma_staged_pick(files, before.staged_files@);
    let kept = |i: int| before.staged_files@.contains(files[i].path@);
    let all = crate::path_set::views(asked.paths@);
    lemma_given_at(asked.paths@);
    assert(all.len() == asked.paths@.len());
    if before.staged_files@.contains(file.path@) {
        let i = files.index_of(file);
        assert(kept(i));
        let k = at.index_of(i);
        assert(asked.paths@[k].text() == file.path.text());
        assert(all[k] == file.path@);
    }
    if all.to_set().contains(other) {
        let k = all.index_of(other);
        assert(asked.paths@[k]@ == other);
        assert(asked.paths@[k].text() == files[at[k]].path.text());
    }
}

/// An action of the menu that passed says what it had done and asks for the
/// diff to be read again; one that failed says which it was and why. Either
/// way the next can start, and nothing is staged or unstaged by it.
pub proof fn law_finished_action(
    panel: &mut ChangesPanel,
    request: MenuRequest,
    outcome: Result<(), String>,
    reload: bool,
    label: &'static str,
)
    requires
        call_ensures(ChangesPanel::finish_commit_menu_action, (panel, request, outcome), reload),
        call_ensures(CommitMenuAction::label, (request.action,), label),
    ensures
        final(panel).op_in_flight is None,
        reload == outcome is Ok,
        outcome is Ok ==> says(
            final(panel).status,
            request.done@ + " in "@ + request.branch_display@,
        ),
        outcome matches Err(err) ==> says(final(panel).status, label@ + " failed: "@ + err@),
        final(panel).staged_files == old(panel).staged_files,
        final(panel).commit_message == old(panel).commit_message,
{
}

/// Staging one more file of the diff, one whose path no other file has, adds
/// that file's lines to those of what is staged, as far as they can be counted,
/// and no others.
pub proof fn law_staging_adds_the_lines(
    before: &ChangesPanel,
    after: &ChangesPanel,
    less: DiffStat,
    more: DiffStat,
    i: int,
)
    requires
        call_ensures(ChangesPanel::staged_stat, (before,), less),
        call_ensures(ChangesPanel::staged_stat, (after,), more),
        before.uncommitted_diff == after.uncommitted_diff,
        before.uncommitted_diff matches ScopeLoad::Loaded(diff) && 0 <= i < diff.files@.len() && (
        forall|k: int|
            0 <= k < diff.files@.len() && k != i ==> (#[trigger] diff.files@[k]).path@
                != diff.files@[i].path@) && !before.staged_files@.contains(diff.files@[i].path@)
            && after.staged_files@ == before.staged_files@.insert(diff.files@[i].path@),
        less.added < usize::MAX && less.removed < usize::MAX,
    ensures
        ({
            let file = before.uncommitted_diff->Loaded_0.files@[i];
            &&& less.added + file.stat.added <= usize::MAX ==> more.added == less.added
                + file.stat.added
            &&& less.added + file.stat.added > usize::MAX ==> more.added == usize::MAX
            &&& less.removed + file.stat.removed <= usize::MAX ==> more.removed == less.removed
                + file.stat.removed
            &&& less.removed + file.stat.removed > usize::MAX ==> more.removed == usize::MAX
        }),
{
    let files = before.uncommitted_diff->Loaded_0.files@;
    lemma_one_more_staged(files, before.staged_files@, i, files.len() as int);
    assert(files.take(files.len() as int) =~= files);
    assert(less.lines() == (less.added as nat, less.removed as nat));
    assert(more.lines() == (more.added as nat, more.removed as nat));
}

proof fn lemma_one_more_staged(files: Seq<DiffFile>, staged: Set<PathView>, i: int, n: int)
    requires
        0 <= i < files.len(),
        0 <= n <= files.len(),
        forall|k: int|
            0 <= k < files.len() && k != i ==> (#[trigger] files[k]).path@ != files[i].path@,
        !staged.contains(files[i].path@),
    ensures
        staged_lines(files.take(n), staged.insert(files[i].path@)) == if i < n {
            crate::change_set::plus_lines(
                staged_lines(files.take(n), staged),
                files[i].stat.lines(),
            )
        } else {
            staged_lines(files.take(n), staged)
        },
    decreases n,
{
    if n > 0 {
        lemma_one_more_staged(files, staged, i, n - 1);
        assert(files.take(n).drop_last() =~= files.take(n - 1));
        assert(files.take(n).last() == files[n - 1]);
    }
}

/// With nothing staged there are no lines.
pub proof fn law_nothing_staged_has_no_lines(panel: &ChangesPanel, stat: DiffStat)
    requires
        call_ensures(ChangesPanel::staged_stat, (panel,), stat),
        !something_staged(*panel),
    ensures
        stat.added == 0 && stat.removed == 0,
{
    assert(stat.lines() == (stat.added as nat, stat.removed as nat));
    if let ScopeLoad::Loaded(diff) = panel.uncommitted_diff {
        lemma_no_lines(diff.files@, panel.staged_files@);
    }
}

proof fn lemma_no_lines(files: Seq<DiffFile>, staged: Set<PathView>)
    requires
        forall|i: int| 0 <= i < files.len() ==> !staged.contains((#[trigger] files[i]).path@),
    ensures
        staged_lines(files, staged) == (0nat, 0nat),
    decreases files.len(),
{
    if files.len() > 0 {
        let rest = files.drop_last();
        assert forall|i: int| 0 <= i < rest.len() implies !staged.contains(
            (#[trigger] rest[i]).path@,
        ) by {
            assert(rest[i] == files[i]);
        }
        lemma_no_lines(rest, staged);
        assert(!staged.contains(files[files.len() - 1].path@));
    }
}

/// What was typed is what is committed, letter for letter.
pub proof fn law_message_is_taken_as_typed(
    panel: &mut ChangesPanel,
    edited: Option<String>,
    taken: bool,
    message: String,
)
    requires
        call_ensures(ChangesPanel::replace_commit_message, (panel, edited), taken),
        exists|after: &ChangesPanel|
            *after == *final(panel) && #[trigger] call_ensures(
                ChangesPanel::staged_commit_message,
                (after,),
                message,
            ),
    ensures
        taken == edited is Some,
        edited matches Some(text) ==> message@ == text@,
        edited is None ==> message@ == old(panel).commit_message@,
        final(panel).staged_files == old(panel).staged_files,
        final(panel).op_in_flight == old(panel).op_in_flight,
{
}

/// The menu opens and closes by turns.
pub proof fn law_menu_by_turns(
    first: &mut ChangesPanel,
    second: &mut ChangesPanel,
    third: &mut ChangesPanel,
)
    requires
        call_ensures(ChangesPanel::toggle_commit_menu, (first,), ()),
        *second == *final(first),
        call_ensures(ChangesPanel::toggle_commit_menu, (second,), ()),
        *third == *final(first),
        call_ensures(ChangesPanel::close_commit_menu, (third,), ()),
    ensures
        final(first).commit_menu_open != old(first).commit_menu_open,
        *final(second) == *old(first),
        !final(third).commit_menu_open,
        final(third).staged_files == old(first).staged_files,
{
}

/// The rows of the menu have labels and keys of their own.
pub proof fn law_actions_have_their_names(
    action: CommitMenuAction,
    label: &'static str,
    key: &'static str,
)
    requires
        call_ensures(CommitMenuAction::label, (action,), label),
        call_ensures(CommitMenuAction::key, (action,), key),
    ensures
        action is CommitAndPush ==> label@ == "Commit and push"@ && key@ == "commit-and-push"@,
        action is CommitAllFiles ==> label@ == "Commit all files"@ && key@ == "commit-all-files"@,
        action is AmendLastCommit ==> label@ == "Amend last commit"@ && key@
            == "amend-last-commit"@,
        action is StashStaged ==> label@ == "Stash staged files"@ && key@
            == "stash-staged-files"@,
{
}

/// What the status line says of the other three actions, and what it says in
/// the end: the number of files is that of the staged ones.
pub proof fn law_status_of_other_actions(
    panel: &mut ChangesPanel,
    action: CommitMenuAction,
    display: &str,
    asked: MenuRequest,
    staged: Vec<FilePath>,
    files: String,
)
    requires
        call_ensures(
            ChangesPanel::run_commit_menu_action,
            (panel, action, display),
            Some(asked),
        ),
        exists|before: &ChangesPanel|
            *before == *old(panel) && #[trigger] call_ensures(
                ChangesPanel::staged_uncommitted_paths,
                (before,),
                Some(staged),
            ),
        staged@.len() <= usize::MAX,
        call_ensures(count_text, (staged@.len() as usize, "file"), files),
    ensures
        action is CommitAllFiles ==> says(
            final(panel).status,
            "committing everything in "@ + display@ + "\u{2026}"@,
        ) && asked.done@ == "committed every uncommitted file"@,
        action is AmendLastCommit ==> says(
            final(panel).status,
            "amending "@ + display@ + "'s last commit with "@ + files@ + "\u{2026}"@,
        ) && asked.done@ == "amended the last commit with "@ + files@,
        action is StashStaged ==> says(
            final(panel).status,
            "stashing "@ + files@ + " in "@ + display@ + "\u{2026}"@,
        ) && asked.done@ == "stashed "@ + files@,
{
    lemma_given_at(staged@);
}

} // verus!
