use vstd::prelude::*;
use vstd::string::*;

use crate::change_set::{capped, plus_lines, DiffStat, Lines};
use crate::panel::{ChangesPanel, DiffFile, HistoryOp, WorktreeItem};
use crate::path::{components, FilePath, PathText, PathView};
use crate::path_set::{given, views};
use crate::sections::ScopeLoad;
use crate::text::{blank, concat3, concat4, concat_text, count_text, counted, is_blank, option_text};

verus! {

/// What the menu beside the commit button offers.
#[derive(Clone, Copy, Debug, PartialEq, Eq, Structural)]
pub enum CommitMenuAction {
    CommitAndPush,
    CommitAllFiles,
    AmendLastCommit,
    StashStaged,
}

impl CommitMenuAction {
    /// The menu from top to bottom.
    pub const ORDER: [CommitMenuAction; 4] = [
        CommitMenuAction::CommitAndPush,
        CommitMenuAction::CommitAllFiles,
        CommitMenuAction::AmendLastCommit,
        CommitMenuAction::StashStaged,
    ];

    pub open spec fn label_text(self) -> Seq<char> {
        match self {
            CommitMenuAction::CommitAndPush => "Commit and push"@,
            CommitMenuAction::CommitAllFiles => "Commit all files"@,
            CommitMenuAction::AmendLastCommit => "Amend last commit"@,
            CommitMenuAction::StashStaged => "Stash staged files"@,
        }
    }

    pub fn label(self) -> (label: &'static str)
        ensures
            label@ == self.label_text(),
    {
        match self {
            CommitMenuAction::CommitAndPush => "Commit and push",
            CommitMenuAction::CommitAllFiles => "Commit all files",
            CommitMenuAction::AmendLastCommit => "Amend last commit",
            CommitMenuAction::StashStaged => "Stash staged files",
        }
    }

    pub open spec fn hint_text(self, branch: Seq<char>, files: nat) -> Seq<char> {
        match self {
            CommitMenuAction::CommitAndPush => "origin/"@ + branch,
            CommitMenuAction::CommitAllFiles => "stages the rest first \u{2022} "@ + counted(
                files,
                "file"@,
            ),
            CommitMenuAction::AmendLastCommit => "rewrites the tip"@,
            CommitMenuAction::StashStaged => "keeps the worktree clean"@,
        }
    }

    /// What the action would do, in the terms of this worktree.
    pub fn hint(self, branch: &str, uncommitted_files: usize) -> (hint: String)
        ensures
            hint@ == self.hint_text(branch@, uncommitted_files as nat),
    {
        match self {
            CommitMenuAction::CommitAndPush => concat_text("origin/", branch),
            CommitMenuAction::CommitAllFiles => concat_text(
                "stages the rest first \u{2022} ",
                count_text(uncommitted_files, "file").as_str(),
            ),
            CommitMenuAction::AmendLastCommit => "rewrites the tip".to_owned(),
            CommitMenuAction::StashStaged => "keeps the worktree clean".to_owned(),
        }
    }

    pub open spec fn key_text(self) -> Seq<char> {
        match self {
            CommitMenuAction::CommitAndPush => "commit-and-push"@,
            CommitMenuAction::CommitAllFiles => "commit-all-files"@,
            CommitMenuAction::AmendLastCommit => "amend-last-commit"@,
            CommitMenuAction::StashStaged => "stash-staged-files"@,
        }
    }

    /// The identifier of the action's row.
    pub fn key(self) -> (key: &'static str)
        ensures
            key@ == self.key_text(),
    {
        match self {
            CommitMenuAction::CommitAndPush => "commit-and-push",
            CommitMenuAction::CommitAllFiles => "commit-all-files",
            CommitMenuAction::AmendLastCommit => "amend-last-commit",
            CommitMenuAction::StashStaged => "stash-staged-files",
        }
    }
}

/// The files of a diff that are staged, in the order of the diff.
pub open spec fn staged_paths(files: Seq<DiffFile>, staged: Set<PathView>) -> Seq<PathText>
    decreases files.len(),
{
    if files.len() == 0 {
        seq![]
    } else if staged.contains(files.last().path@) {
        staged_paths(files.drop_last(), staged).push(files.last().path.text())
    } else {
        staged_paths(files.drop_last(), staged)
    }
}

/// The lines of the staged files of a diff.
pub open spec fn staged_lines(files: Seq<DiffFile>, staged: Set<PathView>) -> Lines
    decreases files.len(),
{
    if files.len() == 0 {
        (0, 0)
    } else if staged.contains(files.last().path@) {
        plus_lines(staged_lines(files.drop_last(), staged), files.last().stat.lines())
    } else {
        staged_lines(files.drop_last(), staged)
    }
}

/// The branch of the worktree at `root`, as the first that lies there has it.
pub open spec fn branch_at(worktrees: Seq<WorktreeItem>, root: PathView) -> Option<Seq<char>>
    decreases worktrees.len(),
{
    if worktrees.len() == 0 {
        None
    } else if worktrees[0].path@ == root {
        option_text(worktrees[0].branch)
    } else {
        branch_at(worktrees.skip(1), root)
    }
}

/// A commit of the staged files, as git is asked for it.
pub struct CommitRequest {
    pub worktree: FilePath,
    pub paths: Vec<FilePath>,
    pub message: String,
    /// How the status line names the branch.
    pub branch_display: String,
}

/// One thing that git is asked to do.
pub enum GitStep {
    CommitPaths { paths: Vec<FilePath>, message: String },
    /// A push, which overwrites nothing of the other side unless it is forced.
    PushBranch { branch: String, force: bool },
    CommitAll { message: String },
    AmendWithPaths { paths: Vec<FilePath> },
    StashStaged { message: String },
}

pub enum GitStepView {
    CommitPaths { paths: Seq<PathText>, message: Seq<char> },
    PushBranch { branch: Seq<char>, force: bool },
    CommitAll { message: Seq<char> },
    AmendWithPaths { paths: Seq<PathText> },
    StashStaged { message: Seq<char> },
}

impl View for GitStep {
    type V = GitStepView;

    open spec fn view(&self) -> GitStepView {
        match self {
            GitStep::CommitPaths { paths, message } => GitStepView::CommitPaths {
                paths: given(paths@),
                message: message@,
            },
            GitStep::PushBranch { branch, force } => GitStepView::PushBranch {
                branch: branch@,
                force: *force,
            },
            GitStep::CommitAll { message } => GitStepView::CommitAll { message: message@ },
            GitStep::AmendWithPaths { paths } => GitStepView::AmendWithPaths {
                paths: given(paths@),
            },
            GitStep::StashStaged { message } => GitStepView::StashStaged { message: message@ },
        }
    }
}

/// An action of the menu on its way: the steps that git is asked for, one
/// after the other until one fails, and what the status line says when all
/// have passed.
pub struct MenuRequest {
    pub action: CommitMenuAction,
    pub worktree: FilePath,
    pub branch_display: String,
    pub steps: Vec<GitStep>,
    pub done: String,
}

pub open spec fn step_views(steps: Seq<GitStep>) -> Seq<GitStepView> {
    steps.map_values(|step: GitStep| step@)
}

impl ChangesPanel {
    /// The staged part of the uncommitted changes.
    pub open spec fn staged_uncommitted(self) -> Seq<PathText> {
        match self.uncommitted_diff {
            ScopeLoad::Loaded(diff) => staged_paths(diff.files@, self.staged_files@),
            _ => seq![],
        }
    }

    pub open spec fn staged_uncommitted_lines(self) -> Lines {
        match self.uncommitted_diff {
            ScopeLoad::Loaded(diff) => staged_lines(diff.files@, self.staged_files@),
            _ => (0, 0),
        }
    }

    pub open spec fn uncommitted_file_count(self) -> nat {
        match self.uncommitted_diff {
            ScopeLoad::Loaded(diff) => diff.files@.len(),
            _ => 0,
        }
    }

    /// The staged paths of the uncommitted changes; nothing where there are
    /// none.
    pub fn staged_uncommitted_paths(&self) -> (paths: Option<Vec<FilePath>>)
        ensures
            paths is None == (self.staged_uncommitted().len() == 0),
            paths matches Some(list) ==> given(list@) == self.staged_uncommitted(),
    {
        let diff = match &self.uncommitted_diff {
            ScopeLoad::Loaded(diff) => diff,
            ScopeLoad::Loading | ScopeLoad::Error(_) => {
                return None;
            },
        };
        let ghost files = diff.files@;
        let ghost staged = self.staged_files@;
        let mut paths: Vec<FilePath> = Vec::new();
        assert(given(paths@) =~= staged_paths(files.take(0), staged));
        let mut i: usize = 0;
        while i < diff.files.len()
            invariant
                i <= diff.files.len(),
                files == diff.files@,
                staged == self.staged_files@,
                given(paths@) == staged_paths(files.take(i as int), staged),
            decreases diff.files.len() - i,
        {
            let ghost before = given(paths@);
            assert(files.take(i + 1).drop_last() =~= files.take(i as int));
            if self.staged_files.contains(&diff.files[i].path) {
                paths.push(diff.files[i].path.clone());
                assert(given(paths@) =~= before.push(files[i as int].path.text()));
            }
            i += 1;
        }
        assert(files.take(i as int) =~= files);
        assert(paths@.len() == given(paths@).len());
        if paths.len() == 0 {
            None
        } else {
            Some(paths)
        }
    }

    /// The lines of the staged files, as far as they can be counted.
    pub fn staged_stat(&self) -> (stat: DiffStat)
        ensures
            stat.lines() == capped(self.staged_uncommitted_lines()),
    {
        let mut stat = DiffStat::new(0, 0);
        let diff = match &self.uncommitted_diff {
            ScopeLoad::Loaded(diff) => diff,
            ScopeLoad::Loading | ScopeLoad::Error(_) => {
                return stat;
            },
        };
        let ghost files = diff.files@;
        let ghost staged = self.staged_files@;
        let mut i: usize = 0;
        while i < diff.files.len()
            invariant
                i <= diff.files.len(),
                files == diff.files@,
                staged == self.staged_files@,
                self.uncommitted_diff matches ScopeLoad::Loaded(loaded) && loaded.files@ == files,
                stat.lines() == capped(staged_lines(files.take(i as int), staged)),
            decreases diff.files.len() - i,
        {
            assert(files.take(i + 1).drop_last() =~= files.take(i as int));
            if self.staged_files.contains(&diff.files[i].path) {
                stat = stat.capped_plus(diff.files[i].stat);
            }
            i += 1;
        }
        assert(files.take(i as int) =~= files);
        stat
    }

    /// What every commit writes: the text that was typed, and nothing else.
    pub fn staged_commit_message(&self) -> (message: String)
        ensures
            message@ == self.commit_message@,
    {
        self.commit_message.clone()
    }

    /// Takes over the text that a key, or the field's own undo and redo, left
    /// in the message. A key that edits nothing leaves the message alone, and
    /// is then free to mean something else.
    pub fn replace_commit_message(&mut self, edited: Option<String>) -> (taken: bool)
        ensures
            taken == edited.is_some(),
            *final(self) == (ChangesPanel {
                commit_message: final(self).commit_message,
                ..*old(self)
            }),
            final(self).commit_message@ == match option_text(edited) {
                Some(text) => text,
                None => old(self).commit_message@,
            },
    {
        match edited {
            Some(text) => {
                self.commit_message = text;
                true
            },
            None => false,
        }
    }

    /// The branch that the panel's worktree has checked out.
    pub open spec fn branch(self) -> Option<Seq<char>> {
        branch_at(self.worktrees@, self.diff_root@)
    }

    pub fn composer_branch(&self) -> (branch: Option<String>)
        ensures
            option_text(branch) == self.branch(),
    {
        let mut i: usize = 0;
        assert(self.worktrees@.skip(0) =~= self.worktrees@);
        while i < self.worktrees.len()
            invariant
                i <= self.worktrees.len(),
                branch_at(self.worktrees@.skip(i as int), self.diff_root@) == self.branch(),
            decreases self.worktrees.len() - i,
        {
            let ghost rest = self.worktrees@.skip(i as int);
            assert(rest[0] == self.worktrees@[i as int]);
            assert(rest.skip(1) =~= self.worktrees@.skip(i + 1));
            if self.worktrees[i].path.same(&self.diff_root) {
                return match &self.worktrees[i].branch {
                    Some(branch) => Some(branch.clone()),
                    None => None,
                };
            }
            i += 1;
        }
        None
    }

    /// Why an action of the menu cannot run now; nothing where it can.
    pub open spec fn obstacle(self, action: CommitMenuAction) -> Option<Seq<char>> {
        let nothing_staged = self.staged_uncommitted().len() == 0;
        let no_message = is_blank(self.commit_message@);
        if self.op_in_flight is Some {
            Some("another git operation is still running"@)
        } else if !(self.uncommitted_diff is Loaded) {
            Some("the working tree has not been read yet"@)
        } else {
            match action {
                CommitMenuAction::CommitAndPush => if nothing_staged {
                    Some("nothing staged"@)
                } else if no_message {
                    Some("write a commit message first"@)
                } else if self.branch() is None {
                    Some("HEAD is detached, so there is no branch to push"@)
                } else {
                    None
                },
                CommitMenuAction::CommitAllFiles => if self.uncommitted_file_count() == 0 {
                    Some("nothing uncommitted to commit"@)
                } else if no_message {
                    Some("write a commit message first"@)
                } else {
                    None
                },
                CommitMenuAction::AmendLastCommit => if nothing_staged {
                    Some("nothing staged to fold into the last commit"@)
                } else if self.has_no_own_commit() {
                    Some("this branch has no commit of its own to amend"@)
                } else {
                    None
                },
                CommitMenuAction::StashStaged => if nothing_staged {
                    Some("nothing staged to stash"@)
                } else if no_message {
                    Some("write a message first"@)
                } else {
                    None
                },
            }
        }
    }

    /// Whether the branch is known to have added no commit to its base.
    pub open spec fn has_no_own_commit(self) -> bool {
        self.branch_commits matches ScopeLoad::Loaded(commits) && commits.base_branch is Some
            && commits.commits@.len() == 0
    }

    /// Whether `action` can run now, and if not, why.
    pub fn commit_menu_availability(&self, action: CommitMenuAction) -> (available: Result<
        (),
        String,
    >)
        ensures
            available is Ok == self.obstacle(action) is None,
            available matches Err(reason) ==> self.obstacle(action) == Some(reason@),
    {
        if self.op_in_flight.is_some() {
            return Err("another git operation is still running".to_owned());
        }
        let nothing_staged = self.staged_uncommitted_paths().is_none();
        let files = match &self.uncommitted_diff {
            ScopeLoad::Loaded(diff) => diff.files.len(),
            ScopeLoad::Loading | ScopeLoad::Error(_) => {
                return Err("the working tree has not been read yet".to_owned());
            },
        };
        let no_message = blank(self.commit_message.as_str());
        match action {
            CommitMenuAction::CommitAndPush => {
                if nothing_staged {
                    return Err("nothing staged".to_owned());
                }
                if no_message {
                    return Err("write a commit message first".to_owned());
                }
                if self.composer_branch().is_none() {
                    return Err("HEAD is detached, so there is no branch to push".to_owned());
                }
                Ok(())
            },
            CommitMenuAction::CommitAllFiles => {
                if files == 0 {
                    return Err("nothing uncommitted to commit".to_owned());
                }
                if no_message {
                    return Err("write a commit message first".to_owned());
                }
                Ok(())
            },
            CommitMenuAction::AmendLastCommit => {
                if nothing_staged {
                    return Err("nothing staged to fold into the last commit".to_owned());
                }
                let no_own_commit = match &self.branch_commits {
                    ScopeLoad::Loaded(commits) => commits.base_branch.is_some()
                        && commits.commits.len() == 0,
                    ScopeLoad::Loading | ScopeLoad::Error(_) => false,
                };
                if no_own_commit {
                    return Err("this branch has no commit of its own to amend".to_owned());
                }
                Ok(())
            },
            CommitMenuAction::StashStaged => {
                if nothing_staged {
                    return Err("nothing staged to stash".to_owned());
                }
                if no_message {
                    return Err("write a message first".to_owned());
                }
                Ok(())
            },
        }
    }

    /// Whether the commit button would commit anything.
    pub open spec fn can_commit(self) -> bool {
        &&& self.op_in_flight is None
        &&& self.staged_uncommitted().len() > 0
        &&& !is_blank(self.commit_message@)
    }

    /// The commit button: commits the staged files with the typed message.
    /// With nothing staged, no message, or another operation on its way it
    /// does nothing.
    pub fn commit_staged_files(&mut self, branch_display: &str) -> (request: Option<CommitRequest>)
        ensures
            request is Some == old(self).can_commit(),
            request is None ==> *final(self) == *old(self),
            request matches Some(asked) ==> {
                &&& asked.worktree.text() == old(self).diff_root.text()
                &&& given(asked.paths@) == old(self).staged_uncommitted()
                &&& asked.message@ == old(self).commit_message@
                &&& asked.branch_display@ == branch_display@
                &&& *final(self) == (ChangesPanel {
                    op_in_flight: Some(HistoryOp::Commit),
                    status: final(self).status,
                    ..*old(self)
                })
                &&& option_text(final(self).status) == Some(
                    "committing "@ + counted(old(self).staged_uncommitted().len(), "file"@)
                        + " in "@ + branch_display@ + "\u{2026}"@,
                )
            },
    {
        if self.op_in_flight.is_some() {
            return None;
        }
        let paths = match self.staged_uncommitted_paths() {
            Some(paths) => paths,
            None => {
                return None;
            },
        };
        let message = self.staged_commit_message();
        if blank(message.as_str()) {
            return None;
        }
        assert(paths@.len() == given(paths@).len());
        let mut status = concat4(
            "committing ",
            count_text(paths.len(), "file").as_str(),
            " in ",
            branch_display,
        );
        status.append("\u{2026}");
        self.op_in_flight = Some(HistoryOp::Commit);
        self.status = Some(status);
        Some(
            CommitRequest {
                worktree: self.diff_root.clone(),
                paths,
                message,
                branch_display: branch_display.to_owned(),
            },
        )
    }

    /// Takes in whether the commit was made. The committed paths, and no
    /// others, are staged no longer. Says whether the diff has to be read
    /// again.
    pub fn finish_commit(&mut self, request: CommitRequest, outcome: Result<(), String>)
        -> (reload: bool)
        ensures
            reload == outcome is Ok,
            *final(self) == (ChangesPanel {
                op_in_flight: None,
                status: final(self).status,
                staged_files: final(self).staged_files,
                ..*old(self)
            }),
            outcome is Ok ==> {
                &&& final(self).staged_files@ == old(self).staged_files@.difference(
                    views(request.paths@).to_set(),
                )
                &&& option_text(final(self).status) == Some(
                    "committed "@ + counted(request.paths@.len(), "file"@) + " in "@
                        + request.branch_display@,
                )
            },
            outcome matches Err(err) ==> {
                &&& final(self).staged_files == old(self).staged_files
                &&& option_text(final(self).status) == Some("commit failed: "@ + err@)
            },
    {
        self.op_in_flight = None;
        match outcome {
            Ok(()) => {
                self.status = Some(
                    concat4(
                        "committed ",
                        count_text(request.paths.len(), "file").as_str(),
                        " in ",
                        request.branch_display.as_str(),
                    ),
                );
                let ghost all = views(request.paths@);
                let ghost start = self.staged_files@;
                assert(start.difference(all.take(0).to_set()) =~= start);
                let mut i: usize = 0;
                while i < request.paths.len()
                    invariant
                        i <= request.paths.len(),
                        all == views(request.paths@),
                        start == old(self).staged_files@,
                        self.staged_files@ == start.difference(all.take(i as int).to_set()),
                        *self == (ChangesPanel {
                            op_in_flight: None,
                            status: self.status,
                            staged_files: self.staged_files,
                            ..*old(self)
                        }),
                        option_text(self.status) == Some(
                            "committed "@ + counted(request.paths@.len(), "file"@) + " in "@
                                + request.branch_display@,
                        ),
                    decreases request.paths.len() - i,
                {
                    let _ = self.staged_files.remove(&request.paths[i]);
                    proof {
                        assert(all.take(i + 1) =~= all.take(i as int).push(all[i as int]));
                        assert(all.take(i + 1).to_set() =~= all.take(i as int).to_set().insert(
                            all[i as int],
                        )) by {
                            all.take(i as int).lemma_push_to_set_commute(all[i as int]);
                        }
                        assert(self.staged_files@ =~= start.difference(all.take(i + 1).to_set()));
                    }
                    i += 1;
                }
                assert(all.take(i as int) =~= all);
                true
            },
            Err(err) => {
                self.status = Some(concat_text("commit failed: ", err.as_str()));
                false
            },
        }
    }

    /// What git is asked for by an action of the menu.
    pub open spec fn steps_of(self, action: CommitMenuAction) -> Seq<GitStepView> {
        let paths = self.staged_uncommitted();
        let message = self.commit_message@;
        match action {
            CommitMenuAction::CommitAndPush => seq![
                GitStepView::CommitPaths { paths, message },
                GitStepView::PushBranch { branch: self.branch()->0, force: false },
            ],
            CommitMenuAction::CommitAllFiles => seq![GitStepView::CommitAll { message }],
            CommitMenuAction::AmendLastCommit => seq![GitStepView::AmendWithPaths { paths }],
            CommitMenuAction::StashStaged => seq![
                GitStepView::StashStaged { message: "jerry: "@ + message },
            ],
        }
    }

    /// What the status line says while an action of the menu is on its way.
    pub open spec fn busy_text(self, action: CommitMenuAction, branch_display: Seq<char>) -> Seq<
        char,
    > {
        let files = counted(self.staged_uncommitted().len(), "file"@);
        match action {
            CommitMenuAction::CommitAndPush => "committing and pushing "@ + files + " in "@
                + branch_display + "\u{2026}"@,
            CommitMenuAction::CommitAllFiles => "committing everything in "@ + branch_display
                + "\u{2026}"@,
            CommitMenuAction::AmendLastCommit => "amending "@ + branch_display
                + "'s last commit with "@ + files + "\u{2026}"@,
            CommitMenuAction::StashStaged => "stashing "@ + files + " in "@ + branch_display
                + "\u{2026}"@,
        }
    }

    /// What an action of the menu has done when all its steps have passed.
    pub open spec fn done_text(self, action: CommitMenuAction) -> Seq<char> {
        let files = counted(self.staged_uncommitted().len(), "file"@);
        match action {
            CommitMenuAction::CommitAndPush => "committed "@ + files + " and pushed "@
                + self.branch()->0,
            CommitMenuAction::CommitAllFiles => "committed every uncommitted file"@,
            CommitMenuAction::AmendLastCommit => "amended the last commit with "@ + files,
            CommitMenuAction::StashStaged => "stashed "@ + files,
        }
    }

    /// Starts an action of the menu, where it can run, and closes the menu.
    pub fn run_commit_menu_action(&mut self, action: CommitMenuAction, branch_display: &str)
        -> (request: Option<MenuRequest>)
        ensures
            request is Some == old(self).obstacle(action) is None,
            request is None ==> *final(self) == *old(self),
            request matches Some(asked) ==> {
                &&& asked.action == action
                &&& asked.worktree.text() == old(self).diff_root.text()
                &&& asked.branch_display@ == branch_display@
                &&& step_views(asked.steps@) == old(self).steps_of(action)
                &&& asked.done@ == old(self).done_text(action)
                &&& *final(self) == (ChangesPanel {
                    commit_menu_open: false,
                    op_in_flight: Some(HistoryOp::Commit),
                    status: final(self).status,
                    ..*old(self)
                })
                &&& option_text(final(self).status) == Some(
                    old(self).busy_text(action, branch_display@),
                )
            },
    {
        if self.commit_menu_availability(action).is_err() {
            return None;
        }
        let message = self.staged_commit_message();
        let staged = match self.staged_uncommitted_paths() {
            Some(paths) => paths,
            None => Vec::new(),
        };
        assert(given(staged@) =~= self.staged_uncommitted());
        assert(staged@.len() == given(staged@).len());
        let files = count_text(staged.len(), "file");
        let mut steps: Vec<GitStep> = Vec::new();
        let mut status = String::new();
        let mut done = String::new();
        match action {
            CommitMenuAction::CommitAndPush => {
                let branch = match self.composer_branch() {
                    Some(branch) => branch,
                    None => {
                        return None;
                    },
                };
                status = concat4("committing and pushing ", files.as_str(), " in ", branch_display);
                done = concat4("committed ", files.as_str(), " and pushed ", branch.as_str());
                steps.push(GitStep::CommitPaths { paths: staged, message });
                steps.push(GitStep::PushBranch { branch, force: false });
            },
            CommitMenuAction::CommitAllFiles => {
                status = concat_text("committing everything in ", branch_display);
                done = "committed every uncommitted file".to_owned();
                steps.push(GitStep::CommitAll { message });
            },
            CommitMenuAction::AmendLastCommit => {
                status = concat4(
                    "amending ",
                    branch_display,
                    "'s last commit with ",
                    files.as_str(),
                );
                done = concat_text("amended the last commit with ", files.as_str());
                steps.push(GitStep::AmendWithPaths { paths: staged });
            },
            CommitMenuAction::StashStaged => {
                status = concat4("stashing ", files.as_str(), " in ", branch_display);
                done = concat_text("stashed ", files.as_str());
                steps.push(
                    GitStep::StashStaged { message: concat_text("jerry: ", message.as_str()) },
                );
            },
        }
        status.append("\u{2026}");
        assert(step_views(steps@) =~= self.steps_of(action));
        self.commit_menu_open = false;
        self.op_in_flight = Some(HistoryOp::Commit);
        self.status = Some(status);
        Some(
            MenuRequest {
                action,
                worktree: self.diff_root.clone(),
                branch_display: branch_display.to_owned(),
                steps,
                done,
            },
        )
    }

    /// Takes in whether all steps of an action passed, or why one failed. Says
    /// whether the diff has to be read again; what is staged is read with it.
    pub fn finish_commit_menu_action(
        &mut self,
        request: MenuRequest,
        outcome: Result<(), String>,
    ) -> (reload: bool)
        ensures
            reload == outcome is Ok,
            *final(self) == (ChangesPanel {
                op_in_flight: None,
                status: final(self).status,
                ..*old(self)
            }),
            outcome is Ok ==> option_text(final(self).status) == Some(
                request.done@ + " in "@ + request.branch_display@,
            ),
            outcome matches Err(err) ==> option_text(final(self).status) == Some(
                request.action.label_text() + " failed: "@ + err@,
            ),
    {
        self.op_in_flight = None;
        match outcome {
            Ok(()) => {
                self.status = Some(
                    concat3(request.done.as_str(), " in ", request.branch_display.as_str()),
                );
                true
            },
            Err(err) => {
                self.status = Some(concat3(request.action.label(), " failed: ", err.as_str()));
                false
            },
        }
    }

    /// Opens the menu where it is closed, and closes it where it is open.
    pub fn toggle_commit_menu(&mut self)
        ensures
            *final(self) == (ChangesPanel {
                commit_menu_open: !old(self).commit_menu_open,
                ..*old(self)
            }),
    {
        self.commit_menu_open = !self.commit_menu_open;
    }

    pub fn close_commit_menu(&mut self)
        ensures
            *final(self) == (ChangesPanel { commit_menu_open: false, ..*old(self) }),
    {
        self.commit_menu_open = false;
    }
}

/// While one git operation is on its way no other starts: neither the button
/// nor any row of the menu.
pub proof fn law_one_operation_at_a_time(panel: ChangesPanel, action: CommitMenuAction)
    requires
        panel.op_in_flight is Some,
    ensures
        !panel.can_commit(),
        panel.obstacle(action) is Some,
{
}

/// Whatever row of the menu is run, no push is forced.
pub proof fn law_no_push_is_forced(panel: ChangesPanel, action: CommitMenuAction)
    ensures
        forall|i: int|
            0 <= i < panel.steps_of(action).len() ==> !(#[trigger] panel.steps_of(action)[i]
                matches GitStepView::PushBranch { force, .. } && force),
{
}

/// Without a message nothing is written that would carry one: only amending,
/// which keeps the message that the commit has, can run.
pub proof fn law_no_message_no_commit(panel: ChangesPanel, action: CommitMenuAction)
    requires
        is_blank(panel.commit_message@),
        action != CommitMenuAction::AmendLastCommit,
    ensures
        !panel.can_commit(),
        panel.obstacle(action) is Some,
{
}

/// With nothing staged only the action that stages the rest itself can run.
pub proof fn law_nothing_staged(panel: ChangesPanel, action: CommitMenuAction)
    requires
        panel.staged_uncommitted().len() == 0,
        action != CommitMenuAction::CommitAllFiles,
    ensures
        !panel.can_commit(),
        panel.obstacle(action) is Some,
{
}

/// What is committed is what is staged: a path is handed to git exactly where
/// it is a file of the diff and its box is checked.
pub proof fn law_staged_paths(files: Seq<DiffFile>, staged: Set<PathView>, path: PathText)
    ensures
        staged_paths(files, staged).contains(path) <==> staged.contains(components(path))
            && exists|i: int| 0 <= i < files.len() && (#[trigger] files[i]).path.text() == path,
    decreases files.len(),
{
    if files.len() > 0 {
        let rest = files.drop_last();
        law_staged_paths(rest, staged, path);
        let before = staged_paths(rest, staged);
        let last = files.last();
        if staged.contains(last.path@) {
            before.lemma_push_to_set_commute(last.path.text());
            assert(before.push(last.path.text()).to_set().contains(path) == before.to_set().insert(
                last.path.text(),
            ).contains(path));
        }
        if exists|i: int| 0 <= i < files.len() && (#[trigger] files[i]).path.text() == path {
            let i = choose|i: int| 0 <= i < files.len() && (#[trigger] files[i]).path.text() == path;
            if i < rest.len() {
                assert(rest[i].path.text() == path);
            }
        }
        if exists|i: int| 0 <= i < rest.len() && (#[trigger] rest[i]).path.text() == path {
            let i = choose|i: int| 0 <= i < rest.len() && (#[trigger] rest[i]).path.text() == path;
            assert(files[i].path.text() == path);
        }
        assert(files[files.len() - 1] == last);
    }
}

} // verus!
