use vstd::prelude::*;
use vstd::string::*;

use crate::change_set::{entry_paths, fits, lines_of, DiffStat, Lines};
use crate::panel::{BranchDiff, ChangesPanel, WorktreeDiff};
use crate::path::{clone_slot, holds, message_view, path_text, path_view, FilePath, PathView};
use crate::sections::{seen_now, ChangesSection, ScopeLoad};
use crate::text::concat4;

verus! {

/// A change of git's index that the checkbox of a row asks for.
pub struct StageRequest {
    pub worktree: FilePath,
    pub path: FilePath,
    /// Whether to stage the path, or to take it out again.
    pub stage: bool,
}

/// A request to throw a file's changes away.
pub struct DiscardRequest {
    pub worktree: FilePath,
    pub path: FilePath,
}

/// The staged paths after a click on the checkbox of `path`.
pub open spec fn after_toggle(staged: Set<PathView>, path: PathView) -> Set<PathView> {
    if staged.contains(path) {
        staged.remove(path)
    } else {
        staged.insert(path)
    }
}

/// The staged paths after git refused to stage `path`, or to unstage it.
pub open spec fn after_refusal(staged: Set<PathView>, path: PathView, stage: bool) -> Set<
    PathView,
> {
    if stage {
        staged.remove(path)
    } else {
        staged.insert(path)
    }
}

pub open spec fn refusal_text(stage: bool, err: Seq<char>) -> Seq<char> {
    "failed to "@ + (if stage {
        "stage"@
    } else {
        "unstage"@
    }) + ": "@ + err
}

/// Which path a hovered slot holds after the pointer came to `path` or left it.
pub open spec fn after_hover(slot: Option<PathView>, path: PathView, hovered: bool) -> Option<
    PathView,
> {
    if hovered {
        Some(path)
    } else if slot == Some(path) {
        None
    } else {
        slot
    }
}

/// A count of lines as a diffstat.
pub open spec fn stat_of(lines: Lines) -> DiffStat {
    DiffStat { added: lines.0 as usize, removed: lines.1 as usize }
}

/// The marks after `path` was marked as seen, or its mark taken off.
pub open spec fn after_seen_toggle(
    marks: Map<(PathView, PathView), DiffStat>,
    worktree: PathView,
    path: PathView,
    lines: Lines,
) -> Map<(PathView, PathView), DiffStat> {
    if seen_now(marks, worktree, path, lines) {
        marks.remove((worktree, path))
    } else {
        marks.insert((worktree, path), stat_of(lines))
    }
}

impl ChangesPanel {
    /// A click on the checkbox of `path`: the row flips at once, and git is
    /// asked to follow.
    pub fn toggle_staged(&mut self, path: FilePath) -> (request: StageRequest)
        ensures
            *final(self) == (ChangesPanel {
                staged_files: final(self).staged_files,
                row_error: None,
                ..*old(self)
            }),
            final(self).staged_files@ == after_toggle(old(self).staged_files@, path@),
            request.stage == !old(self).staged_files@.contains(path@),
            request.path.text() == path.text(),
            request.worktree.text() == old(self).diff_root.text(),
    {
        let stage = !self.staged_files.remove(&path);
        if stage {
            let _ = self.staged_files.insert(path.clone());
            assert(old(self).staged_files@.remove(path@) =~= old(self).staged_files@);
        }
        self.row_error = None;
        StageRequest { worktree: self.diff_root.clone(), path, stage }
    }

    /// Takes in what git said to a request. Where it refused, the row flips
    /// back and says why.
    pub fn finish_staging(&mut self, request: StageRequest, outcome: Result<(), String>)
        ensures
            outcome is Ok ==> *final(self) == *old(self),
            outcome matches Err(err) ==> {
                &&& *final(self) == (ChangesPanel {
                    staged_files: final(self).staged_files,
                    row_error: final(self).row_error,
                    ..*old(self)
                })
                &&& final(self).staged_files@ == after_refusal(
                    old(self).staged_files@,
                    request.path@,
                    request.stage,
                )
                &&& message_view(final(self).row_error) == Some(
                    (request.path.text(), refusal_text(request.stage, err@)),
                )
            },
    {
        match outcome {
            Ok(()) => {},
            Err(err) => {
                let verb = if request.stage {
                    let _ = self.staged_files.remove(&request.path);
                    "stage"
                } else {
                    let _ = self.staged_files.insert(request.path.clone());
                    "unstage"
                };
                let message = concat4("failed to ", verb, ": ", err.as_str());
                self.row_error = Some((request.path, message));
            },
        }
    }

    /// What git said when it last refused.
    pub fn row_error_message(&self) -> (message: Option<&str>)
        ensures
            message is Some == self.row_error is Some,
            message matches Some(text) ==> message_view(self.row_error) matches Some(shown)
                && shown.1 == text@,
    {
        match &self.row_error {
            Some((_, message)) => Some(message.as_str()),
            None => None,
        }
    }

    /// Takes the message about the last refusal off the panel.
    pub fn dismiss_row_error(&mut self)
        ensures
            *final(self) == (ChangesPanel { row_error: None, ..*old(self) }),
    {
        self.row_error = None;
    }

    /// Whether a path is one of the uncommitted changes.
    pub open spec fn is_uncommitted(self, path: PathView) -> bool {
        entry_paths(self.uncommitted_change_set@).contains(path)
    }

    /// The lines of the uncommitted change of `path`.
    pub open spec fn uncommitted_lines(self, path: PathView) -> Lines {
        let entries = self.uncommitted_change_set@;
        lines_of(entries[entry_paths(entries).index_of(path)].shares)
    }

    /// The open file, where it is one of the uncommitted changes.
    pub open spec fn open_uncommitted(self) -> Option<PathView> {
        match self.open_change {
            Some(path) => if self.is_uncommitted(path@) {
                Some(path@)
            } else {
                None
            },
            None => None,
        }
    }

    pub fn open_uncommitted_change(&self) -> (path: Option<&FilePath>)
        ensures
            path is Some == self.open_uncommitted() is Some,
            path matches Some(open) ==> self.open_uncommitted() == Some(open@)
                && path_text(self.open_change) == Some(open.text()),
    {
        match &self.open_change {
            Some(path) => match self.uncommitted_change_set.find(path) {
                Some(_) => Some(path),
                None => None,
            },
            None => None,
        }
    }

    /// Whether marking the open file as seen would do anything.
    pub fn change_seen_toggle_live(&self) -> (live: bool)
        ensures
            live == self.open_uncommitted() is Some,
    {
        self.open_uncommitted_change().is_some()
    }

    /// Whether staging the open file would do anything.
    pub fn change_stage_toggle_live(&self) -> (live: bool)
        ensures
            live == self.open_uncommitted() is Some,
    {
        self.open_uncommitted_change().is_some()
    }

    /// Marks the open file as seen, or takes the mark off where it carries one
    /// for the change that it has now. What is staged stays staged.
    pub fn handle_toggle_change_seen_action(&mut self)
        ensures
            old(self).open_uncommitted() is None ==> *final(self) == *old(self),
            *final(self) == (ChangesPanel { seen_files: final(self).seen_files, ..*old(self) }),
            old(self).open_uncommitted() matches Some(path) ==> final(self).seen_files@
                == after_seen_toggle(
                old(self).seen_files@,
                old(self).diff_root@,
                path,
                old(self).uncommitted_lines(path),
            ),
    {
        let path = match self.open_uncommitted_change() {
            Some(path) => path.clone(),
            None => {
                return ;
            },
        };
        let index = match self.uncommitted_change_set.find(&path) {
            Some(index) => index,
            None => {
                return ;
            },
        };
        let entries = self.uncommitted_change_set.entries();
        let stat = entries[index].stat();
        proof {
            let all = self.uncommitted_change_set@;
            let paths = entry_paths(all);
            assert(all[index as int] == entries@[index as int]@);
            assert(paths[index as int] == path@);
            assert(paths[paths.index_of(path@)] == path@);
            assert(stat.lines() == self.uncommitted_lines(path@));
            assert(stat == stat_of(stat.lines()));
        }
        if self.seen_files.is_seen(&self.diff_root, &path, stat) {
            self.seen_files.clear(&self.diff_root, &path);
        } else {
            self.seen_files.mark_seen(&self.diff_root, &path, stat);
        }
    }

    /// Stages the open file, or takes it out again. What was seen stays seen.
    pub fn handle_toggle_change_staged_action(&mut self) -> (request: Option<StageRequest>)
        ensures
            old(self).open_uncommitted() is None ==> *final(self) == *old(self) && request is None,
            old(self).open_uncommitted() matches Some(path) ==> {
                &&& *final(self) == (ChangesPanel {
                    staged_files: final(self).staged_files,
                    row_error: None,
                    ..*old(self)
                })
                &&& final(self).staged_files@ == after_toggle(old(self).staged_files@, path)
                &&& request matches Some(asked) && asked.stage
                    == !old(self).staged_files@.contains(path) && path_text(
                    old(self).open_change,
                ) == Some(asked.path.text()) && asked.worktree.text()
                    == old(self).diff_root.text()
            },
    {
        let path = match self.open_uncommitted_change() {
            Some(path) => path.clone(),
            None => {
                return None;
            },
        };
        Some(self.toggle_staged(path))
    }

    /// Whether a click on an author's chip has anything to act on: there are
    /// several agents, and one of the changed files shows an author.
    pub fn change_author_filter_live(&self, several_agents: bool, shows_author: &[bool]) -> (live:
        bool)
        ensures
            live == (several_agents && shows_author@.contains(true)),
    {
        if !several_agents {
            return false;
        }
        let mut i: usize = 0;
        while i < shows_author.len()
            invariant
                several_agents,
                i <= shows_author@.len(),
                forall|k: int| 0 <= k < i ==> !(#[trigger] shows_author@[k]),
            decreases shows_author@.len() - i,
        {
            if shows_author[i] {
                assert(shows_author@[i as int]);
                return true;
            }
            i += 1;
        }
        false
    }

    /// The diff behind the rows of a section that lists files.
    pub fn diff_for(&self, section: ChangesSection) -> (diff: Option<&WorktreeDiff>)
        ensures
            diff == match section {
                ChangesSection::Uncommitted => match self.uncommitted_diff {
                    ScopeLoad::Loaded(inner) => Some(&inner),
                    _ => None,
                },
                ChangesSection::AgainstMain => match self.branch_diff {
                    BranchDiff::Loaded(inner) => Some(&inner),
                    _ => None,
                },
                _ => None,
            },
    {
        match section {
            ChangesSection::Uncommitted => self.uncommitted_diff.loaded(),
            ChangesSection::AgainstMain => match &self.branch_diff {
                BranchDiff::Loaded(diff) => Some(diff),
                BranchDiff::Missing { .. } => None,
            },
            ChangesSection::Runs | ChangesSection::Commits => None,
        }
    }

    /// Whether the pointer is on `path`'s row or on the bar that floats over
    /// it.
    pub open spec fn hovers(self, path: PathView) -> bool {
        path_view(self.row_hover) == Some(path) || path_view(self.actions_hover) == Some(path)
    }

    /// Whether the file that is armed to be thrown away, if any, is under the
    /// pointer.
    pub open spec fn armed_is_hovered(self) -> bool {
        self.discard_armed matches Some(path) ==> self.hovers(path@)
    }

    /// Whether the pointer is on another row, or another bar, in `next`.
    pub open spec fn hover_differs(self, next: ChangesPanel) -> bool {
        ||| path_view(next.row_hover) != path_view(self.row_hover)
        ||| path_view(next.actions_hover) != path_view(self.actions_hover)
    }

    /// Whether `next` is this after the pointer came to `path`'s row, or to
    /// the bar over it, or left it.
    pub open spec fn hover_moved(
        self,
        next: ChangesPanel,
        path: PathView,
        hovered: bool,
        from_bar: bool,
    ) -> bool {
        &&& next == (ChangesPanel {
            row_hover: next.row_hover,
            actions_hover: next.actions_hover,
            discard_armed: next.discard_armed,
            ..self
        })
        &&& path_view(next.row_hover) == if from_bar {
            path_view(self.row_hover)
        } else {
            after_hover(path_view(self.row_hover), path, hovered)
        }
        &&& path_view(next.actions_hover) == if from_bar {
            after_hover(path_view(self.actions_hover), path, hovered)
        } else {
            path_view(self.actions_hover)
        }
        &&& path_view(next.discard_armed) == match self.discard_armed {
            Some(armed) if !self.hover_differs(next) || next.hovers(armed@) => Some(armed@),
            _ => None,
        }
    }

    /// Takes in that the pointer came to `path`'s row, or to the bar over it,
    /// or left it. An armed discard stays armed only while its own row is
    /// hovered. Says whether anything changed.
    pub fn set_change_row_hover(&mut self, path: &FilePath, hovered: bool, from_bar: bool)
        -> (changed: bool)
        ensures
            old(self).hover_moved(*final(self), path@, hovered, from_bar),
            changed == old(self).hover_differs(*final(self)),
    {
        let slot = if from_bar {
            clone_slot(&self.actions_hover)
        } else {
            clone_slot(&self.row_hover)
        };
        let here = holds(&slot, path);
        let changed = hovered != here;
        if !changed {
            return false;
        }
        let next = if hovered {
            Some(path.clone())
        } else {
            None
        };
        if from_bar {
            self.actions_hover = next;
        } else {
            self.row_hover = next;
        }
        let keep = match &self.discard_armed {
            Some(armed) => holds(&self.row_hover, armed) || holds(&self.actions_hover, armed),
            None => false,
        };
        if !keep {
            self.discard_armed = None;
        }
        true
    }

    /// The first click on a row's discard control: asks for a second one.
    pub fn arm_discard(&mut self, path: &FilePath)
        ensures
            *final(self) == (ChangesPanel {
                discard_armed: final(self).discard_armed,
                ..*old(self)
            }),
            path_view(final(self).discard_armed) == Some(path@),
    {
        self.discard_armed = Some(path.clone());
    }

    /// The second click: throws the file's changes away.
    pub fn discard_change_row(&mut self, path: FilePath) -> (request: DiscardRequest)
        ensures
            *final(self) == (ChangesPanel { discard_armed: None, row_error: None, ..*old(self) }),
            request.path.text() == path.text(),
            request.worktree.text() == old(self).diff_root.text(),
    {
        self.discard_armed = None;
        self.row_error = None;
        DiscardRequest { worktree: self.diff_root.clone(), path }
    }

    /// Takes in whether git threw the changes away. Says whether the diff has
    /// to be read again.
    pub fn finish_discard(&mut self, request: DiscardRequest, outcome: Result<(), String>)
        -> (reload: bool)
        ensures
            reload == outcome is Ok,
            outcome is Ok ==> *final(self) == *old(self),
            outcome matches Err(err) ==> {
                &&& *final(self) == (ChangesPanel {
                    row_error: final(self).row_error,
                    ..*old(self)
                })
                &&& message_view(final(self).row_error) == Some(
                    (request.path.text(), "failed to discard: "@ + err@),
                )
            },
    {
        match outcome {
            Ok(()) => true,
            Err(err) => {
                let mut message = "failed to discard: ".to_owned();
                message.append(err.as_str());
                self.row_error = Some((request.path, message));
                false
            },
        }
    }
}

/// Two clicks on one checkbox leave the staged paths as they were.
pub proof fn law_stage_twice(staged: Set<PathView>, path: PathView)
    ensures
        after_toggle(after_toggle(staged, path), path) == staged,
{
    assert(after_toggle(after_toggle(staged, path), path) =~= staged);
}

/// A click that git refuses leaves the staged paths as they were.
pub proof fn law_refused_staging_changes_nothing(staged: Set<PathView>, path: PathView)
    ensures
        after_refusal(after_toggle(staged, path), path, !staged.contains(path)) == staged,
{
    assert(after_refusal(after_toggle(staged, path), path, !staged.contains(path)) =~= staged);
}

/// A click on one row's checkbox touches no other row.
pub proof fn law_staging_touches_one_path(staged: Set<PathView>, path: PathView, other: PathView)
    requires
        path != other,
    ensures
        after_toggle(staged, path).contains(other) == staged.contains(other),
{
}

/// Each press of the key turns seen into unseen and back.
pub proof fn law_seen_toggle_flips(
    marks: Map<(PathView, PathView), DiffStat>,
    worktree: PathView,
    path: PathView,
    lines: Lines,
)
    requires
        fits(lines),
    ensures
        seen_now(after_seen_toggle(marks, worktree, path, lines), worktree, path, lines)
            == !seen_now(marks, worktree, path, lines),
{
}

/// Moving the pointer never leaves a file armed that is not under it: once the
/// pointer is off the row and its bar, the next click throws nothing away.
pub proof fn law_hover_disarms(
    before: ChangesPanel,
    after: ChangesPanel,
    path: PathView,
    hovered: bool,
    from_bar: bool,
)
    requires
        before.armed_is_hovered(),
        before.hover_moved(after, path, hovered, from_bar),
    ensures
        after.armed_is_hovered(),
{
}

} // verus!
