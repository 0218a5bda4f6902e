use vstd::prelude::*;
use vstd::string::*;

use crate::change_set::capped;
use crate::composer::CommitMenuAction;
use crate::panel::{ChangesPanel, HistoryOp};
use crate::path_set::given;
use crate::sections::ScopeLoad;
use crate::text::{blank, concat4, concat_text, decimal, decimal_text, is_blank};
use crate::theme::ThemeColor;

verus! {

/// What the commit button says.
#[derive(Clone, Copy, Debug, PartialEq, Eq, Structural)]
pub enum CommitLabel {
    /// A commit is on its way.
    Committing,
    /// How many files a click would commit.
    Commit { staged: usize },
}

impl CommitLabel {
    /// The text of the button while a commit is on its way; otherwise the text
    /// goes by how many files there are.
    pub fn busy_text(self) -> (text: Option<&'static str>)
        ensures
            text is Some == self is Committing,
            text matches Some(shown) ==> shown@ == "committing\u{2026}"@,
    {
        match self {
            CommitLabel::Committing => Some("committing\u{2026}"),
            CommitLabel::Commit { .. } => None,
        }
    }
}

/// The colours of the commit button.
#[derive(Clone, Copy, Debug, PartialEq, Eq, Structural)]
pub struct ButtonColors {
    pub background: ThemeColor,
    pub border: ThemeColor,
    pub text: ThemeColor,
}

/// The colours of the button: green where a click would do something now or
/// once the running operation has ended.
pub open spec fn button_colors(ready: bool) -> ButtonColors {
    if ready {
        ButtonColors {
            background: ThemeColor::ButtonGreen,
            border: ThemeColor::ButtonGreen,
            text: ThemeColor::ButtonGreenText,
        }
    } else {
        ButtonColors {
            background: ThemeColor::Transparent,
            border: ThemeColor::ButtonBorder,
            text: ThemeColor::TextFainter,
        }
    }
}

/// Everything that the commit composer shows.
pub struct ComposerElement {
    pub staged: usize,
    pub total: usize,
    /// How many of the files are staged, in words.
    pub progress: String,
    /// The staged lines; empty with nothing staged.
    pub stat: String,
    pub branch: String,
    pub message: String,
    pub label: CommitLabel,
    /// Whether a click on the button commits.
    pub can_commit: bool,
    pub colors: ButtonColors,
    pub progress_selector: String,
    pub stat_selector: String,
    pub branch_selector: String,
    pub message_selector: String,
}

/// One row of the menu beside the commit button.
pub struct CommitMenuRow {
    pub action: CommitMenuAction,
    /// Whether a click runs the action.
    pub enabled: bool,
    pub label: &'static str,
    /// What the action would do, or why it cannot run.
    pub sub: String,
    pub label_color: ThemeColor,
    pub id: String,
    pub selector: String,
}

impl CommitMenuRow {
    /// Whether this is the row of `action` over `panel`: enabled exactly where
    /// the action can run, and otherwise saying why it cannot.
    pub open spec fn shows(self, panel: ChangesPanel, action: CommitMenuAction) -> bool {
        &&& self.action == action
        &&& self.enabled == panel.obstacle(action) is None
        &&& self.label@ == action.label_text()
        &&& self.sub@ == match panel.obstacle(action) {
            None => action.hint_text(panel.branch_or_detached(), panel.uncommitted_file_count()),
            Some(reason) => reason,
        }
        &&& self.label_color == if self.enabled {
            ThemeColor::TextHeading
        } else {
            ThemeColor::TextGhoster
        }
        &&& self.id@ == "commit-menu-row-"@ + action.key_text()
        &&& self.selector@ == "commit-menu-row-"@ + action.key_text() + "-"@ + (if self.enabled {
            "enabled"@
        } else {
            "disabled"@
        })
    }
}

impl ChangesPanel {
    pub open spec fn branch_or_detached(self) -> Seq<char> {
        match self.branch() {
            Some(branch) => branch,
            None => "(detached)"@,
        }
    }

    pub open spec fn staged_stat_text(self) -> Seq<char> {
        if self.staged_uncommitted().len() > 0 {
            let lines = capped(self.staged_uncommitted_lines());
            "+"@ + decimal(lines.0) + " \u{2212}"@ + decimal(lines.1)
        } else {
            seq![]
        }
    }

    fn shown_branch(&self) -> (branch: String)
        ensures
            branch@ == self.branch_or_detached(),
    {
        match self.composer_branch() {
            Some(branch) => branch,
            None => "(detached)".to_owned(),
        }
    }

    fn uncommitted_files(&self) -> (count: usize)
        ensures
            count == self.uncommitted_file_count(),
    {
        match &self.uncommitted_diff {
            ScopeLoad::Loaded(diff) => diff.files.len(),
            ScopeLoad::Loading | ScopeLoad::Error(_) => 0,
        }
    }

    /// What the composer shows. Its count, its lines, its message and its
    /// button all go by the staged part of the uncommitted changes.
    pub fn commit_composer(&self) -> (composer: ComposerElement)
        ensures
            composer.staged == self.staged_uncommitted().len(),
            composer.total == self.uncommitted_file_count(),
            composer.progress@ == decimal(self.staged_uncommitted().len()) + " of "@ + decimal(
                self.uncommitted_file_count(),
            ) + " staged"@,
            composer.stat@ == self.staged_stat_text(),
            composer.branch@ == self.branch_or_detached(),
            composer.message@ == self.commit_message@,
            composer.label == if self.op_in_flight == Some(HistoryOp::Commit) {
                CommitLabel::Committing
            } else {
                CommitLabel::Commit { staged: composer.staged }
            },
            composer.can_commit == self.can_commit(),
            composer.colors == button_colors(
                self.staged_uncommitted().len() > 0 && !is_blank(self.commit_message@),
            ),
            composer.progress_selector@ == "commit-composer-progress-"@ + decimal(
                self.staged_uncommitted().len(),
            ) + "-of-"@ + decimal(self.uncommitted_file_count()),
            composer.stat_selector@ == "commit-composer-stat-"@ + self.staged_stat_text(),
            composer.branch_selector@ == "commit-composer-branch-"@ + self.branch_or_detached(),
            composer.message_selector@ == if self.commit_message@.len() == 0 {
                "commit-composer-message-empty"@
            } else {
                "commit-composer-message-"@ + self.commit_message@
            },
    {
        let staged: usize = match self.staged_uncommitted_paths() {
            Some(paths) => {
                assert(paths@.len() == given(paths@).len());
                paths.len()
            },
            None => 0,
        };
        let total = self.uncommitted_files();
        let lines = self.staged_stat();
        let stat = if staged > 0 {
            concat4(
                "+",
                decimal_text(lines.added as u64).as_str(),
                " \u{2212}",
                decimal_text(lines.removed as u64).as_str(),
            )
        } else {
            String::new()
        };
        let branch = self.shown_branch();
        let message = self.staged_commit_message();
        let ready = staged > 0 && !blank(message.as_str());
        let committing = match self.op_in_flight {
            Some(HistoryOp::Commit) => true,
            _ => false,
        };
        let staged_text = decimal_text(staged as u64);
        let total_text = decimal_text(total as u64);
        ComposerElement {
            staged,
            total,
            progress: concat4(staged_text.as_str(), " of ", total_text.as_str(), " staged"),
            label: if committing {
                CommitLabel::Committing
            } else {
                CommitLabel::Commit { staged }
            },
            can_commit: ready && self.op_in_flight.is_none(),
            colors: if ready {
                ButtonColors {
                    background: ThemeColor::ButtonGreen,
                    border: ThemeColor::ButtonGreen,
                    text: ThemeColor::ButtonGreenText,
                }
            } else {
                ButtonColors {
                    background: ThemeColor::Transparent,
                    border: ThemeColor::ButtonBorder,
                    text: ThemeColor::TextFainter,
                }
            },
            progress_selector: concat4(
                "commit-composer-progress-",
                staged_text.as_str(),
                "-of-",
                total_text.as_str(),
            ),
            stat_selector: concat_text("commit-composer-stat-", stat.as_str()),
            branch_selector: concat_text("commit-composer-branch-", branch.as_str()),
            message_selector: if message.as_str().is_empty() {
                "commit-composer-message-empty".to_owned()
            } else {
                concat_text("commit-composer-message-", message.as_str())
            },
            stat,
            branch,
            message,
        }
    }

    /// What one row of the menu shows.
    pub fn commit_menu_row(&self, action: CommitMenuAction) -> (row: CommitMenuRow)
        ensures
            row.shows(*self, action),
    {
        let branch = self.shown_branch();
        let hint = action.hint(branch.as_str(), self.uncommitted_files());
        let availability = self.commit_menu_availability(action);
        let enabled = availability.is_ok();
        let sub = match availability {
            Ok(()) => hint,
            Err(reason) => reason,
        };
        CommitMenuRow {
            action,
            enabled,
            label: action.label(),
            sub,
            label_color: if enabled {
                ThemeColor::TextHeading
            } else {
                ThemeColor::TextGhoster
            },
            id: concat_text("commit-menu-row-", action.key()),
            selector: concat4(
                "commit-menu-row-",
                action.key(),
                "-",
                if enabled {
                    "enabled"
                } else {
                    "disabled"
                },
            ),
        }
    }

    /// The rows of the menu, from top to bottom.
    pub fn commit_menu_rows(&self) -> (rows: Vec<CommitMenuRow>)
        ensures
            rows@.len() == 4,
            rows@[0].shows(*self, CommitMenuAction::CommitAndPush),
            rows@[1].shows(*self, CommitMenuAction::CommitAllFiles),
            rows@[2].shows(*self, CommitMenuAction::AmendLastCommit),
            rows@[3].shows(*self, CommitMenuAction::StashStaged),
    {
        let mut rows: Vec<CommitMenuRow> = Vec::new();
        rows.push(self.commit_menu_row(CommitMenuAction::CommitAndPush));
        rows.push(self.commit_menu_row(CommitMenuAction::CommitAllFiles));
        rows.push(self.commit_menu_row(CommitMenuAction::AmendLastCommit));
        rows.push(self.commit_menu_row(CommitMenuAction::StashStaged));
        rows
    }
}

} // verus!
