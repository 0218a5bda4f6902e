use vstd::prelude::*;
use vstd::string::*;

use crate::change_set::{lines_of, ChangeEntry, EntryView, FileChangeStatus};
use crate::panel::{BranchDiff, ChangesPanel, DiffFile};
use crate::path::{
    components, file_name, holds, parent, path_view, shown, text_joined, text_parent, FilePath,
    PathText, PathView,
};
use crate::section_view::{added_text, removed_text};
use crate::sections::{seen_now, ChangesSection, ScopeLoad};
use crate::text::{concat3, concat_text, decimal_text};
use crate::theme::ThemeColor;

verus! {

pub const SEEN_TOOLTIP: &'static str = "Seen since the agent last changed it \u{2014} V to unmark";

pub const UNSEEN_TOOLTIP: &'static str =
    "Not seen since the agent last changed it \u{2014} opening it marks it seen";

/// The letter for what git did to a file. A rename is a modification: that
/// the file moved is said beside it.
#[derive(Clone, Copy, Debug, PartialEq, Eq, Structural)]
pub enum StatusLetter {
    Added,
    Modified,
    Deleted,
}

pub open spec fn letter_of(status: FileChangeStatus) -> StatusLetter {
    match status {
        FileChangeStatus::Added => StatusLetter::Added,
        FileChangeStatus::Modified | FileChangeStatus::Renamed => StatusLetter::Modified,
        FileChangeStatus::Deleted => StatusLetter::Deleted,
    }
}

pub fn status_letter(status: FileChangeStatus) -> (letter: StatusLetter)
    ensures
        letter == letter_of(status),
{
    match status {
        FileChangeStatus::Added => StatusLetter::Added,
        FileChangeStatus::Modified | FileChangeStatus::Renamed => StatusLetter::Modified,
        FileChangeStatus::Deleted => StatusLetter::Deleted,
    }
}

impl StatusLetter {
    pub open spec fn glyph_text(self) -> Seq<char> {
        match self {
            StatusLetter::Added => "A"@,
            StatusLetter::Modified => "M"@,
            StatusLetter::Deleted => "D"@,
        }
    }

    pub fn glyph(self) -> (glyph: &'static str)
        ensures
            glyph@ == self.glyph_text(),
    {
        match self {
            StatusLetter::Added => "A",
            StatusLetter::Modified => "M",
            StatusLetter::Deleted => "D",
        }
    }
}

/// The directory of a path as text; empty where it has none.
pub open spec fn dir_text(path: PathText) -> Seq<char> {
    match parent(components(path)) {
        Some(_) => shown(text_parent(path)),
        None => seq![],
    }
}

/// What a path is called inside its directory.
pub open spec fn name_text(path: PathText) -> Seq<char> {
    match file_name(components(path)) {
        Some(name) => name,
        None => shown(path),
    }
}

/// Splits a path into its directory and its name.
pub fn split_dir_name(path: &FilePath) -> (parts: (String, String))
    ensures
        parts.0@ == dir_text(path.text()),
        parts.1@ == name_text(path.text()),
{
    let dir = match path.parent() {
        Some(above) => above.display(),
        None => String::new(),
    };
    let name = match path.file_name() {
        Some(name) => name,
        None => path.display(),
    };
    (dir, name)
}

/// Whether one of `files` is `path`, moved from elsewhere.
pub open spec fn moved_among(files: Seq<DiffFile>, path: PathView) -> bool {
    exists|i: int| 0 <= i < files.len() && (#[trigger] files[i]).path@ == path && files[i].renamed
}

/// Everything that the row of a changed file shows.
pub struct ChangeRowElement {
    pub path: FilePath,
    pub row_selector: String,
    pub edge_selector: String,
    pub dir_selector: String,
    pub letter_selector: String,
    pub name_selector: String,
    /// The checkbox, where the row can be staged, and whether it is checked.
    pub checkbox: Option<bool>,
    pub selected: bool,
    pub letter: StatusLetter,
    /// The directory with a slash behind it; empty where there is none.
    pub dir: String,
    pub name: String,
    pub seen: bool,
    pub name_color: ThemeColor,
    pub tooltip: Option<&'static str>,
    pub edge_color: ThemeColor,
    /// Whether the authors' chips are shown.
    pub chips: bool,
    /// Whether the file's change is already committed.
    pub committed: bool,
    pub renamed: bool,
    pub added: String,
    pub removed: String,
    /// Whether the bar with the row's actions floats over it.
    pub actions: bool,
    pub discard_armed: bool,
}

impl ChangesPanel {
    pub open spec fn row_prefix(section: ChangesSection) -> Seq<char> {
        if section is Uncommitted {
            "change-row"@
        } else {
            section.key_text() + "-row"@
        }
    }

    /// Whether the section's diff says that `path` was moved.
    pub open spec fn is_renamed(self, section: ChangesSection, path: PathView) -> bool {
        match section {
            ChangesSection::Uncommitted => self.uncommitted_diff matches ScopeLoad::Loaded(diff)
                && moved_among(diff.files@, path),
            ChangesSection::AgainstMain => self.branch_diff matches BranchDiff::Loaded(diff)
                && moved_among(diff.files@, path),
            _ => false,
        }
    }

    /// Whether a row of the branch's changes has nothing left to commit.
    pub open spec fn is_committed(self, section: ChangesSection, path: PathView) -> bool {
        section is AgainstMain && (self.dirty_files matches Some(dirty) && !dirty@.contains(path))
    }

    fn renamed_in(&self, section: ChangesSection, path: &FilePath) -> (renamed: bool)
        ensures
            renamed == self.is_renamed(section, path@),
    {
        let diff = match self.diff_for(section) {
            Some(diff) => diff,
            None => {
                return false;
            },
        };
        let mut i: usize = 0;
        while i < diff.files.len()
            invariant
                i <= diff.files.len(),
                self.is_renamed(section, path@) == moved_among(diff.files@, path@),
                forall|k: int|
                    0 <= k < i ==> !((#[trigger] diff.files@[k]).path@ == path@
                        && diff.files@[k].renamed),
            decreases diff.files.len() - i,
        {
            if diff.files[i].renamed && diff.files[i].path.same(path) {
                assert(diff.files@[i as int].path@ == path@);
                return true;
            }
            i += 1;
        }
        false
    }

    /// What the row of a changed file shows. The checkbox says what is staged
    /// and the name what was seen; neither says anything of the other.
    pub fn change_row_view(
        &self,
        entry: &ChangeEntry,
        section: ChangesSection,
        several_agents: bool,
    ) -> (row: ChangeRowElement)
        ensures
            row.shows(*self, entry@, section, several_agents),
    {
        let path = entry.path();
        let display = path.display();
        let stat = entry.stat();
        let stageable = section.has_checkboxes();
        let staged = self.staged_files.contains(path);
        let selected = holds(&self.open_change, path);
        let (dir, name) = split_dir_name(path);
        let letter = status_letter(entry.status());
        let committed = match &self.dirty_files {
            Some(dirty) => section == ChangesSection::AgainstMain && !dirty.contains(path),
            None => false,
        };
        let seen = stageable && self.seen_files.is_seen(&self.diff_root, path, stat);
        let renamed = self.renamed_in(section, path);
        let prefix = if stageable {
            "change-row".to_owned()
        } else {
            concat_text(section.key(), "-row")
        };
        let row_selector = concat3(prefix.as_str(), "-", display.as_str());
        let hovered = stageable && (holds(&self.row_hover, path) || holds(
            &self.actions_hover,
            path,
        ));
        ChangeRowElement {
            path: path.clone(),
            edge_selector: concat_text(row_selector.as_str(), "-selection-edge"),
            dir_selector: concat3(prefix.as_str(), "-dir-", display.as_str()),
            letter_selector: concat3(row_selector.as_str(), "-status-", letter.glyph()),
            name_selector: concat3(
                row_selector.as_str(),
                "-name-",
                if seen {
                    "seen"
                } else {
                    "unseen"
                },
            ),
            row_selector,
            checkbox: if stageable {
                Some(staged)
            } else {
                None
            },
            selected,
            letter,
            dir: if dir.as_str().is_empty() {
                dir
            } else {
                concat_text(dir.as_str(), "/")
            },
            name,
            seen,
            name_color: if !stageable {
                ThemeColor::TextDim
            } else if seen {
                ThemeColor::FilenameSeen
            } else {
                ThemeColor::FilenameUnseen
            },
            tooltip: if !stageable {
                None
            } else if seen {
                Some(SEEN_TOOLTIP)
            } else {
                Some(UNSEEN_TOOLTIP)
            },
            edge_color: if selected {
                ThemeColor::SelectedEdge
            } else {
                match section.edge_color() {
                    Some(color) => color,
                    None => ThemeColor::Transparent,
                }
            },
            chips: stageable && several_agents,
            committed,
            renamed,
            added: concat_text("+", decimal_text(stat.added as u64).as_str()),
            removed: concat_text("\u{2212}", decimal_text(stat.removed as u64).as_str()),
            actions: hovered,
            discard_armed: holds(&self.discard_armed, path),
        }
    }
}

impl ChangeRowElement {
    /// Whether this is the row of `entry` in `section` over `panel`.
    pub open spec fn shows(
        self,
        panel: ChangesPanel,
        entry: EntryView,
        section: ChangesSection,
        several_agents: bool,
    ) -> bool {
        let path = entry.at();
        let text = entry.path;
        let lines = lines_of(entry.shares);
        let stageable = section is Uncommitted;
        let prefix = ChangesPanel::row_prefix(section);
        let row = prefix + "-"@ + shown(text);
        &&& self.path.text() == text
        &&& self.row_selector@ == row
        &&& self.edge_selector@ == row + "-selection-edge"@
        &&& self.dir_selector@ == prefix + "-dir-"@ + shown(text)
        &&& self.letter_selector@ == row + "-status-"@ + letter_of(entry.status).glyph_text()
        &&& self.name_selector@ == row + "-name-"@ + (if self.seen {
            "seen"@
        } else {
            "unseen"@
        })
        &&& self.checkbox == if stageable {
            Some(panel.staged_files@.contains(path))
        } else {
            None
        }
        &&& self.selected == (path_view(panel.open_change) == Some(path))
        &&& self.letter == letter_of(entry.status)
        &&& self.dir@ == if dir_text(text).len() == 0 {
            dir_text(text)
        } else {
            dir_text(text) + "/"@
        }
        &&& self.name@ == name_text(text)
        &&& self.seen == (stageable && seen_now(
            panel.seen_files@,
            panel.diff_root@,
            path,
            lines,
        ))
        &&& self.name_color == if !stageable {
            ThemeColor::TextDim
        } else if self.seen {
            ThemeColor::FilenameSeen
        } else {
            ThemeColor::FilenameUnseen
        }
        &&& self.tooltip is None == !stageable
        &&& self.tooltip matches Some(text) ==> text@ == if self.seen {
            SEEN_TOOLTIP@
        } else {
            UNSEEN_TOOLTIP@
        }
        &&& self.edge_color == if self.selected {
            ThemeColor::SelectedEdge
        } else {
            match section.edge() {
                Some(color) => color,
                None => ThemeColor::Transparent,
            }
        }
        &&& self.chips == (stageable && several_agents)
        &&& self.committed == panel.is_committed(section, path)
        &&& self.renamed == panel.is_renamed(section, path)
        &&& self.added@ == added_text(lines.0)
        &&& self.removed@ == removed_text(lines.1)
        &&& self.actions == (stageable && panel.hovers(path))
        &&& self.discard_armed == (path_view(panel.discard_armed) == Some(path))
    }
}

/// The bar that floats over a hovered row.
pub struct RowActionsElement {
    pub bar_selector: String,
    pub editor_selector: String,
    pub editor_tooltip: &'static str,
    /// Where opening the editor leads.
    pub editor_path: FilePath,
    pub discard_selector: String,
    pub discard_tooltip: &'static str,
    pub discard_label: &'static str,
    /// What a click on the discard control does.
    pub discard_click: DiscardClick,
}

/// What a click on the discard control does.
#[derive(Clone, Copy, Debug, PartialEq, Eq, Structural)]
pub enum DiscardClick {
    /// Asks for a second click.
    Arm,
    /// Throws the file's changes away.
    Discard,
}

impl ChangesPanel {
    /// What the bar over `path`'s row shows. Its discard control throws
    /// nothing away before it was armed.
    pub fn change_row_actions_view(&self, path: &FilePath, armed: bool) -> (bar:
        RowActionsElement)
        ensures
            bar.bar_selector@ == "change-row-actions-"@ + shown(path.text()),
            bar.editor_selector@ == "change-row-open-in-editor-"@ + shown(path.text()),
            bar.editor_tooltip@ == "Open in the editor"@,
            bar.editor_path.text() == text_joined(self.diff_root.text(), path.text()),
            bar.discard_click == if armed {
                DiscardClick::Discard
            } else {
                DiscardClick::Arm
            },
            bar.discard_selector@ == (if armed {
                "change-row-discard-confirm-"@
            } else {
                "change-row-discard-"@
            }) + shown(path.text()),
            bar.discard_tooltip@ == if armed {
                "Click again to discard \u{2014} this cannot be undone"@
            } else {
                "Discard this file's changes"@
            },
            bar.discard_label@ == if armed {
                "Discard?"@
            } else {
                "\u{21ba}"@
            },
    {
        let display = path.display();
        RowActionsElement {
            bar_selector: concat_text("change-row-actions-", display.as_str()),
            editor_selector: concat_text("change-row-open-in-editor-", display.as_str()),
            editor_tooltip: "Open in the editor",
            editor_path: self.diff_root.join(path),
            discard_selector: if armed {
                concat_text("change-row-discard-confirm-", display.as_str())
            } else {
                concat_text("change-row-discard-", display.as_str())
            },
            discard_tooltip: if armed {
                "Click again to discard \u{2014} this cannot be undone"
            } else {
                "Discard this file's changes"
            },
            discard_label: if armed {
                "Discard?"
            } else {
                "\u{21ba}"
            },
            discard_click: if armed {
                DiscardClick::Discard
            } else {
                DiscardClick::Arm
            },
        }
    }
}

/// The checkbox of a row.
pub struct CheckboxElement {
    pub selector: String,
    pub checked: bool,
    pub glyph: &'static str,
    pub background: ThemeColor,
    pub border: ThemeColor,
}

/// What the checkbox of a row shows.
pub fn staging_checkbox_view(path: &FilePath, checked: bool) -> (checkbox: CheckboxElement)
    ensures
        checkbox.selector@ == "stage-checkbox-"@ + shown(path.text()),
        checkbox.checked == checked,
        checkbox.glyph@ == if checked {
            "\u{2713}"@
        } else {
            ""@
        },
        checkbox.background == if checked {
            ThemeColor::ButtonGreen
        } else {
            ThemeColor::Transparent
        },
        checkbox.border == if checked {
            ThemeColor::ToggleOn
        } else {
            ThemeColor::ButtonBorder
        },
{
    CheckboxElement {
        selector: concat_text("stage-checkbox-", path.display().as_str()),
        checked,
        glyph: if checked {
            "\u{2713}"
        } else {
            ""
        },
        background: if checked {
            ThemeColor::ButtonGreen
        } else {
            ThemeColor::Transparent
        },
        border: if checked {
            ThemeColor::ToggleOn
        } else {
            ThemeColor::ButtonBorder
        },
    }
}

/// What was seen never shows in the checkbox, and what is staged never shows
/// in the name: two panels that agree on one show it alike, however they
/// differ in the other.
pub proof fn law_seen_and_staged_are_independent(
    panel: ChangesPanel,
    other: ChangesPanel,
    row: ChangeRowElement,
    other_row: ChangeRowElement,
    entry: EntryView,
    several_agents: bool,
)
    requires
        row.shows(panel, entry, ChangesSection::Uncommitted, several_agents),
        other_row.shows(other, entry, ChangesSection::Uncommitted, several_agents),
    ensures
        panel.staged_files@ == other.staged_files@ ==> row.checkbox == other_row.checkbox,
        panel.seen_files@ == other.seen_files@ && panel.diff_root@ == other.diff_root@ ==> {
            &&& row.seen == other_row.seen
            &&& row.name_color == other_row.name_color
            &&& row.name_selector@ == other_row.name_selector@
        },
{
}

/// Only rows of the uncommitted changes can be staged, and only they carry
/// the bar with the control that throws changes away.
pub proof fn law_only_uncommitted_rows_stage(
    panel: ChangesPanel,
    row: ChangeRowElement,
    entry: EntryView,
    section: ChangesSection,
    several_agents: bool,
)
    requires
        row.shows(panel, entry, section, several_agents),
    ensures
        row.checkbox is Some <==> section is Uncommitted,
        row.actions ==> section is Uncommitted,
{
}

} // verus!
