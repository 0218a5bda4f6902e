use vstd::prelude::*;
use vstd::string::*;

use crate::panel::ChangesPanel;
use crate::sections::{
    section_diffstat, seen_label, seen_text, BranchCommit, ChangesSection, NoteEmphasis, RunRow,
    SectionHeader, SectionRow,
};
use crate::text::{concat3, concat4, concat_text, decimal, decimal_text};
use crate::theme::ThemeColor;

verus! {

/// The counter of a header: how many files were seen.
pub struct SeenMeter {
    pub label: String,
    pub seen: usize,
    pub total: usize,
    pub selector: String,
}

/// Everything that a section's header shows.
pub struct HeaderElement {
    pub section: ChangesSection,
    pub id: String,
    pub selector: String,
    pub stat_selector: String,
    /// Whether the caret points down.
    pub open: bool,
    pub label: String,
    pub count: String,
    pub seen: Option<SeenMeter>,
    /// The added and the removed lines; nothing where nothing changed.
    pub stat: Option<(String, String)>,
}

pub open spec fn added_text(added: nat) -> Seq<char> {
    "+"@ + decimal(added)
}

pub open spec fn removed_text(removed: nat) -> Seq<char> {
    "\u{2212}"@ + decimal(removed)
}

pub open spec fn header_id(section: ChangesSection) -> Seq<char> {
    "changes-section-"@ + section.key_text()
}

impl HeaderElement {
    pub open spec fn shows(self, header: SectionHeader) -> bool {
        let id = header_id(header.section);
        let empty = header.stat.added == 0 && header.stat.removed == 0;
        let added = added_text(header.stat.added as nat);
        let removed = removed_text(header.stat.removed as nat);
        &&& self.section == header.section
        &&& self.open == header.open
        &&& self.label@ == header.label@
        &&& self.count@ == decimal(header.count as nat)
        &&& self.id@ == id
        &&& self.selector@ == id + "-"@ + decimal(header.count as nat) + (if header.open {
            "-open"@
        } else {
            "-collapsed"@
        })
        &&& self.stat_selector@ == if empty {
            id + "-stat-empty"@
        } else {
            id + "-stat-"@ + added + "-"@ + removed
        }
        &&& self.stat is None == empty
        &&& self.stat matches Some(halves) ==> halves.0@ == added && halves.1@ == removed
        &&& self.seen is Some == (header.seen matches Some(counter) && counter.1 != 0)
        &&& self.seen matches Some(meter) ==> header.seen matches Some(counter) && {
            &&& meter.seen == counter.0
            &&& meter.total == counter.1
            &&& meter.label@ == seen_text(counter.0 as nat, counter.1 as nat)
            &&& meter.selector@ == "changes-section-uncommitted-"@ + decimal(counter.0 as nat)
                + "-of-"@ + decimal(counter.1 as nat) + "-seen"@
        }
    }
}

/// What a section's header shows.
pub fn section_header_view(header: &SectionHeader) -> (element: HeaderElement)
    ensures
        element.shows(*header),
{
    let id = concat_text("changes-section-", header.section.key());
    let count = decimal_text(header.count as u64);
    let stat = section_diffstat(header.stat);
    let stat_selector = match &stat {
        Some((added, removed)) => {
            let mut selector = concat4(id.as_str(), "-stat-", added.as_str(), "-");
            selector.append(removed.as_str());
            selector
        },
        None => concat_text(id.as_str(), "-stat-empty"),
    };
    let seen = match header.seen {
        Some((seen, total)) => match seen_label(seen, total) {
            Some(label) => {
                let mut selector = concat4(
                    "changes-section-uncommitted-",
                    decimal_text(seen as u64).as_str(),
                    "-of-",
                    decimal_text(total as u64).as_str(),
                );
                selector.append("-seen");
                Some(SeenMeter { label, seen, total, selector })
            },
            None => None,
        },
        None => None,
    };
    HeaderElement {
        section: header.section,
        selector: concat4(
            id.as_str(),
            "-",
            count.as_str(),
            if header.open {
                "-open"
            } else {
                "-collapsed"
            },
        ),
        stat_selector,
        open: header.open,
        label: header.label.clone(),
        count,
        seen,
        stat,
        id,
    }
}

/// Everything that the row of a run shows. It never has a checkbox: a run is
/// nothing that can be staged.
pub struct RunElement {
    pub agent_id: u64,
    pub id: String,
    pub selector: String,
    pub stat_selector: String,
    /// The row's left edge: the tint of its agent.
    pub edge: u32,
    pub chip_text: u32,
    pub chip_background: u32,
    pub initial: &'static str,
    pub title: String,
    pub meta: String,
    pub meta_color: ThemeColor,
    pub files_label: String,
    pub added: String,
    pub removed: String,
}

impl RunElement {
    pub open spec fn shows(self, run: RunRow) -> bool {
        let agent = decimal(run.agent_id as nat);
        let added = added_text(run.stat.added as nat);
        let removed = removed_text(run.stat.removed as nat);
        &&& self.agent_id == run.agent_id
        &&& self.id@ == "changes-run-row-"@ + agent
        &&& self.selector@ == "changes-run-"@ + agent
        &&& self.stat_selector@ == "changes-run-"@ + agent + "-stat-"@ + added + "-"@ + removed
        &&& self.edge == run.tint_fg
        &&& self.chip_text == run.tint_fg
        &&& self.chip_background == run.tint_bg
        &&& self.initial@ == run.initial@
        &&& self.title@ == run.title@
        &&& self.meta@ == run.meta@
        &&& self.meta_color == if run.live {
            ThemeColor::RunMetaLive
        } else {
            ThemeColor::RunMetaEnded
        }
        &&& self.files_label@ == run.files_label@
        &&& self.added@ == added
        &&& self.removed@ == removed
    }
}

/// What the row of a run shows.
pub fn run_row_view(run: &RunRow) -> (element: RunElement)
    ensures
        element.shows(*run),
{
    let agent = decimal_text(run.agent_id);
    let added = concat_text("+", decimal_text(run.stat.added as u64).as_str());
    let removed = concat_text("\u{2212}", decimal_text(run.stat.removed as u64).as_str());
    let mut stat_selector = concat4("changes-run-", agent.as_str(), "-stat-", added.as_str());
    stat_selector.append("-");
    stat_selector.append(removed.as_str());
    RunElement {
        agent_id: run.agent_id,
        id: concat_text("changes-run-row-", agent.as_str()),
        selector: concat_text("changes-run-", agent.as_str()),
        stat_selector,
        edge: run.tint_fg,
        chip_text: run.tint_fg,
        chip_background: run.tint_bg,
        initial: run.initial,
        title: run.title.clone(),
        meta: run.meta.clone(),
        meta_color: run.meta_color(),
        files_label: run.files_label.clone(),
        added,
        removed,
    }
}

/// Everything that the row of a commit shows.
pub struct CommitElement {
    pub selector: String,
    pub short_id: String,
    pub subject: String,
    pub added: String,
    pub removed: String,
}

/// What the row of a commit shows.
pub fn commit_row_view(commit: &BranchCommit) -> (element: CommitElement)
    ensures
        element.selector@ == "changes-commit-"@ + commit.short_id@,
        element.short_id@ == commit.short_id@,
        element.subject@ == commit.subject@,
        element.added@ == added_text(commit.added as nat),
        element.removed@ == removed_text(commit.removed as nat),
{
    CommitElement {
        selector: concat_text("changes-commit-", commit.short_id.as_str()),
        short_id: commit.short_id.clone(),
        subject: commit.subject.clone(),
        added: concat_text("+", decimal_text(commit.added as u64).as_str()),
        removed: concat_text("\u{2212}", decimal_text(commit.removed as u64).as_str()),
    }
}

/// The selector of the card that says what would land.
pub fn context_selector(text: &str) -> (selector: String)
    ensures
        selector@ == "changes-against-main-context-"@ + text@,
{
    concat_text("changes-against-main-context-", text)
}

/// The selector of a section's message.
pub fn note_selector(section: ChangesSection) -> (selector: String)
    ensures
        selector@ == "changes-section-"@ + section.key_text() + "-note"@,
{
    concat3("changes-section-", section.key(), "-note")
}

/// What a row of the panel is drawn as.
pub enum SectionElement {
    Header(HeaderElement),
    Run(RunElement),
    /// The uncommitted file at this index.
    File(usize),
    Commit(CommitElement),
    Context { selector: String, text: String, sub: String },
    Note { selector: String, text: String, color: ThemeColor },
    /// Nothing: the file that the row stood for is gone.
    Nothing,
}

impl ChangesPanel {
    /// What `row` is drawn as. The row list may be older than the changes, so
    /// a file's index is looked up anew.
    pub fn section_row_view(&self, row: &SectionRow) -> (element: SectionElement)
        ensures
            match (*row, element) {
                (SectionRow::Header(header), SectionElement::Header(drawn)) => drawn.shows(header),
                (SectionRow::Run(run), SectionElement::Run(drawn)) => drawn.shows(run),
                (SectionRow::UncommittedFile(index), SectionElement::File(shown)) => index == shown
                    && index < self.uncommitted_change_set@.len(),
                (SectionRow::UncommittedFile(index), SectionElement::Nothing) => index
                    >= self.uncommitted_change_set@.len(),
                (SectionRow::Commit(commit), SectionElement::Commit(drawn)) => {
                    &&& drawn.selector@ == "changes-commit-"@ + commit.short_id@
                    &&& drawn.short_id@ == commit.short_id@
                    &&& drawn.subject@ == commit.subject@
                    &&& drawn.added@ == added_text(commit.added as nat)
                    &&& drawn.removed@ == removed_text(commit.removed as nat)
                },
                (
                    SectionRow::AgainstMainContext { text, sub },
                    SectionElement::Context { selector, text: shown, sub: below },
                ) => {
                    &&& selector@ == "changes-against-main-context-"@ + text@
                    &&& shown@ == text@
                    &&& below@ == sub@
                },
                (
                    SectionRow::Note { section, text, emphasis },
                    SectionElement::Note { selector, text: shown, color },
                ) => {
                    &&& selector@ == "changes-section-"@ + section.key_text() + "-note"@
                    &&& shown@ == text@
                    &&& color == match emphasis {
                        NoteEmphasis::Quiet => ThemeColor::TextFaint,
                        NoteEmphasis::Warning => ThemeColor::StatusAsk,
                    }
                },
                _ => false,
            },
    {
        match row {
            SectionRow::Header(header) => SectionElement::Header(section_header_view(header)),
            SectionRow::Run(run) => SectionElement::Run(run_row_view(run)),
            SectionRow::UncommittedFile(index) => if *index < self.uncommitted_change_set.len() {
                SectionElement::File(*index)
            } else {
                SectionElement::Nothing
            },
            SectionRow::Commit(commit) => SectionElement::Commit(commit_row_view(commit)),
            SectionRow::AgainstMainContext { text, sub } => SectionElement::Context {
                selector: context_selector(text.as_str()),
                text: text.clone(),
                sub: sub.clone(),
            },
            SectionRow::Note { section, text, emphasis } => SectionElement::Note {
                selector: note_selector(*section),
                text: text.clone(),
                color: emphasis.color(),
            },
        }
    }
}

} // verus!
