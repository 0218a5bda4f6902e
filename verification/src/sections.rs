use vstd::prelude::*;
use vstd::string::*;

use crate::change_set::{
    all_shares, entry_views, lines_by, lines_of, paths_by, AgentKey, Author, AuthorView, ChangeSet,
    DiffStat, EntryView, Lines,
};
use crate::path::{components, file_name, shown, FilePath, PathText, PathView};
use crate::path_set::given;
use crate::table::{Table, WorktreePath};
use crate::text::{
    concat_text, count_text, counted, decimal, decimal_text, elapsed, elapsed_text, join_text,
    joined, texts, uppercase, uppercase_text,
};
use crate::theme::ThemeColor;

verus! {

/// A scope that is read in the background: not yet, with its value, or with
/// the reason why it could not be read.
#[derive(Debug)]
pub enum ScopeLoad<T> {
    Loading,
    Loaded(T),
    Error(String),
}

impl<T> Default for ScopeLoad<T> {
    fn default() -> (scope: ScopeLoad<T>)
        ensures
            scope is Loading,
    {
        ScopeLoad::Loading
    }
}

impl<T> ScopeLoad<T> {
    pub fn loaded(&self) -> (value: Option<&T>)
        ensures
            value == match *self {
                ScopeLoad::Loaded(inner) => Some(&inner),
                _ => None,
            },
    {
        match self {
            ScopeLoad::Loaded(value) => Some(value),
            ScopeLoad::Loading | ScopeLoad::Error(_) => None,
        }
    }

    pub fn error(&self) -> (message: Option<&str>)
        ensures
            message is Some == self is Error,
            message matches Some(text) ==> text@ == self->Error_0@,
    {
        match self {
            ScopeLoad::Error(message) => Some(message.as_str()),
            ScopeLoad::Loading | ScopeLoad::Loaded(_) => None,
        }
    }
}

/// One of the four sections of the Changes panel.
#[derive(Clone, Copy, Debug, PartialEq, Eq, PartialOrd, Ord, Hash, Structural)]
pub enum ChangesSection {
    Uncommitted,
    Commits,
    AgainstMain,
    Runs,
}

/// A text that may be missing, by its view.
pub open spec fn text_view(text: Option<&str>) -> Option<Seq<char>> {
    match text {
        Some(inner) => Some(inner@),
        None => None,
    }
}

impl ChangesSection {
    /// The sections from top to bottom: three of git's state, from the
    /// narrowest to the widest, then the same changes by author.
    pub const ORDER: [ChangesSection; 4] = [
        ChangesSection::Uncommitted,
        ChangesSection::Commits,
        ChangesSection::AgainstMain,
        ChangesSection::Runs,
    ];

    pub open spec fn key_text(self) -> Seq<char> {
        match self {
            ChangesSection::Runs => "runs"@,
            ChangesSection::Uncommitted => "uncommitted"@,
            ChangesSection::Commits => "commits"@,
            ChangesSection::AgainstMain => "against-main"@,
        }
    }

    /// The identifier that the section's state is filed under.
    pub fn key(self) -> (key: &'static str)
        ensures
            key@ == self.key_text(),
    {
        match self {
            ChangesSection::Runs => "runs",
            ChangesSection::Uncommitted => "uncommitted",
            ChangesSection::Commits => "commits",
            ChangesSection::AgainstMain => "against-main",
        }
    }

    pub open spec fn label_text(self, base_branch: Option<Seq<char>>) -> Seq<char> {
        match self {
            ChangesSection::Runs => "RUNS"@,
            ChangesSection::Uncommitted => "UNCOMMITTED"@,
            ChangesSection::Commits => "COMMITS"@,
            ChangesSection::AgainstMain => match base_branch {
                Some(base) => "AGAINST "@ + uppercase(base),
                None => "AGAINST BASE"@,
            },
        }
    }

    /// The header's label. One of them names the base branch, where git found
    /// one.
    pub fn label(self, base_branch: Option<&str>) -> (label: String)
        ensures
            label@ == self.label_text(text_view(base_branch)),
    {
        match self {
            ChangesSection::Runs => "RUNS".to_owned(),
            ChangesSection::Uncommitted => "UNCOMMITTED".to_owned(),
            ChangesSection::Commits => "COMMITS".to_owned(),
            ChangesSection::AgainstMain => match base_branch {
                Some(base) => concat_text("AGAINST ", uppercase_text(base).as_str()),
                None => "AGAINST BASE".to_owned(),
            },
        }
    }

    pub open spec fn opens_first(self) -> bool {
        self is Runs || self is Uncommitted
    }

    /// Whether the section is open before anyone has opened or closed it.
    pub fn starts_open(self) -> (open: bool)
        ensures
            open == self.opens_first(),
    {
        match self {
            ChangesSection::Runs | ChangesSection::Uncommitted => true,
            ChangesSection::Commits | ChangesSection::AgainstMain => false,
        }
    }

    pub open spec fn edge(self) -> Option<ThemeColor> {
        match self {
            ChangesSection::Runs => None,
            ChangesSection::Uncommitted => Some(ThemeColor::EdgeUncommitted),
            ChangesSection::Commits => Some(ThemeColor::EdgeNeutral),
            ChangesSection::AgainstMain => Some(ThemeColor::EdgeAgainstMain),
        }
    }

    /// The colour of the section's left edge.
    pub fn edge_color(self) -> (color: Option<ThemeColor>)
        ensures
            color == self.edge(),
    {
        match self {
            ChangesSection::Runs => None,
            ChangesSection::Uncommitted => Some(ThemeColor::EdgeUncommitted),
            ChangesSection::Commits => Some(ThemeColor::EdgeNeutral),
            ChangesSection::AgainstMain => Some(ThemeColor::EdgeAgainstMain),
        }
    }

    /// Whether the section's rows carry a checkbox that stages.
    pub fn has_checkboxes(self) -> (stages: bool)
        ensures
            stages == self is Uncommitted,
    {
        matches!(self, ChangesSection::Uncommitted)
    }
}

/// Which sections are open.
#[derive(Debug)]
pub struct SectionCollapse {
    uncommitted: Option<bool>,
    commits: Option<bool>,
    against_main: Option<bool>,
    runs: Option<bool>,
}

impl Default for SectionCollapse {
    fn default() -> (collapse: SectionCollapse)
        ensures
            forall|section: ChangesSection| #[trigger]
                collapse.open(section) == section.opens_first(),
    {
        SectionCollapse { uncommitted: None, commits: None, against_main: None, runs: None }
    }
}

impl SectionCollapse {
    spec fn choice(self, section: ChangesSection) -> Option<bool> {
        match section {
            ChangesSection::Uncommitted => self.uncommitted,
            ChangesSection::Commits => self.commits,
            ChangesSection::AgainstMain => self.against_main,
            ChangesSection::Runs => self.runs,
        }
    }

    /// Whether `section` is open.
    pub closed spec fn open(self, section: ChangesSection) -> bool {
        match self.choice(section) {
            Some(open) => open,
            None => section.opens_first(),
        }
    }

    pub fn is_open(&self, section: ChangesSection) -> (open: bool)
        ensures
            open == self.open(section),
    {
        let choice = match section {
            ChangesSection::Uncommitted => self.uncommitted,
            ChangesSection::Commits => self.commits,
            ChangesSection::AgainstMain => self.against_main,
            ChangesSection::Runs => self.runs,
        };
        match choice {
            Some(open) => open,
            None => section.starts_open(),
        }
    }

    /// Whether `next` is this with `section` opened or closed.
    pub open spec fn toggled(self, next: SectionCollapse, section: ChangesSection) -> bool {
        forall|other: ChangesSection| #[trigger]
            next.open(other) == if other == section {
                !self.open(other)
            } else {
                self.open(other)
            }
    }

    /// Opens `section` where it is closed, closes it where it is open, and
    /// leaves the others as they are.
    pub fn toggle(&mut self, section: ChangesSection)
        ensures
            old(self).toggled(*final(self), section),
    {
        let next = !self.is_open(section);
        match section {
            ChangesSection::Uncommitted => {
                self.uncommitted = Some(next);
            },
            ChangesSection::Commits => {
                self.commits = Some(next);
            },
            ChangesSection::AgainstMain => {
                self.against_main = Some(next);
            },
            ChangesSection::Runs => {
                self.runs = Some(next);
            },
        }
    }
}

/// Opening and closing a section leaves every section as it was.
pub proof fn law_toggle_twice(
    first: SectionCollapse,
    second: SectionCollapse,
    third: SectionCollapse,
    section: ChangesSection,
)
    requires
        first.toggled(second, section),
        second.toggled(third, section),
    ensures
        forall|other: ChangesSection| #[trigger] third.open(other) == first.open(other),
{
    assert forall|other: ChangesSection| #[trigger] third.open(other) == first.open(other) by {
        assert(second.open(other) == if other == section {
            !first.open(other)
        } else {
            first.open(other)
        });
    }
}

/// What the Runs section needs to know of one agent.
#[derive(Debug)]
pub struct RunSource {
    pub agent_id: u64,
    /// The identity that the agent's lines are filed under.
    pub agent_key: AgentKey,
    pub agent_label: String,
    /// The letter on the agent's chip.
    pub initial: &'static str,
    /// The chip's foreground and background, as packed colours.
    pub tint: (u32, u32),
    /// Whether the agent's process is still alive.
    pub live: bool,
    /// Seconds since the run began, or since it ended.
    pub elapsed: u64,
}

pub struct RunSourceView {
    pub agent_id: u64,
    pub author: AuthorView,
    pub agent_label: Seq<char>,
    pub initial: Seq<char>,
    pub tint: (u32, u32),
    pub live: bool,
    pub elapsed: nat,
}

impl View for RunSource {
    type V = RunSourceView;

    open spec fn view(&self) -> RunSourceView {
        RunSourceView {
            agent_id: self.agent_id,
            author: AuthorView::Agent(self.agent_key.key@),
            agent_label: self.agent_label@,
            initial: self.initial@,
            tint: self.tint,
            live: self.live,
            elapsed: self.elapsed as nat,
        }
    }
}

pub open spec fn source_views(sources: Seq<RunSource>) -> Seq<RunSourceView> {
    sources.map_values(|source: RunSource| source@)
}

/// One row of the Runs section.
#[derive(Debug)]
pub struct RunRow {
    pub agent_id: u64,
    pub title: String,
    pub meta: String,
    pub files_label: String,
    pub initial: &'static str,
    pub tint_fg: u32,
    pub tint_bg: u32,
    pub live: bool,
    pub stat: DiffStat,
}

pub struct RunRowView {
    pub agent_id: u64,
    pub title: Seq<char>,
    pub meta: Seq<char>,
    pub files_label: Seq<char>,
    pub initial: Seq<char>,
    pub tint_fg: u32,
    pub tint_bg: u32,
    pub live: bool,
    pub stat: Lines,
}

impl View for RunRow {
    type V = RunRowView;

    open spec fn view(&self) -> RunRowView {
        RunRowView {
            agent_id: self.agent_id,
            title: self.title@,
            meta: self.meta@,
            files_label: self.files_label@,
            initial: self.initial@,
            tint_fg: self.tint_fg,
            tint_bg: self.tint_bg,
            live: self.live,
            stat: self.stat.lines(),
        }
    }
}

impl RunRow {
    /// The colour of the second line: warm while the run is alive.
    pub fn meta_color(&self) -> (color: ThemeColor)
        ensures
            color == if self.live {
                ThemeColor::RunMetaLive
            } else {
                ThemeColor::RunMetaEnded
            },
    {
        if self.live {
            ThemeColor::RunMetaLive
        } else {
            ThemeColor::RunMetaEnded
        }
    }
}

/// The row of one run over the changes `entries`.
pub open spec fn run_row(source: RunSourceView, entries: Seq<EntryView>) -> RunRowView {
    let paths = paths_by(entries, source.author);
    RunRowView {
        agent_id: source.agent_id,
        title: title_text(paths),
        meta: meta_text(source.agent_label, source.live, source.elapsed),
        files_label: counted(paths.len(), "file"@),
        initial: source.initial,
        tint_fg: source.tint.0,
        tint_bg: source.tint.1,
        live: source.live,
        stat: lines_by(all_shares(entries), source.author),
    }
}

pub open spec fn run_row_views(sources: Seq<RunSourceView>, entries: Seq<EntryView>) -> Seq<
    RunRowView,
> {
    sources.map_values(|source: RunSourceView| run_row(source, entries))
}

/// One row for each run, with the part of the uncommitted changes that its
/// agent wrote.
pub fn run_rows(sources: &[RunSource], change_set: &ChangeSet) -> (rows: Vec<RunRow>)
    ensures
        rows@.map_values(|row: RunRow| row@) == run_row_views(source_views(sources@), change_set@),
{
    let ghost wanted = run_row_views(source_views(sources@), change_set@);
    let mut rows: Vec<RunRow> = Vec::new();
    let mut i: usize = 0;
    while i < sources.len()
        invariant
            i <= sources@.len(),
            wanted == run_row_views(source_views(sources@), change_set@),
            rows@.map_values(|row: RunRow| row@) == wanted.take(i as int),
        decreases sources@.len() - i,
    {
        let ghost before = rows@;
        let source = &sources[i];
        let author = Author::Agent(AgentKey::new(source.agent_key.key.as_str()));
        let paths = change_set.paths_for(&author);
        let row = RunRow {
            agent_id: source.agent_id,
            title: run_title(paths.as_slice()),
            meta: run_meta(source.agent_label.as_str(), source.live, source.elapsed),
            files_label: count_text(paths.len(), "file"),
            initial: source.initial,
            tint_fg: source.tint.0,
            tint_bg: source.tint.1,
            live: source.live,
            stat: change_set.split_for(&author),
        };
        assert(paths@.len() == given(paths@).len());
        assert(row@ == run_row(source@, change_set@));
        assert(wanted[i as int] == run_row(source_views(sources@)[i as int], change_set@));
        rows.push(row);
        assert(rows@.map_values(|row: RunRow| row@) =~= before.map_values(|row: RunRow| row@).push(
            row@,
        ));
        assert(rows@.map_values(|row: RunRow| row@) =~= wanted.take(i + 1));
        i += 1;
    }
    assert(wanted.take(i as int) =~= wanted);
    rows
}

/// What a path is called in a title.
pub open spec fn short_name(path: PathText) -> Seq<char> {
    match file_name(components(path)) {
        Some(name) => name,
        None => shown(path),
    }
}

pub open spec fn short_names(paths: Seq<PathText>) -> Seq<Seq<char>> {
    paths.map_values(|path: PathText| short_name(path))
}

pub open spec fn title_text(paths: Seq<PathText>) -> Seq<char> {
    if paths.len() == 0 {
        "no files yet"@
    } else if paths.len() <= 2 {
        joined(short_names(paths), ", "@)
    } else {
        joined(short_names(paths.take(2)), ", "@) + " and "@ + decimal((paths.len() - 2) as nat)
            + " more"@
    }
}

/// The title of a run: the first two files that it wrote, and how many more
/// there are.
pub fn run_title(paths: &[FilePath]) -> (title: String)
    ensures
        title@ == title_text(given(paths@)),
{
    if paths.len() == 0 {
        return "no files yet".to_owned();
    }
    let count: usize = if paths.len() > 2 {
        2
    } else {
        paths.len()
    };
    let ghost all = given(paths@);
    let mut names: Vec<String> = Vec::new();
    let mut i: usize = 0;
    while i < count
        invariant
            i <= count <= paths@.len(),
            all == given(paths@),
            texts(names@) == short_names(all.take(i as int)),
        decreases count - i,
    {
        let ghost before = texts(names@);
        let name = match paths[i].file_name() {
            Some(name) => name,
            None => paths[i].display(),
        };
        assert(all[i as int] == paths@[i as int].text());
        names.push(name);
        assert(texts(names@) =~= before.push(short_name(all[i as int])));
        assert(texts(names@) =~= short_names(all.take(i + 1)));
        i += 1;
    }
    let mut title = join_text(&names, ", ");
    if paths.len() > count {
        title.append(" and ");
        title.append(decimal_text((paths.len() - count) as u64).as_str());
        title.append(" more");
    } else {
        assert(all.take(count as int) =~= all);
    }
    title
}

pub open spec fn meta_text(agent_label: Seq<char>, live: bool, seconds: nat) -> Seq<char> {
    if live {
        agent_label + " \u{b7} running \u{b7} "@ + elapsed(seconds)
    } else {
        agent_label + " \u{b7} ended "@ + elapsed(seconds)
    }
}

/// The second line of a run: its agent, whether it is alive, and its age in
/// seconds.
pub fn run_meta(agent_label: &str, live: bool, seconds: u64) -> (meta: String)
    ensures
        meta@ == meta_text(agent_label@, live, seconds as nat),
{
    let mut meta = agent_label.to_owned();
    if live {
        meta.append(" \u{b7} running \u{b7} ");
    } else {
        meta.append(" \u{b7} ended ");
    }
    meta.append(elapsed_text(seconds).as_str());
    meta
}

/// A header's diffstat in its two halves; nothing where nothing changed.
pub fn section_diffstat(stat: DiffStat) -> (halves: Option<(String, String)>)
    ensures
        halves is None == (stat.added == 0 && stat.removed == 0),
        halves matches Some(texts) ==> {
            &&& texts.0@ == "+"@ + decimal(stat.added as nat)
            &&& texts.1@ == "\u{2212}"@ + decimal(stat.removed as nat)
        },
{
    if stat.is_empty() {
        return None;
    }
    Some(
        (
            concat_text("+", decimal_text(stat.added as u64).as_str()),
            concat_text("\u{2212}", decimal_text(stat.removed as u64).as_str()),
        ),
    )
}

pub open spec fn seen_text(seen: nat, total: nat) -> Seq<char> {
    decimal(seen) + "/"@ + decimal(total) + " seen"@
}

/// How many files were seen, of how many; nothing where there are none.
pub fn seen_label(seen: usize, total: usize) -> (label: Option<String>)
    ensures
        label is None == (total == 0),
        label matches Some(text) ==> text@ == seen_text(seen as nat, total as nat),
{
    if total == 0 {
        return None;
    }
    let mut text = decimal_text(seen as u64);
    text.append("/");
    text.append(decimal_text(total as u64).as_str());
    text.append(" seen");
    Some(text)
}

/// Which files were seen, and what their change was at that moment. The marks
/// of one worktree say nothing about another.
pub struct SeenFiles {
    marks: Table<WorktreePath, DiffStat>,
}

impl View for SeenFiles {
    type V = Map<(PathView, PathView), DiffStat>;

    closed spec fn view(&self) -> Map<(PathView, PathView), DiffStat> {
        self.marks@
    }
}

/// Whether `path` carries a mark for the change that it has now.
pub open spec fn seen_now(
    marks: Map<(PathView, PathView), DiffStat>,
    worktree: PathView,
    path: PathView,
    lines: Lines,
) -> bool {
    marks.contains_key((worktree, path)) && marks[(worktree, path)].lines() == lines
}

/// The entries that are marked for the change that they have now.
pub open spec fn seen_entries(
    marks: Map<(PathView, PathView), DiffStat>,
    worktree: PathView,
    entries: Seq<EntryView>,
) -> Seq<EntryView> {
    entries.filter(
        |entry: EntryView| seen_now(marks, worktree, entry.at(), lines_of(entry.shares)),
    )
}

impl Default for SeenFiles {
    fn default() -> (seen: SeenFiles)
        ensures
            seen@ == Map::<(PathView, PathView), DiffStat>::empty(),
    {
        SeenFiles { marks: Table::new() }
    }
}

impl SeenFiles {
    /// Marks `path` as seen with the change that it has.
    pub fn mark_seen(&mut self, worktree: &FilePath, path: &FilePath, stat: DiffStat)
        ensures
            final(self)@ == old(self)@.insert((worktree@, path@), stat),
    {
        self.marks.insert(WorktreePath { worktree: worktree.clone(), path: path.clone() }, stat);
    }

    /// Takes the mark off `path`.
    pub fn clear(&mut self, worktree: &FilePath, path: &FilePath)
        ensures
            final(self)@ == old(self)@.remove((worktree@, path@)),
    {
        let key = WorktreePath { worktree: worktree.clone(), path: path.clone() };
        let _ = self.marks.remove(&key);
    }

    /// Whether `path` was seen since it last changed.
    pub fn is_seen(&self, worktree: &FilePath, path: &FilePath, stat: DiffStat) -> (seen: bool)
        ensures
            seen == seen_now(self@, worktree@, path@, stat.lines()),
    {
        let key = WorktreePath { worktree: worktree.clone(), path: path.clone() };
        match self.marks.get(&key) {
            Some(marked) => marked.added == stat.added && marked.removed == stat.removed,
            None => false,
        }
    }

    /// How many of the changed files were seen since they last changed.
    pub fn seen_count(&self, worktree: &FilePath, change_set: &ChangeSet) -> (count: usize)
        ensures
            count == seen_entries(self@, worktree@, change_set@).len(),
    {
        let ghost pred = |entry: EntryView|
            seen_now(self@, worktree@, entry.at(), lines_of(entry.shares));
        let ghost all = change_set@;
        let entries = change_set.entries();
        let mut count: usize = 0;
        let mut i: usize = 0;
        proof {
            reveal(Seq::filter);
        }
        while i < entries.len()
            invariant
                i <= entries.len(),
                count <= i,
                all == entry_views(entries@),
                all == change_set@,
                pred == (|entry: EntryView|
                    seen_now(self@, worktree@, entry.at(), lines_of(entry.shares))),
                count == all.take(i as int).filter(pred).len(),
            decreases entries.len() - i,
        {
            proof {
                reveal(Seq::filter);
                assert(all.take(i + 1).drop_last() =~= all.take(i as int));
                assert(all[i as int] == entries@[i as int]@);
                assert(all.take(i + 1).last() == all[i as int]);
            }
            if self.is_seen(worktree, entries[i].path(), entries[i].stat()) {
                count += 1;
            }
            i += 1;
        }
        assert(all.take(i as int) =~= all);
        count
    }
}

/// A mark in one worktree says nothing about another.
pub proof fn law_marks_stay_in_their_worktree(
    marks: Map<(PathView, PathView), DiffStat>,
    worktree: PathView,
    other: PathView,
    path: PathView,
    stat: DiffStat,
)
    requires
        worktree != other,
    ensures
        forall|p: PathView, lines: Lines|
            seen_now(marks.insert((worktree, path), stat), other, p, lines) == #[trigger] seen_now(
                marks,
                other,
                p,
                lines,
            ),
        forall|entries: Seq<EntryView>|
            seen_entries(marks.insert((worktree, path), stat), other, entries)
                == #[trigger] seen_entries(marks, other, entries),
{
    let after = marks.insert((worktree, path), stat);
    assert forall|entries: Seq<EntryView>| seen_entries(after, other, entries)
        == #[trigger] seen_entries(marks, other, entries) by {
        assert((|entry: EntryView| seen_now(after, other, entry.at(), lines_of(entry.shares)))
            =~= (|entry: EntryView| seen_now(marks, other, entry.at(), lines_of(entry.shares))));
    }
}

/// A file stays seen exactly as long as its change stays what it was when it
/// was marked, and not once the mark is taken off.
pub proof fn law_seen_until_changed(
    marks: Map<(PathView, PathView), DiffStat>,
    worktree: PathView,
    path: PathView,
    stat: DiffStat,
)
    ensures
        forall|lines: Lines| #[trigger]
            seen_now(marks.insert((worktree, path), stat), worktree, path, lines) == (lines
                == stat.lines()),
        forall|lines: Lines| !#[trigger]
            seen_now(marks.remove((worktree, path)), worktree, path, lines),
{
}

/// A mark on one path says nothing about another.
pub proof fn law_mark_touches_one_path(
    marks: Map<(PathView, PathView), DiffStat>,
    worktree: PathView,
    path: PathView,
    other: PathView,
    stat: DiffStat,
    lines: Lines,
)
    requires
        path != other,
    ensures
        seen_now(marks.insert((worktree, path), stat), worktree, other, lines) == seen_now(
            marks,
            worktree,
            other,
            lines,
        ),
        seen_now(marks.remove((worktree, path)), worktree, other, lines) == seen_now(
            marks,
            worktree,
            other,
            lines,
        ),
{
}

/// A commit that the branch has of its own.
#[derive(Debug)]
pub struct BranchCommit {
    pub short_id: String,
    pub subject: String,
    pub added: usize,
    pub removed: usize,
}

pub struct CommitView {
    pub short_id: Seq<char>,
    pub subject: Seq<char>,
    pub added: usize,
    pub removed: usize,
}

impl View for BranchCommit {
    type V = CommitView;

    open spec fn view(&self) -> CommitView {
        CommitView {
            short_id: self.short_id@,
            subject: self.subject@,
            added: self.added,
            removed: self.removed,
        }
    }
}

impl BranchCommit {
    pub fn copy(&self) -> (copy: BranchCommit)
        ensures
            copy@ == self@,
    {
        BranchCommit {
            short_id: self.short_id.clone(),
            subject: self.subject.clone(),
            added: self.added,
            removed: self.removed,
        }
    }
}

/// How loud a note is.
#[derive(Clone, Copy, Debug, PartialEq, Eq, Structural)]
pub enum NoteEmphasis {
    Quiet,
    Warning,
}

impl NoteEmphasis {
    pub fn color(self) -> (color: ThemeColor)
        ensures
            color == match self {
                NoteEmphasis::Quiet => ThemeColor::TextFaint,
                NoteEmphasis::Warning => ThemeColor::StatusAsk,
            },
    {
        match self {
            NoteEmphasis::Quiet => ThemeColor::TextFaint,
            NoteEmphasis::Warning => ThemeColor::StatusAsk,
        }
    }
}

/// The header of a section, with everything that it states.
#[derive(Debug)]
pub struct SectionHeader {
    pub section: ChangesSection,
    pub label: String,
    /// How many things the section holds, open or not.
    pub count: usize,
    pub stat: DiffStat,
    pub open: bool,
    /// How many of the uncommitted files were seen, and of how many.
    pub seen: Option<(usize, usize)>,
}

pub struct HeaderView {
    pub section: ChangesSection,
    pub label: Seq<char>,
    pub count: nat,
    pub stat: Lines,
    pub open: bool,
    pub seen: Option<(nat, nat)>,
}

impl View for SectionHeader {
    type V = HeaderView;

    open spec fn view(&self) -> HeaderView {
        HeaderView {
            section: self.section,
            label: self.label@,
            count: self.count as nat,
            stat: self.stat.lines(),
            open: self.open,
            seen: match self.seen {
                Some((seen, total)) => Some((seen as nat, total as nat)),
                None => None,
            },
        }
    }
}

/// One row of the Changes panel.
#[derive(Debug)]
pub enum SectionRow {
    Header(SectionHeader),
    Run(RunRow),
    /// The file at this index among the uncommitted changes.
    UncommittedFile(usize),
    Commit(BranchCommit),
    /// What would land on the base branch, and where the branch stands.
    AgainstMainContext {
        text: String,
        sub: String,
    },
    /// A section's own message.
    Note {
        section: ChangesSection,
        text: String,
        emphasis: NoteEmphasis,
    },
}

pub enum RowView {
    Header(HeaderView),
    Run(RunRowView),
    UncommittedFile(nat),
    Commit(CommitView),
    AgainstMainContext { text: Seq<char>, sub: Seq<char> },
    Note { section: ChangesSection, text: Seq<char>, emphasis: NoteEmphasis },
}

impl View for SectionRow {
    type V = RowView;

    open spec fn view(&self) -> RowView {
        match self {
            SectionRow::Header(header) => RowView::Header(header@),
            SectionRow::Run(run) => RowView::Run(run@),
            SectionRow::UncommittedFile(index) => RowView::UncommittedFile(*index as nat),
            SectionRow::Commit(commit) => RowView::Commit(commit@),
            SectionRow::AgainstMainContext { text, sub } => RowView::AgainstMainContext {
                text: text@,
                sub: sub@,
            },
            SectionRow::Note { section, text, emphasis } => RowView::Note {
                section: *section,
                text: text@,
                emphasis: *emphasis,
            },
        }
    }
}

impl RowView {
    /// Whether a header counts the row.
    pub open spec fn counted(self) -> bool {
        self is Run || self is UncommittedFile || self is Commit
    }

    /// The section that the row belongs to.
    pub open spec fn section(self) -> ChangesSection {
        match self {
            RowView::Header(header) => header.section,
            RowView::Run(_) => ChangesSection::Runs,
            RowView::UncommittedFile(_) => ChangesSection::Uncommitted,
            RowView::Commit(_) => ChangesSection::Commits,
            RowView::AgainstMainContext { .. } => ChangesSection::AgainstMain,
            RowView::Note { section, .. } => section,
        }
    }
}

impl SectionRow {
    /// Whether the section's header counts this row.
    pub fn is_counted(&self) -> (counted: bool)
        ensures
            counted == self@.counted(),
    {
        match self {
            SectionRow::Run(_) | SectionRow::UncommittedFile(_) | SectionRow::Commit(_) => true,
            SectionRow::Header(_) | SectionRow::AgainstMainContext { .. } | SectionRow::Note {
                ..
            } => false,
        }
    }

    /// The section that this row belongs to.
    pub fn section(&self) -> (section: ChangesSection)
        ensures
            section == self@.section(),
    {
        match self {
            SectionRow::Header(header) => header.section,
            SectionRow::Run(_) => ChangesSection::Runs,
            SectionRow::UncommittedFile(_) => ChangesSection::Uncommitted,
            SectionRow::Commit(_) => ChangesSection::Commits,
            SectionRow::AgainstMainContext { .. } => ChangesSection::AgainstMain,
            SectionRow::Note { section, .. } => *section,
        }
    }
}

pub open spec fn row_views(rows: Seq<SectionRow>) -> Seq<RowView> {
    rows.map_values(|row: SectionRow| row@)
}

} // verus!
