use vstd::prelude::*;
use vstd::string::*;

use crate::change_set::{
    all_shares, capped, fits, law_split_at_most_total, law_split_is_a_partition, lines_by,
    lines_by_all, lines_of, plus_lines, AgentKey, AuthorView, ChangeSet, DiffStat, EntryView,
    FileChangeStatus, Lines,
};
use crate::path::{FilePath, PathView};
use crate::path_set::PathSet;
use crate::sections::{
    row_views, run_row, run_row_views, run_rows, seen_entries, source_views, text_view,
    BranchCommit, ChangesSection, HeaderView, NoteEmphasis, RowView, RunRow, RunRowView, RunSource,
    RunSourceView, ScopeLoad, SectionCollapse, SectionHeader, SectionRow, SeenFiles,
};
use crate::table::Table;
use crate::text::{count_text, counted, decimal, decimal_text, option_text};

verus! {

pub const UNCOMMITTED_TRUNCATED: &'static str =
    "diff truncated: this checkout's real changes exceeded wt_core::diff's own load limits, so some files or lines are missing from this list";

pub const COMMITS_TRUNCATED: &'static str =
    "this branch has more commits than wt_core::diff loads at once, so the list above is only its most recent";

pub const BRANCH_TRUNCATED: &'static str =
    "diff truncated: this branch's real changes exceeded wt_core::diff's own load limits, so some files or lines are missing from this list";

/// A file of a diff.
pub struct DiffFile {
    pub path: FilePath,
    pub status: FileChangeStatus,
    pub stat: DiffStat,
    /// Whether git moved the file from another path.
    pub renamed: bool,
}

/// A diff of a whole worktree.
pub struct WorktreeDiff {
    pub files: Vec<DiffFile>,
    /// Whether files or lines are missing because there were too many.
    pub truncated: bool,
    pub base_commit: String,
}

/// The commits that a branch has of its own.
pub struct BranchCommits {
    pub base_branch: Option<String>,
    pub commits: Vec<BranchCommit>,
    pub added: usize,
    pub removed: usize,
    /// Whether there are more commits than those.
    pub truncated: bool,
}

/// The diff of the branch against its base, or why there is none.
pub enum BranchDiff {
    Loaded(WorktreeDiff),
    Missing { message: String, failed: bool },
}

/// How many commits a branch and its base have that the other lacks.
#[derive(Clone, Copy, Debug)]
pub struct AheadBehind {
    pub ahead: usize,
    pub behind: usize,
}

/// A worktree of the repository and the branch that it has checked out.
pub struct WorktreeItem {
    pub path: FilePath,
    pub branch: Option<String>,
}

/// Why no further git operation can start yet.
#[derive(Clone, Copy, Debug, PartialEq, Eq, Structural)]
pub enum HistoryOp {
    Commit,
    Keep,
    Discard,
    Undo,
    Redo,
}

/// The state of the Changes panel.
pub struct ChangesPanel {
    /// The worktree that the panel shows.
    pub diff_root: FilePath,
    pub uncommitted_diff: ScopeLoad<WorktreeDiff>,
    pub uncommitted_change_set: ChangeSet,
    pub branch_commits: ScopeLoad<BranchCommits>,
    pub branch_diff: BranchDiff,
    pub change_set: ChangeSet,
    pub ahead_behind: Table<FilePath, AheadBehind>,
    pub sections: SectionCollapse,
    pub seen_files: SeenFiles,
    pub staged_files: PathSet,
    /// The paths with uncommitted changes, where git has told them.
    pub dirty_files: Option<PathSet>,
    /// The file whose diff is open.
    pub open_change: Option<FilePath>,
    pub row_error: Option<(FilePath, String)>,
    pub row_hover: Option<FilePath>,
    pub actions_hover: Option<FilePath>,
    /// The file whose changes the next click throws away.
    pub discard_armed: Option<FilePath>,
    pub commit_message: String,
    pub commit_menu_open: bool,
    pub op_in_flight: Option<HistoryOp>,
    pub status: Option<String>,
    pub worktrees: Vec<WorktreeItem>,
}

/// An agent or another process in the worktree.
pub struct AgentInfo {
    pub id: u64,
    /// What makes the process an agent: its key, label, initial and tint.
    pub face: Option<AgentFace>,
    pub live: bool,
    pub running_seconds: u64,
    pub idle_seconds: Option<u64>,
}

pub struct AgentFace {
    pub key: String,
    pub label: String,
    pub initial: &'static str,
    pub tint: (u32, u32),
}

/// The run that an agent stands for. Its age counts from its start while it is
/// alive, and from when it was last heard of afterwards.
pub open spec fn run_of(agent: AgentInfo) -> Option<RunSourceView> {
    match agent.face {
        Some(face) => Some(
            RunSourceView {
                agent_id: agent.id,
                author: AuthorView::Agent(face.key@),
                agent_label: face.label@,
                initial: face.initial@,
                tint: face.tint,
                live: agent.live,
                elapsed: if agent.live {
                    agent.running_seconds as nat
                } else {
                    match agent.idle_seconds {
                        Some(idle) => idle as nat,
                        None => agent.running_seconds as nat,
                    }
                },
            },
        ),
        None => None,
    }
}

/// The runs of the agents, in their order; other processes have none.
pub open spec fn runs_of(agents: Seq<AgentInfo>) -> Seq<RunSourceView>
    decreases agents.len(),
{
    if agents.len() == 0 {
        seq![]
    } else {
        match run_of(agents.last()) {
            Some(run) => runs_of(agents.drop_last()).push(run),
            None => runs_of(agents.drop_last()),
        }
    }
}

/// Collects the runs of the agents in the worktree.
pub fn run_sources(agents: &[AgentInfo]) -> (sources: Vec<RunSource>)
    ensures
        source_views(sources@) == runs_of(agents@),
{
    let mut sources: Vec<RunSource> = Vec::new();
    assert(source_views(sources@) =~= runs_of(agents@.take(0)));
    let mut i: usize = 0;
    while i < agents.len()
        invariant
            i <= agents@.len(),
            source_views(sources@) == runs_of(agents@.take(i as int)),
        decreases agents@.len() - i,
    {
        let ghost before = source_views(sources@);
        let agent = &agents[i];
        assert(agents@.take(i + 1).drop_last() =~= agents@.take(i as int));
        match &agent.face {
            Some(face) => {
                let source = RunSource {
                    agent_id: agent.id,
                    agent_key: AgentKey::new(face.key.as_str()),
                    agent_label: face.label.clone(),
                    initial: face.initial,
                    tint: face.tint,
                    live: agent.live,
                    elapsed: if agent.live {
                        agent.running_seconds
                    } else {
                        match agent.idle_seconds {
                            Some(idle) => idle,
                            None => agent.running_seconds,
                        }
                    },
                };
                assert(run_of(*agent) == Some(source@));
                sources.push(source);
                assert(source_views(sources@) =~= before.push(source@));
            },
            None => {},
        }
        i += 1;
    }
    assert(agents@.take(i as int) =~= agents@);
    sources
}

/// The first seven characters of a commit's id.
pub open spec fn short_sha_text(sha: Seq<char>) -> Seq<char> {
    if sha.len() <= 7 {
        sha
    } else {
        sha.take(7)
    }
}

/// Shortens a commit's id to the length that git shows.
pub fn short_sha(sha: &str) -> (short: String)
    ensures
        short@ == short_sha_text(sha@),
{
    let length = sha.unicode_len();
    if length <= 7 {
        sha.to_owned()
    } else {
        let short = sha.substring_char(0, 7).to_owned();
        assert(short@ =~= sha@.take(7));
        short
    }
}

/// How many rows a header counts.
pub open spec fn counted_rows(rows: Seq<RowView>) -> nat {
    rows.filter(|row: RowView| row.counted()).len()
}

/// The lines of all runs among `rows`.
pub open spec fn run_lines(rows: Seq<RowView>) -> Lines
    decreases rows.len(),
{
    if rows.len() == 0 {
        (0, 0)
    } else {
        let before = run_lines(rows.drop_last());
        match rows.last() {
            RowView::Run(run) => plus_lines(before, run.stat),
            _ => before,
        }
    }
}

pub open spec fn quiet(section: ChangesSection, text: Seq<char>) -> RowView {
    RowView::Note { section, text, emphasis: NoteEmphasis::Quiet }
}

pub open spec fn warning(section: ChangesSection, text: Seq<char>) -> RowView {
    RowView::Note { section, text, emphasis: NoteEmphasis::Warning }
}

pub open spec fn warning_if(truncated: bool, section: ChangesSection, text: Seq<char>) -> Seq<
    RowView,
> {
    if truncated {
        seq![warning(section, text)]
    } else {
        seq![]
    }
}

impl ChangesPanel {
    /// The branch that Commits and Against main are measured against.
    pub open spec fn base_branch(self) -> Option<Seq<char>> {
        match self.branch_commits {
            ScopeLoad::Loaded(commits) => option_text(commits.base_branch),
            _ => None,
        }
    }

    pub open spec fn runs_body(self, runs: Seq<RunSourceView>) -> Seq<RowView> {
        if runs.len() == 0 {
            seq![quiet(ChangesSection::Runs, "no agents have run in this worktree yet"@)]
        } else {
            run_row_views(runs, self.uncommitted_change_set@).map_values(
                |run: RunRowView| RowView::Run(run),
            )
        }
    }

    pub open spec fn uncommitted_body(self) -> Seq<RowView> {
        let section = ChangesSection::Uncommitted;
        match self.uncommitted_diff {
            ScopeLoad::Error(message) => seq![warning(section, message@)],
            ScopeLoad::Loading => seq![quiet(section, "computing uncommitted changes..."@)],
            ScopeLoad::Loaded(diff) => if self.uncommitted_change_set@.len() == 0 {
                seq![quiet(section, "nothing uncommitted in this checkout"@)]
            } else {
                Seq::new(
                    self.uncommitted_change_set@.len(),
                    |i: int| RowView::UncommittedFile(i as nat),
                ) + warning_if(diff.truncated, section, UNCOMMITTED_TRUNCATED@)
            },
        }
    }

    pub open spec fn commits_body(self) -> Seq<RowView> {
        let section = ChangesSection::Commits;
        match self.branch_commits {
            ScopeLoad::Error(message) => seq![warning(section, message@)],
            ScopeLoad::Loading => seq![quiet(section, "reading this branch's commits..."@)],
            ScopeLoad::Loaded(commits) => if commits.base_branch is None {
                seq![
                    quiet(
                        section,
                        "no base branch to measure this branch's own commits against"@,
                    ),
                ]
            } else if commits.commits@.len() == 0 {
                seq![quiet(section, "nothing committed on this branch yet"@)]
            } else {
                commits.commits@.map_values(|commit: BranchCommit| RowView::Commit(commit@))
                    + warning_if(commits.truncated, section, COMMITS_TRUNCATED@)
            },
        }
    }

    /// Where the branch stands: the counts that git gave, or else the commit
    /// that it parted from.
    pub open spec fn standing(self, base_commit: Seq<char>) -> Seq<char> {
        if self.ahead_behind@.contains_key(self.diff_root@) {
            let counts = self.ahead_behind@[self.diff_root@];
            decimal(counts.ahead as nat) + " ahead \u{b7} "@ + decimal(counts.behind as nat)
                + " behind"@
        } else {
            "merge-base "@ + short_sha_text(base_commit)
        }
    }

    pub open spec fn against_main_body(self) -> Seq<RowView> {
        let section = ChangesSection::AgainstMain;
        match self.branch_diff {
            BranchDiff::Missing { message, failed } => if failed {
                seq![warning(section, message@)]
            } else {
                seq![quiet(section, message@)]
            },
            BranchDiff::Loaded(diff) => if self.change_set@.len() == 0 {
                seq![quiet(section, "this branch matches its base exactly"@)]
            } else {
                let context = match self.base_branch() {
                    Some(base) => seq![
                        RowView::AgainstMainContext {
                            text: counted(self.change_set@.len(), "file"@) + " would land on "@
                                + base,
                            sub: self.standing(diff.base_commit@),
                        },
                    ],
                    None => seq![],
                };
                context + warning_if(diff.truncated, section, BRANCH_TRUNCATED@)
            },
        }
    }

    /// The rows of a section below its header.
    pub open spec fn section_body(
        self,
        section: ChangesSection,
        runs: Seq<RunSourceView>,
    ) -> Seq<RowView> {
        match section {
            ChangesSection::Runs => self.runs_body(runs),
            ChangesSection::Uncommitted => self.uncommitted_body(),
            ChangesSection::Commits => self.commits_body(),
            ChangesSection::AgainstMain => self.against_main_body(),
        }
    }

    /// How many things a section holds: as many as its rows that count, except
    /// that Against main has no row for a file and states the number of files.
    pub open spec fn section_count(
        self,
        section: ChangesSection,
        runs: Seq<RunSourceView>,
    ) -> nat {
        match section {
            ChangesSection::AgainstMain => self.change_set@.len(),
            _ => counted_rows(self.section_body(section, runs)),
        }
    }

    pub open spec fn section_lines(
        self,
        section: ChangesSection,
        body: Seq<RowView>,
    ) -> Lines {
        match section {
            ChangesSection::Runs => capped(run_lines(body)),
            ChangesSection::Uncommitted => lines_of(all_shares(self.uncommitted_change_set@)),
            ChangesSection::Commits => match self.branch_commits {
                ScopeLoad::Loaded(commits) => (commits.added as nat, commits.removed as nat),
                _ => (0, 0),
            },
            ChangesSection::AgainstMain => lines_of(all_shares(self.change_set@)),
        }
    }

    pub open spec fn section_header(
        self,
        section: ChangesSection,
        runs: Seq<RunSourceView>,
    ) -> HeaderView {
        HeaderView {
            section,
            label: section.label_text(self.base_branch()),
            count: self.section_count(section, runs),
            stat: self.section_lines(section, self.section_body(section, runs)),
            open: self.sections.open(section),
            seen: match section {
                ChangesSection::Uncommitted => Some(
                    (
                        seen_entries(
                            self.seen_files@,
                            self.diff_root@,
                            self.uncommitted_change_set@,
                        ).len(),
                        self.section_count(section, runs),
                    ),
                ),
                _ => None,
            },
        }
    }

    /// A section's header, and its rows where it is open.
    pub open spec fn section_rows(
        self,
        section: ChangesSection,
        runs: Seq<RunSourceView>,
    ) -> Seq<RowView> {
        let header = seq![RowView::Header(self.section_header(section, runs))];
        if self.sections.open(section) {
            header + self.section_body(section, runs)
        } else {
            header
        }
    }

    /// The whole panel from top to bottom.
    pub open spec fn all_rows(self, runs: Seq<RunSourceView>) -> Seq<RowView> {
        self.section_rows(ChangesSection::Uncommitted, runs) + self.section_rows(
            ChangesSection::Commits,
            runs,
        ) + self.section_rows(ChangesSection::AgainstMain, runs) + self.section_rows(
            ChangesSection::Runs,
            runs,
        )
    }

    /// Whether nothing was read yet, and nothing done.
    pub open spec fn is_fresh(self) -> bool {
        &&& self.uncommitted_diff is Loading
        &&& self.uncommitted_change_set@ == Seq::<EntryView>::empty()
        &&& self.branch_commits is Loading
        &&& self.branch_diff matches BranchDiff::Missing { message, failed } && message@.len()
                == 0 && !failed
        &&& self.change_set@ == Seq::<EntryView>::empty()
        &&& self.ahead_behind@ == Map::<PathView, AheadBehind>::empty()
        &&& forall|section: ChangesSection| #[trigger]
                self.sections.open(section) == section.opens_first()
        &&& self.seen_files@ == Map::<(PathView, PathView), DiffStat>::empty()
        &&& self.staged_files@ == Set::<PathView>::empty()
        &&& self.dirty_files is None
        &&& self.open_change is None
        &&& self.row_error is None
        &&& self.row_hover is None
        &&& self.actions_hover is None
        &&& self.discard_armed is None
        &&& self.commit_message@ == Seq::<char>::empty()
        &&& !self.commit_menu_open
        &&& self.op_in_flight is None
        &&& self.status is None
        &&& self.worktrees@.len() == 0
    }

    /// The panel of the worktree at `root`, before anything was read.
    pub fn new(root: FilePath) -> (panel: ChangesPanel)
        ensures
            panel.diff_root == root,
            panel.is_fresh(),
    {
        ChangesPanel {
            diff_root: root,
            uncommitted_diff: ScopeLoad::Loading,
            uncommitted_change_set: ChangeSet::empty(),
            branch_commits: ScopeLoad::Loading,
            branch_diff: BranchDiff::Missing { message: String::new(), failed: false },
            change_set: ChangeSet::empty(),
            ahead_behind: Table::new(),
            sections: SectionCollapse::default(),
            seen_files: SeenFiles::default(),
            staged_files: PathSet::new(),
            dirty_files: None,
            open_change: None,
            row_error: None,
            row_hover: None,
            actions_hover: None,
            discard_armed: None,
            commit_message: String::new(),
            commit_menu_open: false,
            op_in_flight: None,
            status: None,
            worktrees: Vec::new(),
        }
    }

    pub fn changes_base_branch(&self) -> (base: Option<&str>)
        ensures
            text_view(base) == self.base_branch(),
    {
        match &self.branch_commits {
            ScopeLoad::Loaded(commits) => match &commits.base_branch {
                Some(base) => Some(base.as_str()),
                None => None,
            },
            ScopeLoad::Loading | ScopeLoad::Error(_) => None,
        }
    }

    /// The rows of the runs among the agents of the worktree.
    pub fn changes_run_rows(&self, sources: &[RunSource]) -> (rows: Vec<RunRow>)
        ensures
            rows@.map_values(|row: RunRow| row@) == run_row_views(
                source_views(sources@),
                self.uncommitted_change_set@,
            ),
    {
        run_rows(sources, &self.uncommitted_change_set)
    }

    /// The rows of a section below its header, open or not.
    pub fn changes_section_body(&self, section: ChangesSection, sources: &[RunSource]) -> (body:
        Vec<SectionRow>)
        ensures
            row_views(body@) == self.section_body(section, source_views(sources@)),
    {
        match section {
            ChangesSection::Runs => self.runs_rows(sources),
            ChangesSection::Uncommitted => self.uncommitted_rows(),
            ChangesSection::Commits => self.commit_rows(),
            ChangesSection::AgainstMain => self.against_main_rows(),
        }
    }

    fn runs_rows(&self, sources: &[RunSource]) -> (body: Vec<SectionRow>)
        ensures
            row_views(body@) == self.runs_body(source_views(sources@)),
    {
        if sources.len() == 0 {
            return one_row(
                quiet_note(ChangesSection::Runs, "no agents have run in this worktree yet"),
            );
        }
        let runs = self.changes_run_rows(sources);
        let ghost wanted = runs@.map_values(|row: RunRow| row@).map_values(
            |run: RunRowView| RowView::Run(run),
        );
        let ghost all = runs@;
        let mut body: Vec<SectionRow> = Vec::new();
        for run in it: runs
            invariant
                it.seq() == all,
                wanted == all.map_values(|row: RunRow| row@).map_values(
                    |run: RunRowView| RowView::Run(run),
                ),
                row_views(body@) == wanted.take(it.index() as int),
        {
            let ghost before = row_views(body@);
            body.push(SectionRow::Run(run));
            assert(row_views(body@) =~= before.push(RowView::Run(run@)));
            assert(row_views(body@) =~= wanted.take(it.index() as int + 1));
        }
        assert(row_views(body@) =~= wanted);
        body
    }

    fn uncommitted_rows(&self) -> (body: Vec<SectionRow>)
        ensures
            row_views(body@) == self.uncommitted_body(),
    {
        let section = ChangesSection::Uncommitted;
        let diff = match &self.uncommitted_diff {
            ScopeLoad::Error(message) => {
                return one_row(warning_note(section, message.as_str()));
            },
            ScopeLoad::Loading => {
                return one_row(quiet_note(section, "computing uncommitted changes..."));
            },
            ScopeLoad::Loaded(diff) => diff,
        };
        let count = self.uncommitted_change_set.len();
        if count == 0 {
            return one_row(quiet_note(section, "nothing uncommitted in this checkout"));
        }
        let ghost wanted = Seq::new(count as nat, |i: int| RowView::UncommittedFile(i as nat));
        let mut body: Vec<SectionRow> = Vec::new();
        let mut i: usize = 0;
        while i < count
            invariant
                i <= count,
                wanted == Seq::new(count as nat, |i: int| RowView::UncommittedFile(i as nat)),
                row_views(body@) == wanted.take(i as int),
            decreases count - i,
        {
            let ghost before = row_views(body@);
            body.push(SectionRow::UncommittedFile(i));
            assert(row_views(body@) =~= before.push(RowView::UncommittedFile(i as nat)));
            assert(row_views(body@) =~= wanted.take(i + 1));
            i += 1;
        }
        assert(row_views(body@) =~= wanted);
        push_warning_if(&mut body, diff.truncated, section, UNCOMMITTED_TRUNCATED);
        body
    }

    fn commit_rows(&self) -> (body: Vec<SectionRow>)
        ensures
            row_views(body@) == self.commits_body(),
    {
        let section = ChangesSection::Commits;
        let commits = match &self.branch_commits {
            ScopeLoad::Error(message) => {
                return one_row(warning_note(section, message.as_str()));
            },
            ScopeLoad::Loading => {
                return one_row(quiet_note(section, "reading this branch's commits..."));
            },
            ScopeLoad::Loaded(commits) => commits,
        };
        if commits.base_branch.is_none() {
            return one_row(
                quiet_note(section, "no base branch to measure this branch's own commits against"),
            );
        }
        if commits.commits.len() == 0 {
            return one_row(quiet_note(section, "nothing committed on this branch yet"));
        }
        let ghost wanted = commits.commits@.map_values(
            |commit: BranchCommit| RowView::Commit(commit@),
        );
        let mut body: Vec<SectionRow> = Vec::new();
        let mut i: usize = 0;
        while i < commits.commits.len()
            invariant
                i <= commits.commits.len(),
                wanted == commits.commits@.map_values(
                    |commit: BranchCommit| RowView::Commit(commit@),
                ),
                row_views(body@) == wanted.take(i as int),
            decreases commits.commits.len() - i,
        {
            let ghost before = row_views(body@);
            body.push(SectionRow::Commit(commits.commits[i].copy()));
            assert(row_views(body@) =~= before.push(wanted[i as int]));
            assert(row_views(body@) =~= wanted.take(i + 1));
            i += 1;
        }
        assert(row_views(body@) =~= wanted);
        push_warning_if(&mut body, commits.truncated, section, COMMITS_TRUNCATED);
        body
    }

    fn against_main_rows(&self) -> (body: Vec<SectionRow>)
        ensures
            row_views(body@) == self.against_main_body(),
    {
        let section = ChangesSection::AgainstMain;
        let diff = match &self.branch_diff {
            BranchDiff::Missing { message, failed } => {
                return if *failed {
                    one_row(warning_note(section, message.as_str()))
                } else {
                    one_row(quiet_note(section, message.as_str()))
                };
            },
            BranchDiff::Loaded(diff) => diff,
        };
        if self.change_set.is_empty() {
            return one_row(quiet_note(section, "this branch matches its base exactly"));
        }
        let mut body: Vec<SectionRow> = Vec::new();
        match self.changes_base_branch() {
            Some(base) => {
                let mut text = count_text(self.change_set.len(), "file");
                text.append(" would land on ");
                text.append(base);
                let sub = match self.ahead_behind.get(&self.diff_root) {
                    Some(counts) => {
                        let mut sub = decimal_text(counts.ahead as u64);
                        sub.append(" ahead \u{b7} ");
                        sub.append(decimal_text(counts.behind as u64).as_str());
                        sub.append(" behind");
                        sub
                    },
                    None => {
                        let mut sub = "merge-base ".to_owned();
                        sub.append(short_sha(diff.base_commit.as_str()).as_str());
                        sub
                    },
                };
                body = one_row(SectionRow::AgainstMainContext { text, sub });
            },
            None => {
                assert(row_views(body@) =~= seq![]);
            },
        }
        push_warning_if(&mut body, diff.truncated, section, BRANCH_TRUNCATED);
        body
    }

    /// A section's added and removed lines, for its header.
    pub fn changes_section_stat(&self, section: ChangesSection, body: &[SectionRow]) -> (stat:
        DiffStat)
        ensures
            stat.lines() == self.section_lines(section, row_views(body@)),
    {
        match section {
            ChangesSection::Runs => runs_stat(body),
            ChangesSection::Uncommitted => self.uncommitted_change_set.total(),
            ChangesSection::Commits => match &self.branch_commits {
                ScopeLoad::Loaded(commits) => DiffStat::new(commits.added, commits.removed),
                ScopeLoad::Loading | ScopeLoad::Error(_) => DiffStat::new(0, 0),
            },
            ChangesSection::AgainstMain => self.change_set.total(),
        }
    }

    /// Appends one section's header, and its rows where it is open.
    fn push_section(
        &self,
        rows: &mut Vec<SectionRow>,
        section: ChangesSection,
        sources: &[RunSource],
    )
        ensures
            row_views(final(rows)@) == row_views(old(rows)@) + self.section_rows(
                section,
                source_views(sources@),
            ),
    {
        let ghost runs = source_views(sources@);
        let mut body = self.changes_section_body(section, sources);
        let count = match section {
            ChangesSection::AgainstMain => self.change_set.len(),
            ChangesSection::Uncommitted | ChangesSection::Commits | ChangesSection::Runs => {
                count_rows(body.as_slice())
            },
        };
        let open = self.sections.is_open(section);
        let header = SectionHeader {
            section,
            label: section.label(self.changes_base_branch()),
            count,
            stat: self.changes_section_stat(section, body.as_slice()),
            open,
            seen: match section {
                ChangesSection::Uncommitted => Some(
                    (
                        self.seen_files.seen_count(&self.diff_root, &self.uncommitted_change_set),
                        count,
                    ),
                ),
                ChangesSection::Commits | ChangesSection::AgainstMain | ChangesSection::Runs => {
                    None
                },
            },
        };
        assert(header@ == self.section_header(section, runs));
        let ghost start = row_views(rows@);
        let ghost body_rows = row_views(body@);
        rows.push(SectionRow::Header(header));
        assert(row_views(rows@) =~= start.push(RowView::Header(header@)));
        let ghost with_header = rows@;
        if open {
            let ghost added = body@;
            rows.append(&mut body);
            assert(rows@ =~= with_header + added);
            assert(row_views(rows@) =~= row_views(with_header) + body_rows);
        }
        assert(row_views(rows@) =~= start + self.section_rows(section, runs));
    }

    /// The whole panel, as one list of rows.
    pub fn changes_section_rows(&self, sources: &[RunSource]) -> (rows: Vec<SectionRow>)
        ensures
            row_views(rows@) == self.all_rows(source_views(sources@)),
    {
        let mut rows: Vec<SectionRow> = Vec::new();
        self.push_section(&mut rows, ChangesSection::Uncommitted, sources);
        self.push_section(&mut rows, ChangesSection::Commits, sources);
        self.push_section(&mut rows, ChangesSection::AgainstMain, sources);
        self.push_section(&mut rows, ChangesSection::Runs, sources);
        assert(row_views(rows@) =~= self.all_rows(source_views(sources@)));
        rows
    }

    /// The rows of the panel's scroller: every section but Runs.
    pub fn scroller_rows(&self, sources: &[RunSource]) -> (rows: Vec<SectionRow>)
        ensures
            row_views(rows@) == rows_outside_runs(self.all_rows(source_views(sources@))),
    {
        filter_rows(self.changes_section_rows(sources), false)
    }

    /// The rows of the well at the panel's foot: the Runs section alone.
    pub fn runs_section_rows(&self, sources: &[RunSource]) -> (rows: Vec<SectionRow>)
        ensures
            row_views(rows@) == rows_of_runs(self.all_rows(source_views(sources@))),
    {
        filter_rows(self.changes_section_rows(sources), true)
    }

    /// Opens or closes one section.
    pub fn toggle_changes_section(&mut self, section: ChangesSection)
        ensures
            old(self).sections.toggled(final(self).sections, section),
            *final(self) == (ChangesPanel { sections: final(self).sections, ..*old(self) }),
    {
        self.sections.toggle(section);
    }
}

pub open spec fn rows_of_runs(rows: Seq<RowView>) -> Seq<RowView> {
    rows.filter(|row: RowView| row.section() == ChangesSection::Runs)
}

pub open spec fn rows_outside_runs(rows: Seq<RowView>) -> Seq<RowView> {
    rows.filter(|row: RowView| row.section() != ChangesSection::Runs)
}

/// The rows that belong to Runs, or those that do not.
fn filter_rows(rows: Vec<SectionRow>, runs: bool) -> (kept: Vec<SectionRow>)
    ensures
        row_views(kept@) == if runs {
            rows_of_runs(row_views(rows@))
        } else {
            rows_outside_runs(row_views(rows@))
        },
{
    let ghost given = rows@;
    let ghost all = row_views(rows@);
    let ghost pred = if runs {
        |row: RowView| row.section() == ChangesSection::Runs
    } else {
        |row: RowView| row.section() != ChangesSection::Runs
    };
    let mut kept: Vec<SectionRow> = Vec::new();
    proof {
        reveal(Seq::filter);
        assert(row_views(kept@) =~= all.take(0).filter(pred));
    }
    for row in it: rows
        invariant
            it.seq() == given,
            all == row_views(given),
            pred == if runs {
                |row: RowView| row.section() == ChangesSection::Runs
            } else {
                |row: RowView| row.section() != ChangesSection::Runs
            },
            row_views(kept@) == all.take(it.index() as int).filter(pred),
    {
        let ghost before = row_views(kept@);
        let ghost i = it.index() as int;
        proof {
            reveal(Seq::filter);
            assert(all.take(i + 1).drop_last() =~= all.take(i));
            assert(all[i] == row@);
            assert(all.take(i + 1).last() == all[i]);
        }
        let of_runs = row.section() == ChangesSection::Runs;
        if of_runs == runs {
            kept.push(row);
            assert(row_views(kept@) =~= before.push(row@));
        }
    }
    assert(all.take(all.len() as int) =~= all);
    kept
}

/// A list of one row.
fn one_row(row: SectionRow) -> (rows: Vec<SectionRow>)
    ensures
        row_views(rows@) == seq![row@],
{
    let mut rows: Vec<SectionRow> = Vec::new();
    rows.push(row);
    assert(row_views(rows@) =~= seq![row@]);
    rows
}

fn quiet_note(section: ChangesSection, text: &str) -> (row: SectionRow)
    ensures
        row@ == quiet(section, text@),
{
    SectionRow::Note { section, text: text.to_owned(), emphasis: NoteEmphasis::Quiet }
}

fn warning_note(section: ChangesSection, text: &str) -> (row: SectionRow)
    ensures
        row@ == warning(section, text@),
{
    SectionRow::Note { section, text: text.to_owned(), emphasis: NoteEmphasis::Warning }
}

fn push_warning_if(
    rows: &mut Vec<SectionRow>,
    truncated: bool,
    section: ChangesSection,
    text: &str,
)
    ensures
        row_views(final(rows)@) == row_views(old(rows)@) + warning_if(truncated, section, text@),
{
    let ghost before = row_views(rows@);
    if truncated {
        rows.push(warning_note(section, text));
    }
    assert(row_views(rows@) =~= before + warning_if(truncated, section, text@));
}

/// How many of `rows` a header counts.
fn count_rows(rows: &[SectionRow]) -> (count: usize)
    ensures
        count == counted_rows(row_views(rows@)),
{
    let ghost all = row_views(rows@);
    let mut count: usize = 0;
    let mut i: usize = 0;
    proof {
        reveal(Seq::filter);
    }
    while i < rows.len()
        invariant
            i <= rows@.len(),
            count <= i,
            all == row_views(rows@),
            count == counted_rows(all.take(i as int)),
        decreases rows@.len() - i,
    {
        proof {
            reveal(Seq::filter);
            assert(all.take(i + 1).drop_last() =~= all.take(i as int));
            assert(all[i as int] == rows@[i as int]@);
        }
        if rows[i].is_counted() {
            count += 1;
        }
        i += 1;
    }
    assert(all.take(i as int) =~= all);
    count
}

/// The lines of all runs among `rows`, as far as they can be counted.
fn runs_stat(rows: &[SectionRow]) -> (stat: DiffStat)
    ensures
        stat.lines() == capped(run_lines(row_views(rows@))),
{
    let ghost all = row_views(rows@);
    let mut stat = DiffStat::new(0, 0);
    let mut i: usize = 0;
    while i < rows.len()
        invariant
            i <= rows@.len(),
            all == row_views(rows@),
            stat.lines() == capped(run_lines(all.take(i as int))),
        decreases rows@.len() - i,
    {
        proof {
            assert(all.take(i + 1).drop_last() =~= all.take(i as int));
            assert(all[i as int] == rows@[i as int]@);
        }
        match &rows[i] {
            SectionRow::Run(run) => {
                stat = stat.capped_plus(run.stat);
            },
            _ => {},
        }
        i += 1;
    }
    assert(all.take(i as int) =~= all);
    stat
}

pub(crate) proof fn lemma_filter_all(rows: Seq<RowView>, pred: spec_fn(RowView) -> bool)
    requires
        forall|i: int| 0 <= i < rows.len() ==> pred(#[trigger] rows[i]),
    ensures
        rows.filter(pred) == rows,
    decreases rows.len(),
{
    reveal(Seq::filter);
    if rows.len() > 0 {
        lemma_filter_all(rows.drop_last(), pred);
        assert(pred(rows[rows.len() - 1]));
        assert(rows.drop_last().push(rows.last()) =~= rows);
    } else {
        assert(rows.filter(pred) =~= rows);
    }
}

pub(crate) proof fn lemma_filter_none(rows: Seq<RowView>, pred: spec_fn(RowView) -> bool)
    requires
        forall|i: int| 0 <= i < rows.len() ==> !pred(#[trigger] rows[i]),
    ensures
        rows.filter(pred) == Seq::<RowView>::empty(),
    decreases rows.len(),
{
    reveal(Seq::filter);
    if rows.len() > 0 {
        lemma_filter_none(rows.drop_last(), pred);
        assert(!pred(rows[rows.len() - 1]));
    }
}

pub(crate) proof fn lemma_filter_concat(a: Seq<RowView>, b: Seq<RowView>, pred: spec_fn(RowView) -> bool)
    ensures
        (a + b).filter(pred) == a.filter(pred) + b.filter(pred),
    decreases b.len(),
{
    reveal(Seq::filter);
    if b.len() == 0 {
        assert(a + b =~= a);
        assert(a.filter(pred) + b.filter(pred) =~= a.filter(pred));
    } else {
        assert((a + b).drop_last() =~= a + b.drop_last());
        lemma_filter_concat(a, b.drop_last(), pred);
        assert((a + b).filter(pred) =~= a.filter(pred) + b.filter(pred));
    }
}

/// Every row of a section, its header with them, belongs to that section.
pub proof fn law_rows_belong_to_their_section(
    panel: ChangesPanel,
    section: ChangesSection,
    runs: Seq<RunSourceView>,
)
    ensures
        forall|i: int|
            0 <= i < panel.section_rows(section, runs).len() ==> (
            #[trigger] panel.section_rows(section, runs)[i]).section() == section,
{
    let body = panel.section_body(section, runs);
    assert forall|i: int| 0 <= i < body.len() implies (#[trigger] body[i]).section() == section by {
    }
    let rows = panel.section_rows(section, runs);
    assert forall|i: int| 0 <= i < rows.len() implies (#[trigger] rows[i]).section()
        == section by {
        if i > 0 {
            assert(rows[i] == body[i - 1]);
        }
    }
}

/// The scroller and the well split the panel between them: the well holds the
/// Runs section, the scroller the other three in their order.
pub proof fn law_scroller_and_well_split_the_panel(panel: ChangesPanel, runs: Seq<RunSourceView>)
    ensures
        rows_of_runs(panel.all_rows(runs)) == panel.section_rows(ChangesSection::Runs, runs),
        rows_outside_runs(panel.all_rows(runs)) == panel.section_rows(
            ChangesSection::Uncommitted,
            runs,
        ) + panel.section_rows(ChangesSection::Commits, runs) + panel.section_rows(
            ChangesSection::AgainstMain,
            runs,
        ),
{
    let a = panel.section_rows(ChangesSection::Uncommitted, runs);
    let b = panel.section_rows(ChangesSection::Commits, runs);
    let c = panel.section_rows(ChangesSection::AgainstMain, runs);
    let d = panel.section_rows(ChangesSection::Runs, runs);
    law_rows_belong_to_their_section(panel, ChangesSection::Uncommitted, runs);
    law_rows_belong_to_their_section(panel, ChangesSection::Commits, runs);
    law_rows_belong_to_their_section(panel, ChangesSection::AgainstMain, runs);
    law_rows_belong_to_their_section(panel, ChangesSection::Runs, runs);
    let own = |row: RowView| row.section() == ChangesSection::Runs;
    let other = |row: RowView| row.section() != ChangesSection::Runs;
    lemma_filter_concat(a + b + c, d, own);
    lemma_filter_concat(a + b, c, own);
    lemma_filter_concat(a, b, own);
    lemma_filter_concat(a + b + c, d, other);
    lemma_filter_concat(a + b, c, other);
    lemma_filter_concat(a, b, other);
    lemma_filter_none(a, own);
    lemma_filter_none(b, own);
    lemma_filter_none(c, own);
    lemma_filter_all(d, own);
    lemma_filter_all(a, other);
    lemma_filter_all(b, other);
    lemma_filter_all(c, other);
    lemma_filter_none(d, other);
    assert(rows_of_runs(panel.all_rows(runs)) =~= d);
    assert(rows_outside_runs(panel.all_rows(runs)) =~= a + b + c);
}

/// The panel is one section after the other in their order, and each of them
/// its header and, exactly where it is open, the rows of its body. A header
/// counts the rows of the body that count, open or not; Against main, which
/// has no row for a file, states the number of files. Uncommitted alone says
/// how many of its rows were seen, out of that same count.
pub proof fn law_headers_lead_their_rows(
    panel: ChangesPanel,
    section: ChangesSection,
    runs: Seq<RunSourceView>,
)
    ensures
        panel.all_rows(runs) == panel.section_rows(ChangesSection::ORDER@[0], runs)
            + panel.section_rows(ChangesSection::ORDER@[1], runs) + panel.section_rows(
            ChangesSection::ORDER@[2],
            runs,
        ) + panel.section_rows(ChangesSection::ORDER@[3], runs),
        panel.section_rows(section, runs)[0] == RowView::Header(
            panel.section_header(section, runs),
        ),
        panel.section_rows(section, runs).skip(1) == if panel.sections.open(section) {
            panel.section_body(section, runs)
        } else {
            seq![]
        },
        panel.section_header(section, runs).section == section,
        panel.section_header(section, runs).open == panel.sections.open(section),
        panel.section_header(section, runs).count == if section is AgainstMain {
            panel.change_set@.len()
        } else {
            counted_rows(panel.section_body(section, runs))
        },
        panel.section_header(section, runs).seen == if section is Uncommitted {
            Some(
                (
                    seen_entries(
                        panel.seen_files@,
                        panel.diff_root@,
                        panel.uncommitted_change_set@,
                    ).len(),
                    panel.section_header(section, runs).count,
                ),
            )
        } else {
            None
        },
{
    let body = panel.section_body(section, runs);
    let rows = panel.section_rows(section, runs);
    if panel.sections.open(section) {
        assert(rows.skip(1) =~= body);
    } else {
        assert(rows.skip(1) =~= seq![]);
    }
}

/// The header of an open section counts the rows that follow it, in every
/// section but Against main.
pub proof fn law_header_counts_its_rows(
    panel: ChangesPanel,
    section: ChangesSection,
    runs: Seq<RunSourceView>,
)
    requires
        panel.sections.open(section),
        section != ChangesSection::AgainstMain,
    ensures
        panel.section_header(section, runs).count == counted_rows(
            panel.section_rows(section, runs),
        ),
{
    let body = panel.section_body(section, runs);
    let header = seq![RowView::Header(panel.section_header(section, runs))];
    let pred = |row: RowView| row.counted();
    lemma_filter_concat(header, body, pred);
    lemma_filter_none(header, pred);
    assert(header.filter(pred) + body.filter(pred) =~= body.filter(pred));
}

/// What the panel is about: everything but which sections are open.
pub open spec fn same_contents(panel: ChangesPanel, other: ChangesPanel) -> bool {
    panel == (ChangesPanel { sections: panel.sections, ..other })
}

/// Opening and closing sections changes what a header says only in whether
/// the section is open: its count, its lines and its counter stay.
pub proof fn law_closing_keeps_the_count(
    panel: ChangesPanel,
    other: ChangesPanel,
    section: ChangesSection,
    runs: Seq<RunSourceView>,
)
    requires
        same_contents(panel, other),
    ensures
        panel.section_header(section, runs) == (HeaderView {
            open: panel.sections.open(section),
            ..other.section_header(section, runs)
        }),
{
}

/// Against main never lists files: its rows are what would land and notes, and
/// a header counts none of them.
pub proof fn law_against_main_lists_no_files(panel: ChangesPanel)
    ensures
        forall|i: int|
            0 <= i < panel.against_main_body().len() ==> {
                let row = #[trigger] panel.against_main_body()[i];
                row is AgainstMainContext || row is Note
            },
        counted_rows(panel.against_main_body()) == 0,
{
    lemma_filter_none(panel.against_main_body(), |row: RowView| row.counted());
}

/// A row that can be staged is a row of the uncommitted changes, and there is
/// one for each of them.
pub proof fn law_uncommitted_rows_are_the_changes(panel: ChangesPanel)
    requires
        panel.uncommitted_diff is Loaded,
    ensures
        counted_rows(panel.uncommitted_body()) == panel.uncommitted_change_set@.len(),
{
    reveal(Seq::filter);
    let body = panel.uncommitted_body();
    let pred = |row: RowView| row.counted();
    let n = panel.uncommitted_change_set@.len();
    if n == 0 {
        lemma_filter_none(body, pred);
    } else {
        let files = Seq::new(n, |i: int| RowView::UncommittedFile(i as nat));
        let note = warning_if(
            panel.uncommitted_diff->Loaded_0.truncated,
            ChangesSection::Uncommitted,
            UNCOMMITTED_TRUNCATED@,
        );
        lemma_filter_concat(files, note, pred);
        lemma_filter_all(files, pred);
        lemma_filter_none(note, pred);
        assert(files.filter(pred) + note.filter(pred) =~= files);
    }
}

/// The authors of the runs.
pub open spec fn run_authors(runs: Seq<RunSourceView>) -> Seq<AuthorView> {
    runs.map_values(|run: RunSourceView| run.author)
}

proof fn lemma_run_lines_by_authors(panel: ChangesPanel, runs: Seq<RunSourceView>)
    requires
        runs.len() > 0,
    ensures
        run_lines(panel.runs_body(runs)) == lines_by_all(
            all_shares(panel.uncommitted_change_set@),
            run_authors(runs),
        ),
    decreases runs.len(),
{
    let entries = panel.uncommitted_change_set@;
    let body = panel.runs_body(runs);
    let rest = runs.drop_last();
    assert(run_authors(runs).drop_last() =~= run_authors(rest));
    assert(body.last() == RowView::Run(run_row(runs.last(), entries)));
    if rest.len() > 0 {
        lemma_run_lines_by_authors(panel, rest);
        assert(body.drop_last() =~= panel.runs_body(rest));
    } else {
        assert(body.drop_last() =~= seq![]);
        assert(run_authors(rest) =~= seq![]);
        reveal_with_fuel(run_lines, 2);
        reveal_with_fuel(lines_by_all, 2);
    }
}

/// The lines of runs of different agents can always be counted, as those of
/// the uncommitted changes can, and so their header states them whole.
pub proof fn law_runs_of_different_agents_are_countable(
    panel: ChangesPanel,
    runs: Seq<RunSourceView>,
)
    requires
        run_authors(runs).no_duplicates(),
        fits(lines_of(all_shares(panel.uncommitted_change_set@))),
    ensures
        fits(run_lines(panel.runs_body(runs))),
        panel.section_header(ChangesSection::Runs, runs).stat == run_lines(panel.runs_body(runs)),
{
    if runs.len() > 0 {
        lemma_run_lines_by_authors(panel, runs);
        law_split_at_most_total(all_shares(panel.uncommitted_change_set@), run_authors(runs));
    } else {
        reveal_with_fuel(run_lines, 2);
        assert(panel.runs_body(runs).drop_last() =~= seq![]);
    }
}

/// Where every uncommitted line was written by one of the runs, each of its
/// own agent, the header of Runs and that of Uncommitted state the same lines.
pub proof fn law_runs_sum_to_uncommitted(panel: ChangesPanel, runs: Seq<RunSourceView>)
    requires
        runs.len() > 0,
        fits(lines_of(all_shares(panel.uncommitted_change_set@))),
        run_authors(runs).no_duplicates(),
        forall|i: int|
            0 <= i < all_shares(panel.uncommitted_change_set@).len() ==> run_authors(
                runs,
            ).contains((#[trigger] all_shares(panel.uncommitted_change_set@)[i]).0),
    ensures
        panel.section_header(ChangesSection::Runs, runs).stat == panel.section_header(
            ChangesSection::Uncommitted,
            runs,
        ).stat,
{
    lemma_run_lines_by_authors(panel, runs);
    law_split_is_a_partition(all_shares(panel.uncommitted_change_set@), run_authors(runs));
}

/// Whatever the runs did not write, and you did, is exactly what Runs falls
/// short of Uncommitted by.
pub proof fn law_hand_edits_are_the_difference(panel: ChangesPanel, runs: Seq<RunSourceView>)
    requires
        runs.len() > 0,
        fits(lines_of(all_shares(panel.uncommitted_change_set@))),
        run_authors(runs).no_duplicates(),
        !run_authors(runs).contains(AuthorView::You),
        forall|i: int|
            0 <= i < all_shares(panel.uncommitted_change_set@).len() ==> run_authors(runs).push(
                AuthorView::You,
            ).contains((#[trigger] all_shares(panel.uncommitted_change_set@)[i]).0),
    ensures
        plus_lines(
            panel.section_header(ChangesSection::Runs, runs).stat,
            lines_by(all_shares(panel.uncommitted_change_set@), AuthorView::You),
        ) == panel.section_header(ChangesSection::Uncommitted, runs).stat,
{
    let authors = run_authors(runs).push(AuthorView::You);
    assert(authors.no_duplicates());
    lemma_run_lines_by_authors(panel, runs);
    law_split_is_a_partition(all_shares(panel.uncommitted_change_set@), authors);
    assert(authors.drop_last() =~= run_authors(runs));
}

} // verus!
