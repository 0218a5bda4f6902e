use vstd::prelude::*;
use vstd::string::*;

use crate::change_set::{Author, ChangeSet, DiffStat};
use crate::laws::{lemma_picks, picks};
use crate::panel::{
    counted_rows, law_headers_lead_their_rows, law_rows_belong_to_their_section,
    law_scroller_and_well_split_the_panel, law_uncommitted_rows_are_the_changes, run_sources,
    runs_of, short_sha, AgentInfo, BranchDiff, ChangesPanel,
};
use crate::path::FilePath;
use crate::sections::{
    row_views, run_meta, run_row, run_title, source_views, ChangesSection, RowView, RunRow,
    RunSource, RunSourceView, ScopeLoad, SectionCollapse, SectionHeader, SectionRow, SeenFiles,
};
use crate::text::{count_text, decimal_text, elapsed_text, joined, uppercase_text};

verus! {

proof fn lemma_length(rows: Seq<SectionRow>)
    ensures
        row_views(rows).len() == rows.len(),
{
}

proof fn lemma_row_at(rows: Seq<SectionRow>, i: int)
    requires
        0 <= i < rows.len(),
    ensures
        row_views(rows)[i] == rows[i]@,
{
}

/// With the uncommitted diff read, the Uncommitted section lists every change
/// once, in the order of the changes: the row at place `i` is the file with
/// the index `i`. Behind them stands at most the note on what is missing.
pub proof fn law_every_change_has_its_row(
    panel: &ChangesPanel,
    sources: &[RunSource],
    body: Vec<SectionRow>,
)
    requires
        call_ensures(
            ChangesPanel::changes_section_body,
            (panel, ChangesSection::Uncommitted, sources),
            body,
        ),
        panel.uncommitted_diff is Loaded,
        panel.uncommitted_change_set@.len() > 0,
    ensures
        body@.len() == panel.uncommitted_change_set@.len() + (
        if panel.uncommitted_diff->Loaded_0.truncated {
            1int
        } else {
            0
        }),
        forall|i: int|
            0 <= i < panel.uncommitted_change_set@.len() ==> (
            #[trigger] body@[i] matches SectionRow::UncommittedFile(index) && index == i),
        panel.uncommitted_diff->Loaded_0.truncated ==> (
        body@.last() matches SectionRow::Note { section, emphasis, .. } && section is Uncommitted
            && emphasis is Warning),
{
    lemma_length(body@);
    assert forall|i: int| 0 <= i < panel.uncommitted_change_set@.len() implies (
    #[trigger] body@[i] matches SectionRow::UncommittedFile(index) && index == i) by {
        lemma_row_at(body@, i);
        assert(row_views(body@)[i] == RowView::UncommittedFile(i as nat));
    }
    if panel.uncommitted_diff->Loaded_0.truncated {
        lemma_row_at(body@, body@.len() - 1);
    }
}

/// The same of the panel as a whole: below the first header, where it is open,
/// the row at place `i` is the file with the index `i`.
pub proof fn law_every_change_has_its_row_in_the_panel(
    panel: &ChangesPanel,
    sources: &[RunSource],
    rows: Vec<SectionRow>,
)
    requires
        call_ensures(ChangesPanel::changes_section_rows, (panel, sources), rows),
        panel.uncommitted_diff is Loaded,
        panel.sections.open(ChangesSection::Uncommitted),
    ensures
        rows@.len() > panel.uncommitted_change_set@.len(),
        rows@[0] matches SectionRow::Header(header) && header.section is Uncommitted && header.count
            == panel.uncommitted_change_set@.len(),
        forall|i: int|
            0 <= i < panel.uncommitted_change_set@.len() ==> (
            #[trigger] rows@[1 + i] matches SectionRow::UncommittedFile(index) && index == i),
        forall|k: int|
            panel.uncommitted_change_set@.len() < k < rows@.len() ==> !(
            #[trigger] rows@[k] is UncommittedFile),
{
    let runs = source_views(sources@);
    let n = panel.uncommitted_change_set@.len();
    let body = panel.uncommitted_body();
    let all = row_views(rows@);
    lemma_length(rows@);
    law_uncommitted_rows_are_the_changes(*panel);
    law_headers_lead_their_rows(*panel, ChangesSection::Uncommitted, runs);
    let first = panel.section_rows(ChangesSection::Uncommitted, runs);
    assert(first.len() == 1 + body.len());
    lemma_row_at(rows@, 0);
    assert forall|i: int| 0 <= i < n implies (
    #[trigger] rows@[1 + i] matches SectionRow::UncommittedFile(index) && index == i) by {
        lemma_row_at(rows@, 1 + i);
        assert(all[1 + i] == first[1 + i]);
        assert(first[1 + i] == body[i]);
    }
    law_rows_belong_to_their_section(*panel, ChangesSection::Commits, runs);
    law_rows_belong_to_their_section(*panel, ChangesSection::AgainstMain, runs);
    law_rows_belong_to_their_section(*panel, ChangesSection::Runs, runs);
    let second = panel.section_rows(ChangesSection::Commits, runs);
    let third = panel.section_rows(ChangesSection::AgainstMain, runs);
    let fourth = panel.section_rows(ChangesSection::Runs, runs);
    assert forall|k: int| n < k < rows@.len() implies !(#[trigger] rows@[k] is UncommittedFile) by {
        lemma_row_at(rows@, k);
        if k < first.len() {
            assert(all[k] == first[k]);
            assert(first[k] == body[k - 1]);
            assert(body[k - 1] is Note);
        } else if k < first.len() + second.len() {
            assert(all[k] == second[k - first.len()]);
        } else if k < first.len() + second.len() + third.len() {
            assert(all[k] == third[k - first.len() - second.len()]);
        } else {
            assert(all[k] == fourth[k - first.len() - second.len() - third.len()]);
        }
    }
}

/// A section that has nothing to list has one note of its own instead: a
/// warning with the reason where it could not be read, and a quiet one where
/// it is not read yet or there is nothing.
pub proof fn law_nothing_to_list_is_said(
    panel: &ChangesPanel,
    sources: &[RunSource],
    uncommitted: Vec<SectionRow>,
    commits: Vec<SectionRow>,
    against: Vec<SectionRow>,
    runs: Vec<SectionRow>,
)
    requires
        call_ensures(
            ChangesPanel::changes_section_body,
            (panel, ChangesSection::Uncommitted, sources),
            uncommitted,
        ),
        call_ensures(
            ChangesPanel::changes_section_body,
            (panel, ChangesSection::Commits, sources),
            commits,
        ),
        call_ensures(
            ChangesPanel::changes_section_body,
            (panel, ChangesSection::AgainstMain, sources),
            against,
        ),
        call_ensures(
            ChangesPanel::changes_section_body,
            (panel, ChangesSection::Runs, sources),
            runs,
        ),
    ensures
        panel.uncommitted_diff matches ScopeLoad::Error(message) ==> is_note(
            uncommitted@,
            ChangesSection::Uncommitted,
            message@,
            true,
        ),
        panel.uncommitted_diff is Loading ==> is_note(
            uncommitted@,
            ChangesSection::Uncommitted,
            "computing uncommitted changes..."@,
            false,
        ),
        panel.uncommitted_diff is Loaded && panel.uncommitted_change_set@.len() == 0 ==> is_note(
            uncommitted@,
            ChangesSection::Uncommitted,
            "nothing uncommitted in this checkout"@,
            false,
        ),
        panel.branch_commits matches ScopeLoad::Error(message) ==> is_note(
            commits@,
            ChangesSection::Commits,
            message@,
            true,
        ),
        panel.branch_commits is Loading ==> is_note(
            commits@,
            ChangesSection::Commits,
            "reading this branch's commits..."@,
            false,
        ),
        panel.branch_commits matches ScopeLoad::Loaded(loaded) ==> {
            &&& loaded.base_branch is None ==> is_note(
                commits@,
                ChangesSection::Commits,
                "no base branch to measure this branch's own commits against"@,
                false,
            )
            &&& loaded.base_branch is Some && loaded.commits@.len() == 0 ==> is_note(
                commits@,
                ChangesSection::Commits,
                "nothing committed on this branch yet"@,
                false,
            )
        },
        panel.branch_diff matches BranchDiff::Missing { message, failed } ==> is_note(
            against@,
            ChangesSection::AgainstMain,
            message@,
            failed,
        ),
        panel.branch_diff is Loaded && panel.change_set@.len() == 0 ==> is_note(
            against@,
            ChangesSection::AgainstMain,
            "this branch matches its base exactly"@,
            false,
        ),
        sources@.len() == 0 ==> is_note(
            runs@,
            ChangesSection::Runs,
            "no agents have run in this worktree yet"@,
            false,
        ),
{
    lemma_length(uncommitted@);
    lemma_length(commits@);
    lemma_length(against@);
    lemma_length(runs@);
    if uncommitted@.len() > 0 {
        lemma_row_at(uncommitted@, 0);
    }
    if commits@.len() > 0 {
        lemma_row_at(commits@, 0);
    }
    if against@.len() > 0 {
        lemma_row_at(against@, 0);
    }
    if runs@.len() > 0 {
        lemma_row_at(runs@, 0);
    }
}

/// The rows are one note.
pub open spec fn is_note(
    rows: Seq<SectionRow>,
    section: ChangesSection,
    text: Seq<char>,
    warns: bool,
) -> bool {
    &&& rows.len() == 1
    &&& rows[0] matches SectionRow::Note { section: own, text: told, emphasis } && own == section
        && told@ == text && (emphasis is Warning) == warns
}

/// The Commits section lists every commit of the branch once, in git's order,
/// each with its id, its subject and its lines.
pub proof fn law_every_commit_has_its_row(
    panel: &ChangesPanel,
    sources: &[RunSource],
    body: Vec<SectionRow>,
)
    requires
        call_ensures(
            ChangesPanel::changes_section_body,
            (panel, ChangesSection::Commits, sources),
            body,
        ),
        panel.branch_commits matches ScopeLoad::Loaded(loaded) && loaded.base_branch is Some
            && loaded.commits@.len() > 0,
    ensures
        ({
            let loaded = panel.branch_commits->Loaded_0;
            let commits = loaded.commits@;
            &&& body@.len() == commits.len() + (if loaded.truncated {
                1int
            } else {
                0
            })
            &&& forall|i: int|
                0 <= i < commits.len() ==> (#[trigger] body@[i] matches SectionRow::Commit(row)
                    && row.short_id@ == commits[i].short_id@ && row.subject@
                    == commits[i].subject@ && row.added == commits[i].added && row.removed
                    == commits[i].removed)
            &&& loaded.truncated ==> body@.last() is Note
        }),
{
    let loaded = panel.branch_commits->Loaded_0;
    let commits = loaded.commits@;
    lemma_length(body@);
    assert forall|i: int| 0 <= i < commits.len() implies (
    #[trigger] body@[i] matches SectionRow::Commit(row) && row.short_id@ == commits[i].short_id@
        && row.subject@ == commits[i].subject@ && row.added == commits[i].added && row.removed
        == commits[i].removed) by {
        lemma_row_at(body@, i);
        assert(row_views(body@)[i] == RowView::Commit(commits[i]@));
    }
    if loaded.truncated {
        lemma_row_at(body@, body@.len() - 1);
    }
}

/// Against main says how many files would land on the base branch, and where
/// the branch stands: git's own counts, or else the start of the commit that
/// it parted from.
pub proof fn law_what_would_land(
    panel: &ChangesPanel,
    sources: &[RunSource],
    body: Vec<SectionRow>,
    base: Option<&str>,
    files: String,
    commit: &str,
    short: String,
)
    requires
        call_ensures(
            ChangesPanel::changes_section_body,
            (panel, ChangesSection::AgainstMain, sources),
            body,
        ),
        call_ensures(ChangesPanel::changes_base_branch, (panel,), base),
        base is Some,
        panel.branch_diff matches BranchDiff::Loaded(diff) && commit@ == diff.base_commit@,
        panel.change_set@.len() > 0,
        panel.change_set@.len() <= usize::MAX,
        call_ensures(count_text, (panel.change_set@.len() as usize, "file"), files),
        call_ensures(short_sha, (commit,), short),
    ensures
        body@.len() == if panel.branch_diff->Loaded_0.truncated {
            2int
        } else {
            1
        },
        body@[0] matches SectionRow::AgainstMainContext { text, sub } && text@ == files@
            + " would land on "@ + base->0@ && (!panel.ahead_behind@.contains_key(panel.diff_root@)
            ==> sub@ == "merge-base "@ + short@),
{
    lemma_length(body@);
    lemma_row_at(body@, 0);
}

/// Where git has counted them, the commits that the branch is ahead and behind
/// are told.
pub proof fn law_where_the_branch_stands(
    panel: &ChangesPanel,
    sources: &[RunSource],
    body: Vec<SectionRow>,
    ahead: String,
    behind: String,
)
    requires
        call_ensures(
            ChangesPanel::changes_section_body,
            (panel, ChangesSection::AgainstMain, sources),
            body,
        ),
        panel.branch_commits matches ScopeLoad::Loaded(loaded) && loaded.base_branch is Some,
        panel.branch_diff is Loaded,
        panel.change_set@.len() > 0,
        panel.ahead_behind@.contains_key(panel.diff_root@),
        call_ensures(
            decimal_text,
            (panel.ahead_behind@[panel.diff_root@].ahead as u64,),
            ahead,
        ),
        call_ensures(
            decimal_text,
            (panel.ahead_behind@[panel.diff_root@].behind as u64,),
            behind,
        ),
    ensures
        body@.len() > 0,
        body@[0] matches SectionRow::AgainstMainContext { sub, .. } && sub@ == ahead@
            + " ahead \u{b7} "@ + behind@ + " behind"@,
{
    lemma_length(body@);
    lemma_row_at(body@, 0);
}

/// A commit's id is shortened to its first seven characters.
pub proof fn law_short_id_starts_the_id(sha: &str, short: String)
    requires
        call_ensures(short_sha, (sha,), short),
    ensures
        sha@.len() >= 7 ==> short@.len() == 7,
        sha@.len() < 7 ==> short@.len() == sha@.len(),
        forall|i: int| 0 <= i < short@.len() ==> #[trigger] short@[i] == sha@[i],
{
}

/// There is one row for each run, in the order of the runs, and each shows
/// what its own agent wrote of the uncommitted changes, by the change set's
/// own account, with the face of that agent.
pub proof fn law_every_run_has_its_row(
    panel: &ChangesPanel,
    sources: &[RunSource],
    body: Vec<SectionRow>,
    i: int,
    author: &Author,
    stat: DiffStat,
    paths: Vec<FilePath>,
    title: String,
    files: String,
    label: &str,
    meta: String,
)
    requires
        call_ensures(
            ChangesPanel::changes_section_body,
            (panel, ChangesSection::Runs, sources),
            body,
        ),
        0 <= i < sources@.len(),
        *author matches Author::Agent(agent) && agent.key@ == sources@[i].agent_key.key@,
        call_ensures(ChangeSet::split_for, (&panel.uncommitted_change_set, author), stat),
        call_ensures(ChangeSet::paths_for, (&panel.uncommitted_change_set, author), paths),
        exists|slice: &[FilePath]|
            slice@ == paths@ && #[trigger] call_ensures(run_title, (slice,), title),
        paths@.len() <= usize::MAX,
        call_ensures(count_text, (paths@.len() as usize, "file"), files),
        label@ == sources@[i].agent_label@,
        call_ensures(run_meta, (label, sources@[i].live, sources@[i].elapsed), meta),
    ensures
        body@.len() == sources@.len(),
        body@[i] matches SectionRow::Run(row) && {
            &&& row.agent_id == sources@[i].agent_id
            &&& row.live == sources@[i].live
            &&& row.initial@ == sources@[i].initial@
            &&& row.tint_fg == sources@[i].tint.0
            &&& row.tint_bg == sources@[i].tint.1
            &&& row.stat == stat
            &&& row.title@ == title@
            &&& row.files_label@ == files@
            &&& row.meta@ == meta@
        },
{
    let runs = source_views(sources@);
    assert(body@.len() == row_views(body@).len());
    lemma_row_at(body@, i);
    let row = run_row(runs[i], panel.uncommitted_change_set@);
    assert(row_views(body@)[i] == RowView::Run(row));
    assert(runs[i] == sources@[i]@);
    let shown = body@[i]->Run_0;
    assert(shown@ == row);
    assert(shown.stat.lines() == stat.lines());
    assert(crate::path_set::given(paths@).len() == paths@.len());
}

/// An agent has a run, and another process has none. The runs come in the
/// order of the processes; a run that is alive is as old as its process, and
/// one that ended is so since it was last heard of.
pub proof fn law_agents_have_runs(agents: &[AgentInfo], sources: Vec<RunSource>) -> (at: Seq<
    int,
>)
    requires
        call_ensures(run_sources, (agents,), sources),
    ensures
        picks(at, agents@.len() as int, |i: int| agents@[i].face is Some),
        at.len() == sources@.len(),
        forall|k: int|
            0 <= k < at.len() ==> {
                let agent = agents@[#[trigger] at[k]];
                let source = sources@[k];
                &&& source.agent_id == agent.id
                &&& source.agent_key.key@ == agent.face->0.key@
                &&& source.agent_label@ == agent.face->0.label@
                &&& source.initial@ == agent.face->0.initial@
                &&& source.tint == agent.face->0.tint
                &&& source.live == agent.live
                &&& agent.live || agent.idle_seconds is None ==> source.elapsed
                    == agent.running_seconds
                &&& !agent.live && agent.idle_seconds is Some ==> source.elapsed
                    == agent.idle_seconds->0
            },
{
    let at = lemma_runs_pick(agents@);
    assert(source_views(sources@).len() == sources@.len());
    assert forall|k: int| 0 <= k < at.len() implies source_views(sources@)[k] == sources@[k]@
        && crate::panel::run_of(agents@[#[trigger] at[k]]) == Some(sources@[k]@) by {
    }
    at
}

proof fn lemma_runs_pick(agents: Seq<AgentInfo>) -> (at: Seq<int>)
    ensures
        picks(at, agents.len() as int, |i: int| agents[i].face is Some),
        at.len() == runs_of(agents).len(),
        forall|k: int|
            0 <= k < at.len() ==> crate::panel::run_of(agents[#[trigger] at[k]]) == Some(
                runs_of(agents)[k],
            ),
    decreases agents.len(),
{
    if agents.len() == 0 {
        seq![]
    } else {
        let rest = agents.drop_last();
        let before = lemma_runs_pick(rest);
        let last = agents.len() - 1;
        assert forall|k: int| 0 <= k < before.len() implies rest[#[trigger] before[k]]
            == agents[before[k]] by {
        }
        lemma_picks(
            before,
            last,
            |i: int| rest[i].face is Some,
            |i: int| agents[i].face is Some,
        )
    }
}

/// The title of a run is made of the names of the first two files that it
/// wrote; where there are more it says how many.
pub proof fn law_title_names_two_files(
    paths: &[FilePath],
    title: String,
    more: String,
)
    requires
        call_ensures(run_title, (paths,), title),
        paths@.len() > 0,
        forall|i: int|
            0 <= i < paths@.len() ==> crate::path::file_name((#[trigger] paths@[i])@) is Some,
        paths@.len() >= 2 ==> call_ensures(decimal_text, ((paths@.len() - 2) as u64,), more),
        paths@.len() <= usize::MAX,
    ensures
        ({
            let first = crate::path::file_name(paths@[0]@)->0;
            let second = crate::path::file_name(paths@[1]@)->0;
            &&& paths@.len() == 1 ==> title@ == first
            &&& paths@.len() == 2 ==> title@ == first + ", "@ + second
            &&& paths@.len() > 2 ==> title@ == first + ", "@ + second + " and "@ + more@ + " more"@
        }),
{
    let all = crate::path_set::given(paths@);
    let first = crate::path::file_name(paths@[0]@)->0;
    assert(all[0] == paths@[0].text());
    if paths@.len() == 1 {
        let names = crate::sections::short_names(all);
        assert(names =~= seq![first]);
    } else {
        let second = crate::path::file_name(paths@[1]@)->0;
        assert(all[1] == paths@[1].text());
        let two = crate::sections::short_names(all.take(2));
        assert(two =~= seq![first, second]);
        assert(two.drop_last() =~= seq![first]);
        reveal_with_fuel(joined, 3);
        if paths@.len() == 2 {
            assert(all.take(2) =~= all);
        }
    }
}

/// The second line of a run names its agent first and its age last, and says
/// between them whether it is alive.
pub proof fn law_meta_names_the_agent(
    label: &str,
    live: bool,
    seconds: u64,
    meta: String,
    age: String,
)
    requires
        call_ensures(run_meta, (label, live, seconds), meta),
        call_ensures(elapsed_text, (seconds,), age),
    ensures
        live ==> meta@ == label@ + " \u{b7} running \u{b7} "@ + age@,
        !live ==> meta@ == label@ + " \u{b7} ended "@ + age@,
{
}

/// Whether the rows from `at` on are a section: its header and, exactly where
/// it is open, its body.
pub open spec fn section_at(
    rows: Seq<SectionRow>,
    at: int,
    section: ChangesSection,
    open: bool,
    body: Seq<SectionRow>,
) -> bool {
    &&& 0 <= at < rows.len()
    &&& rows[at] matches SectionRow::Header(header) && header.section == section && header.open
        == open
    &&& open ==> at + body.len() < rows.len() && forall|i: int|
        0 <= i < body.len() ==> (#[trigger] rows[at + 1 + i])@ == body[i]@
}

/// How many rows a section takes.
pub open spec fn length(open: bool, body: Seq<SectionRow>) -> int {
    if open {
        body.len() + 1int
    } else {
        1
    }
}

/// The panel is its four sections, one after the other: the uncommitted
/// changes, the commits, what stands against the base, and the runs. Each is
/// its header and, exactly where it is open, its body; nothing else is in the
/// panel.
pub proof fn law_panel_is_its_sections(
    panel: &ChangesPanel,
    sources: &[RunSource],
    rows: Vec<SectionRow>,
    uncommitted: Vec<SectionRow>,
    commits: Vec<SectionRow>,
    against: Vec<SectionRow>,
    runs: Vec<SectionRow>,
    open: spec_fn(ChangesSection) -> bool,
)
    requires
        call_ensures(ChangesPanel::changes_section_rows, (panel, sources), rows),
        call_ensures(
            ChangesPanel::changes_section_body,
            (panel, ChangesSection::Uncommitted, sources),
            uncommitted,
        ),
        call_ensures(
            ChangesPanel::changes_section_body,
            (panel, ChangesSection::Commits, sources),
            commits,
        ),
        call_ensures(
            ChangesPanel::changes_section_body,
            (panel, ChangesSection::AgainstMain, sources),
            against,
        ),
        call_ensures(
            ChangesPanel::changes_section_body,
            (panel, ChangesSection::Runs, sources),
            runs,
        ),
        forall|section: ChangesSection|
            #[trigger] call_ensures(
                SectionCollapse::is_open,
                (&panel.sections, section),
                open(section),
            ),
    ensures
        ({
            let first = length(open(ChangesSection::Uncommitted), uncommitted@);
            let second = first + length(open(ChangesSection::Commits), commits@);
            let third = second + length(open(ChangesSection::AgainstMain), against@);
            &&& section_at(
                rows@,
                0,
                ChangesSection::Uncommitted,
                open(ChangesSection::Uncommitted),
                uncommitted@,
            )
            &&& section_at(
                rows@,
                first,
                ChangesSection::Commits,
                open(ChangesSection::Commits),
                commits@,
            )
            &&& section_at(
                rows@,
                second,
                ChangesSection::AgainstMain,
                open(ChangesSection::AgainstMain),
                against@,
            )
            &&& section_at(
                rows@,
                third,
                ChangesSection::Runs,
                open(ChangesSection::Runs),
                runs@,
            )
            &&& rows@.len() == third + length(open(ChangesSection::Runs), runs@)
        }),
{
    let views = source_views(sources@);
    let all = row_views(rows@);
    lemma_piece(panel, views, ChangesSection::Uncommitted, uncommitted@);
    lemma_piece(panel, views, ChangesSection::Commits, commits@);
    lemma_piece(panel, views, ChangesSection::AgainstMain, against@);
    lemma_piece(panel, views, ChangesSection::Runs, runs@);
    assert(call_ensures(
        SectionCollapse::is_open,
        (&panel.sections, ChangesSection::Uncommitted),
        open(ChangesSection::Uncommitted),
    ));
    assert(call_ensures(
        SectionCollapse::is_open,
        (&panel.sections, ChangesSection::Commits),
        open(ChangesSection::Commits),
    ));
    assert(call_ensures(
        SectionCollapse::is_open,
        (&panel.sections, ChangesSection::AgainstMain),
        open(ChangesSection::AgainstMain),
    ));
    assert(call_ensures(
        SectionCollapse::is_open,
        (&panel.sections, ChangesSection::Runs),
        open(ChangesSection::Runs),
    ));
    let a = panel.section_rows(ChangesSection::Uncommitted, views);
    let b = panel.section_rows(ChangesSection::Commits, views);
    let c = panel.section_rows(ChangesSection::AgainstMain, views);
    let d = panel.section_rows(ChangesSection::Runs, views);
    assert(all == a + b + c + d);
    assert(all.len() == rows@.len());
    lemma_placed(rows@, 0, a);
    lemma_placed(rows@, a.len() as int, b);
    lemma_placed(rows@, (a.len() + b.len()) as int, c);
    lemma_placed(rows@, (a.len() + b.len() + c.len()) as int, d);
    lemma_section_at(panel, views, rows@, 0, ChangesSection::Uncommitted, uncommitted@);
    lemma_section_at(panel, views, rows@, a.len() as int, ChangesSection::Commits, commits@);
    lemma_section_at(
        panel,
        views,
        rows@,
        (a.len() + b.len()) as int,
        ChangesSection::AgainstMain,
        against@,
    );
    lemma_section_at(
        panel,
        views,
        rows@,
        (a.len() + b.len() + c.len()) as int,
        ChangesSection::Runs,
        runs@,
    );
}

proof fn lemma_piece(
    panel: &ChangesPanel,
    views: Seq<RunSourceView>,
    section: ChangesSection,
    body: Seq<SectionRow>,
)
    requires
        row_views(body) == panel.section_body(section, views),
    ensures
        panel.section_rows(section, views).len() == length(panel.sections.open(section), body),
{
    assert(row_views(body).len() == body.len());
}

proof fn lemma_placed(rows: Seq<SectionRow>, at: int, piece: Seq<RowView>)
    requires
        0 <= at,
        at + piece.len() <= rows.len(),
        forall|i: int| 0 <= i < piece.len() ==> #[trigger] row_views(rows)[at + i] == piece[i],
    ensures
        forall|i: int| 0 <= i < piece.len() ==> (#[trigger] rows[at + i])@ == piece[i],
{
    assert forall|i: int| 0 <= i < piece.len() implies (#[trigger] rows[at + i])@
        == piece[i] by {
        lemma_row_at(rows, at + i);
        assert(row_views(rows)[at + i] == piece[i]);
    }
}

proof fn lemma_section_at(
    panel: &ChangesPanel,
    views: Seq<RunSourceView>,
    rows: Seq<SectionRow>,
    at: int,
    section: ChangesSection,
    body: Seq<SectionRow>,
)
    requires
        row_views(body) == panel.section_body(section, views),
        0 <= at,
        at + panel.section_rows(section, views).len() <= rows.len(),
        forall|i: int|
            0 <= i < panel.section_rows(section, views).len() ==> (#[trigger] rows[at + i])@
                == panel.section_rows(section, views)[i],
    ensures
        section_at(rows, at, section, panel.sections.open(section), body),
{
    let piece = panel.section_rows(section, views);
    assert(rows[at + 0]@ == piece[0]);
    assert(row_views(body).len() == body.len());
    if panel.sections.open(section) {
        assert forall|i: int| 0 <= i < body.len() implies (#[trigger] rows[at + 1 + i])@
            == body[i]@ by {
            lemma_row_at(body, i);
            assert(rows[at + (1 + i)]@ == piece[1 + i]);
        }
    }
}

/// What the headers state: the number of changes, commits, files and runs,
/// whether their section is open or not; the lines by the change sets' own
/// account; and, for the uncommitted changes alone, how many were seen.
pub proof fn law_headers_state_their_sections(
    panel: &ChangesPanel,
    sources: &[RunSource],
    rows: Vec<SectionRow>,
    at: int,
    header: SectionHeader,
    uncommitted: DiffStat,
    branch: DiffStat,
    seen: usize,
)
    requires
        call_ensures(ChangesPanel::changes_section_rows, (panel, sources), rows),
        0 <= at < rows@.len(),
        rows@[at] == SectionRow::Header(header),
        call_ensures(ChangeSet::total, (&panel.uncommitted_change_set,), uncommitted),
        call_ensures(ChangeSet::total, (&panel.change_set,), branch),
        call_ensures(
            SeenFiles::seen_count,
            (&panel.seen_files, &panel.diff_root, &panel.uncommitted_change_set),
            seen,
        ),
    ensures
        header.section is Uncommitted ==> header.stat == uncommitted && header.seen == Some(
            (seen, header.count),
        ) && header.count == if panel.uncommitted_diff is Loaded {
            panel.uncommitted_change_set@.len()
        } else {
            0
        },
        header.section is AgainstMain ==> header.stat == branch && header.count
            == panel.change_set@.len(),
        header.section is Commits ==> {
            &&& panel.branch_commits matches ScopeLoad::Loaded(loaded) ==> header.stat.added
                == loaded.added && header.stat.removed == loaded.removed && (
            loaded.base_branch is Some ==> header.count == loaded.commits@.len())
            &&& !(panel.branch_commits is Loaded) ==> header.stat.added == 0 && header.stat.removed
                == 0 && header.count == 0
        },
        header.section is Runs ==> header.count == sources@.len(),
        !(header.section is Uncommitted) ==> header.seen is None,
{
    let views = source_views(sources@);
    assert(views.len() == sources@.len());
    lemma_length(rows@);
    lemma_row_at(rows@, at);
    let all = row_views(rows@);
    assert(all[at] == RowView::Header(header@));
    let a = panel.section_rows(ChangesSection::Uncommitted, views);
    let b = panel.section_rows(ChangesSection::Commits, views);
    let c = panel.section_rows(ChangesSection::AgainstMain, views);
    let d = panel.section_rows(ChangesSection::Runs, views);
    lemma_only_header(panel, views, ChangesSection::Uncommitted);
    lemma_only_header(panel, views, ChangesSection::Commits);
    lemma_only_header(panel, views, ChangesSection::AgainstMain);
    lemma_only_header(panel, views, ChangesSection::Runs);
    if at < a.len() {
        assert(all[at] == a[at]);
    } else if at < a.len() + b.len() {
        assert(all[at] == b[at - a.len()]);
    } else if at < a.len() + b.len() + c.len() {
        assert(all[at] == c[at - a.len() - b.len()]);
    } else {
        assert(all[at] == d[at - a.len() - b.len() - c.len()]);
    }
    assert(header@ == panel.section_header(header.section, views));
    lemma_counts(panel, views);
    assert(header.stat.lines() == (header.stat.added as nat, header.stat.removed as nat));
}

proof fn lemma_only_header(
    panel: &ChangesPanel,
    views: Seq<RunSourceView>,
    section: ChangesSection,
)
    ensures
        forall|i: int|
            0 <= i < panel.section_rows(section, views).len() ==> (
            #[trigger] panel.section_rows(section, views)[i] is Header ==> panel.section_rows(
                section,
                views,
            )[i] == RowView::Header(panel.section_header(section, views))),
{
    let body = panel.section_body(section, views);
    let rows = panel.section_rows(section, views);
    assert forall|i: int| 0 <= i < body.len() implies !(#[trigger] body[i] is Header) by {
    }
    assert forall|i: int| 0 <= i < rows.len() && #[trigger] rows[i] is Header implies rows[i]
        == RowView::Header(panel.section_header(section, views)) by {
        if i > 0 {
            assert(rows[i] == body[i - 1]);
        }
    }
}

proof fn lemma_counts(panel: &ChangesPanel, views: Seq<RunSourceView>)
    ensures
        counted_rows(panel.uncommitted_body()) == if panel.uncommitted_diff is Loaded {
            panel.uncommitted_change_set@.len()
        } else {
            0
        },
        counted_rows(panel.commits_body()) == if panel.branch_commits is Loaded
            && panel.branch_commits->Loaded_0.base_branch is Some {
            panel.branch_commits->Loaded_0.commits@.len()
        } else {
            0
        },
        counted_rows(panel.runs_body(views)) == views.len(),
{
    let pred = |row: RowView| row.counted();
    if panel.uncommitted_diff is Loaded {
        law_uncommitted_rows_are_the_changes(*panel);
    } else {
        crate::panel::lemma_filter_none(panel.uncommitted_body(), pred);
    }
    let commits = panel.commits_body();
    if panel.branch_commits is Loaded && panel.branch_commits->Loaded_0.base_branch is Some
        && panel.branch_commits->Loaded_0.commits@.len() > 0 {
        let n = panel.branch_commits->Loaded_0.commits@.len() as int;
        assert(commits =~= commits.take(n) + commits.skip(n));
        crate::panel::lemma_filter_concat(commits.take(n), commits.skip(n), pred);
        crate::panel::lemma_filter_all(commits.take(n), pred);
        crate::panel::lemma_filter_none(commits.skip(n), pred);
        assert(commits.filter(pred) =~= commits.take(n));
    } else {
        crate::panel::lemma_filter_none(commits, pred);
    }
    let runs = panel.runs_body(views);
    if views.len() == 0 {
        crate::panel::lemma_filter_none(runs, pred);
    } else {
        crate::panel::lemma_filter_all(runs, pred);
    }
}

/// The well holds the rows of the runs and nothing else, the scroller all
/// others, and neither loses, repeats or reorders one.
pub proof fn law_scroller_and_well_hold_every_row(
    panel: &ChangesPanel,
    sources: &[RunSource],
    rows: Vec<SectionRow>,
    scroller: Vec<SectionRow>,
    well: Vec<SectionRow>,
)
    requires
        call_ensures(ChangesPanel::changes_section_rows, (panel, sources), rows),
        call_ensures(ChangesPanel::scroller_rows, (panel, sources), scroller),
        call_ensures(ChangesPanel::runs_section_rows, (panel, sources), well),
    ensures
        rows@.len() == scroller@.len() + well@.len(),
        forall|i: int| 0 <= i < scroller@.len() ==> (#[trigger] scroller@[i])@ == rows@[i]@,
        forall|i: int|
            0 <= i < well@.len() ==> (#[trigger] well@[i])@ == rows@[scroller@.len() + i]@,
{
    let (above, own) = lemma_two_parts(
        panel,
        source_views(sources@),
        row_views(rows@),
        row_views(scroller@),
        row_views(well@),
    );
    lemma_split_rows(rows@, scroller@, well@, above, own);
}

/// The well starts with the header of the runs, and no run and no header of
/// theirs is in the scroller.
pub proof fn law_runs_are_in_the_well(
    panel: &ChangesPanel,
    sources: &[RunSource],
    rows: Vec<SectionRow>,
    scroller: Vec<SectionRow>,
    well: Vec<SectionRow>,
)
    requires
        call_ensures(ChangesPanel::changes_section_rows, (panel, sources), rows),
        call_ensures(ChangesPanel::scroller_rows, (panel, sources), scroller),
        call_ensures(ChangesPanel::runs_section_rows, (panel, sources), well),
    ensures
        well@.len() > 0,
        well@[0] matches SectionRow::Header(header) && header.section is Runs,
        forall|i: int|
            0 <= i < scroller@.len() ==> !(#[trigger] scroller@[i] is Run) && !(
            scroller@[i] matches SectionRow::Header(header) && header.section is Runs),
{
    let (above, own) = lemma_two_parts(
        panel,
        source_views(sources@),
        row_views(rows@),
        row_views(scroller@),
        row_views(well@),
    );
    lemma_kinds(scroller@, well@, above, own);
}

proof fn lemma_kinds(
    scroller: Seq<SectionRow>,
    well: Seq<SectionRow>,
    above: Seq<RowView>,
    own: Seq<RowView>,
)
    requires
        row_views(scroller) == above,
        row_views(well) == own,
        own.len() > 0,
        own[0] matches RowView::Header(header) && header.section is Runs,
        forall|i: int|
            0 <= i < above.len() ==> (#[trigger] above[i]).section() != ChangesSection::Runs,
    ensures
        well.len() > 0,
        well[0] matches SectionRow::Header(header) && header.section is Runs,
        forall|i: int|
            0 <= i < scroller.len() ==> !(#[trigger] scroller[i] is Run) && !(
            scroller[i] matches SectionRow::Header(header) && header.section is Runs),
{
    lemma_length(scroller);
    lemma_length(well);
    lemma_row_at(well, 0);
    assert forall|i: int| 0 <= i < scroller.len() implies !(#[trigger] scroller[i] is Run) && !(
    scroller[i] matches SectionRow::Header(header) && header.section is Runs) by {
        lemma_row_at(scroller, i);
        assert(above[i].section() != ChangesSection::Runs);
    }
}

proof fn lemma_two_parts(
    panel: &ChangesPanel,
    views: Seq<RunSourceView>,
    rows: Seq<RowView>,
    scroller: Seq<RowView>,
    well: Seq<RowView>,
) -> (parts: (Seq<RowView>, Seq<RowView>))
    requires
        rows == panel.all_rows(views),
        scroller == crate::panel::rows_outside_runs(rows),
        well == crate::panel::rows_of_runs(rows),
    ensures
        rows == parts.0 + parts.1,
        scroller == parts.0,
        well == parts.1,
        parts.1.len() > 0,
        parts.1[0] matches RowView::Header(header) && header.section is Runs,
        forall|i: int|
            0 <= i < parts.0.len() ==> (#[trigger] parts.0[i]).section() != ChangesSection::Runs,
{
    law_scroller_and_well_split_the_panel(*panel, views);
    law_headers_lead_their_rows(*panel, ChangesSection::Runs, views);
    lemma_above_the_runs(panel, views);
    let above = panel.section_rows(ChangesSection::Uncommitted, views) + panel.section_rows(
        ChangesSection::Commits,
        views,
    ) + panel.section_rows(ChangesSection::AgainstMain, views);
    (above, panel.section_rows(ChangesSection::Runs, views))
}

proof fn lemma_split_rows(
    rows: Seq<SectionRow>,
    scroller: Seq<SectionRow>,
    well: Seq<SectionRow>,
    above: Seq<RowView>,
    own: Seq<RowView>,
)
    requires
        row_views(rows) == above + own,
        row_views(scroller) == above,
        row_views(well) == own,
    ensures
        rows.len() == scroller.len() + well.len(),
        well.len() == own.len(),
        forall|i: int|
            0 <= i < scroller.len() ==> (#[trigger] scroller[i])@ == rows[i]@ && scroller[i]@
                == above[i],
        forall|i: int|
            0 <= i < well.len() ==> (#[trigger] well[i])@ == rows[scroller.len() + i]@ && well[i]@
                == own[i],
{
    lemma_length(rows);
    lemma_length(scroller);
    lemma_length(well);
    assert forall|i: int| 0 <= i < scroller.len() implies (#[trigger] scroller[i])@ == rows[i]@
        && scroller[i]@ == above[i] by {
        lemma_row_at(scroller, i);
        lemma_row_at(rows, i);
    }
    assert forall|i: int| 0 <= i < well.len() implies (#[trigger] well[i])@ == rows[
        scroller.len() + i
    ]@ && well[i]@ == own[i] by {
        lemma_row_at(well, i);
        lemma_row_at(rows, scroller.len() + i);
    }
}

proof fn lemma_above_the_runs(panel: &ChangesPanel, views: Seq<RunSourceView>)
    ensures
        ({
            let above = panel.section_rows(ChangesSection::Uncommitted, views)
                + panel.section_rows(ChangesSection::Commits, views) + panel.section_rows(
                ChangesSection::AgainstMain,
                views,
            );
            forall|i: int|
                0 <= i < above.len() ==> (#[trigger] above[i]).section() != ChangesSection::Runs
        }),
{
    let a = panel.section_rows(ChangesSection::Uncommitted, views);
    let b = panel.section_rows(ChangesSection::Commits, views);
    let c = panel.section_rows(ChangesSection::AgainstMain, views);
    law_rows_belong_to_their_section(*panel, ChangesSection::Uncommitted, views);
    law_rows_belong_to_their_section(*panel, ChangesSection::Commits, views);
    law_rows_belong_to_their_section(*panel, ChangesSection::AgainstMain, views);
    let above = a + b + c;
    assert forall|i: int| 0 <= i < above.len() implies (#[trigger] above[i]).section()
        != ChangesSection::Runs by {
        if i < a.len() {
            assert(above[i] == a[i]);
        } else if i < a.len() + b.len() {
            assert(above[i] == b[i - a.len()]);
        } else {
            assert(above[i] == c[i - a.len() - b.len()]);
        }
    }
}

/// Opening or closing a section is its own undoing, concerns that section
/// alone, and touches nothing else of the panel.
pub proof fn law_toggling_a_section(
    first: &mut ChangesPanel,
    second: &mut ChangesPanel,
    section: ChangesSection,
    other: ChangesSection,
    before: bool,
    between: bool,
    after: bool,
)
    requires
        call_ensures(ChangesPanel::toggle_changes_section, (first, section), ()),
        *second == *final(first),
        call_ensures(ChangesPanel::toggle_changes_section, (second, section), ()),
        call_ensures(SectionCollapse::is_open, (&first.sections, other), before),
        call_ensures(SectionCollapse::is_open, (&final(first).sections, other), between),
        call_ensures(SectionCollapse::is_open, (&final(second).sections, other), after),
    ensures
        after == before,
        between == if other == section {
            !before
        } else {
            before
        },
        final(first).uncommitted_change_set == old(first).uncommitted_change_set,
        final(first).staged_files == old(first).staged_files,
        final(first).seen_files == old(first).seen_files,
        final(first).commit_message == old(first).commit_message,
{
}

/// Before anyone has touched them, the runs and the uncommitted changes are
/// open and the other two sections closed.
pub proof fn law_sections_at_first(
    root: FilePath,
    panel: ChangesPanel,
    section: ChangesSection,
    open: bool,
)
    requires
        call_ensures(ChangesPanel::new, (root,), panel),
        call_ensures(SectionCollapse::is_open, (&panel.sections, section), open),
    ensures
        open == match section {
            ChangesSection::Runs => true,
            ChangesSection::Uncommitted => true,
            ChangesSection::Commits => false,
            ChangesSection::AgainstMain => false,
        },
        panel.staged_files@ == Set::<crate::path::PathView>::empty(),
        panel.commit_message@.len() == 0,
        panel.op_in_flight is None,
        panel.discard_armed is None,
{
    assert(panel.sections.open(section) == section.opens_first());
}

/// Each section has a name and a key of its own; Against main names the branch
/// that it is measured against, in capital letters.
pub proof fn law_sections_have_their_names(
    section: ChangesSection,
    base: Option<&str>,
    label: String,
    key: &'static str,
    upper: String,
)
    requires
        call_ensures(ChangesSection::label, (section, base), label),
        call_ensures(ChangesSection::key, (section,), key),
        base matches Some(name) ==> call_ensures(uppercase_text, (name,), upper),
    ensures
        section is Uncommitted ==> label@ == "UNCOMMITTED"@ && key@ == "uncommitted"@,
        section is Commits ==> label@ == "COMMITS"@ && key@ == "commits"@,
        section is Runs ==> label@ == "RUNS"@ && key@ == "runs"@,
        section is AgainstMain ==> key@ == "against-main"@ && label@ == (match base {
            Some(_) => "AGAINST "@ + upper@,
            None => "AGAINST BASE"@,
        }),
{
}

/// Where git found no base branch, Against main says nothing of what would
/// land: it has at most the note on what is missing.
pub proof fn law_nothing_lands_without_a_base(
    panel: &ChangesPanel,
    sources: &[RunSource],
    body: Vec<SectionRow>,
)
    requires
        call_ensures(
            ChangesPanel::changes_section_body,
            (panel, ChangesSection::AgainstMain, sources),
            body,
        ),
        !(panel.branch_commits matches ScopeLoad::Loaded(loaded) && loaded.base_branch is Some),
        panel.branch_diff is Loaded,
        panel.change_set@.len() > 0,
    ensures
        body@.len() == if panel.branch_diff->Loaded_0.truncated {
            1int
        } else {
            0
        },
        forall|i: int| 0 <= i < body@.len() ==> #[trigger] body@[i] is Note,
{
    lemma_length(body@);
    assert forall|i: int| 0 <= i < body@.len() implies #[trigger] body@[i] is Note by {
        lemma_row_at(body@, i);
    }
}

/// The lines that the header of Runs states are those of its rows together:
/// one row more adds its own, as far as they can be counted.
pub proof fn law_runs_add_up(
    panel: &ChangesPanel,
    body: &[SectionRow],
    more: &[SectionRow],
    run: RunRow,
    less: DiffStat,
    stat: DiffStat,
)
    requires
        call_ensures(
            ChangesPanel::changes_section_stat,
            (panel, ChangesSection::Runs, body),
            less,
        ),
        call_ensures(
            ChangesPanel::changes_section_stat,
            (panel, ChangesSection::Runs, more),
            stat,
        ),
        more@ == body@.push(SectionRow::Run(run)),
        less.added < usize::MAX && less.removed < usize::MAX,
    ensures
        less.added + run.stat.added <= usize::MAX ==> stat.added == less.added + run.stat.added,
        less.added + run.stat.added > usize::MAX ==> stat.added == usize::MAX,
        less.removed + run.stat.removed <= usize::MAX ==> stat.removed == less.removed
            + run.stat.removed,
        less.removed + run.stat.removed > usize::MAX ==> stat.removed == usize::MAX,
        body@.len() == 0 ==> less.added == 0 && less.removed == 0,
{
    let all = row_views(more@);
    assert(all.drop_last() =~= row_views(body@));
    assert(all.last() == RowView::Run(run@));
    assert(less.lines() == (less.added as nat, less.removed as nat));
    assert(stat.lines() == (stat.added as nat, stat.removed as nat));
    assert(run.stat.lines() == (run.stat.added as nat, run.stat.removed as nat));
    if body@.len() == 0 {
        assert(row_views(body@) =~= seq![]);
    }
}

/// The lines of the other sections are those of their change sets, and of the
/// commits those that git counted.
pub proof fn law_lines_of_the_sections(
    panel: &ChangesPanel,
    section: ChangesSection,
    body: &[SectionRow],
    stat: DiffStat,
    uncommitted: DiffStat,
    branch: DiffStat,
)
    requires
        call_ensures(ChangesPanel::changes_section_stat, (panel, section, body), stat),
        call_ensures(ChangeSet::total, (&panel.uncommitted_change_set,), uncommitted),
        call_ensures(ChangeSet::total, (&panel.change_set,), branch),
    ensures
        section is Uncommitted ==> stat == uncommitted,
        section is AgainstMain ==> stat == branch,
        section is Commits ==> (match panel.branch_commits {
            ScopeLoad::Loaded(loaded) => stat.added == loaded.added && stat.removed
                == loaded.removed,
            _ => stat.added == 0 && stat.removed == 0,
        }),
{
    assert(stat.lines() == (stat.added as nat, stat.removed as nat));
    assert(uncommitted.lines() == (uncommitted.added as nat, uncommitted.removed as nat));
    assert(branch.lines() == (branch.added as nat, branch.removed as nat));
}

/// The rows of the runs are those that the Runs section lists.
pub proof fn law_run_rows_are_the_section(
    panel: &ChangesPanel,
    sources: &[RunSource],
    rows: Vec<RunRow>,
    body: Vec<SectionRow>,
    i: int,
)
    requires
        call_ensures(ChangesPanel::changes_run_rows, (panel, sources), rows),
        call_ensures(
            ChangesPanel::changes_section_body,
            (panel, ChangesSection::Runs, sources),
            body,
        ),
        0 <= i < sources@.len(),
    ensures
        rows@.len() == sources@.len(),
        body@.len() == rows@.len(),
        body@[i] matches SectionRow::Run(row) && row@ == rows@[i]@,
{
    let runs = source_views(sources@);
    let views = rows@.map_values(|row: RunRow| row@);
    assert(views.len() == rows@.len());
    assert(runs.len() == sources@.len());
    lemma_length(body@);
    lemma_row_at(body@, i);
    assert(views[i] == rows@[i]@);
    assert(views[i] == run_row(runs[i], panel.uncommitted_change_set@));
    assert(row_views(body@)[i] == RowView::Run(run_row(runs[i], panel.uncommitted_change_set@)));
}

/// A header has the label of its section, which goes by the base branch that
/// the commits were read with.
pub proof fn law_headers_have_their_labels(
    panel: &ChangesPanel,
    sources: &[RunSource],
    rows: Vec<SectionRow>,
    at: int,
    header: SectionHeader,
    base: Option<&str>,
    label: String,
)
    requires
        call_ensures(ChangesPanel::changes_section_rows, (panel, sources), rows),
        0 <= at < rows@.len(),
        rows@[at] == SectionRow::Header(header),
        call_ensures(ChangesPanel::changes_base_branch, (panel,), base),
        call_ensures(ChangesSection::label, (header.section, base), label),
    ensures
        header.label@ == label@,
        header.open == panel.sections.open(header.section),
{
    let views = source_views(sources@);
    lemma_length(rows@);
    lemma_row_at(rows@, at);
    let all = row_views(rows@);
    let a = panel.section_rows(ChangesSection::Uncommitted, views);
    let b = panel.section_rows(ChangesSection::Commits, views);
    let c = panel.section_rows(ChangesSection::AgainstMain, views);
    let d = panel.section_rows(ChangesSection::Runs, views);
    lemma_only_header(panel, views, ChangesSection::Uncommitted);
    lemma_only_header(panel, views, ChangesSection::Commits);
    lemma_only_header(panel, views, ChangesSection::AgainstMain);
    lemma_only_header(panel, views, ChangesSection::Runs);
    if at < a.len() {
        assert(all[at] == a[at]);
    } else if at < a.len() + b.len() {
        assert(all[at] == b[at - a.len()]);
    } else if at < a.len() + b.len() + c.len() {
        assert(all[at] == c[at - a.len() - b.len()]);
    } else {
        assert(all[at] == d[at - a.len() - b.len() - c.len()]);
    }
    assert(header@ == panel.section_header(header.section, views));
}

/// The base branch is the one that the commits were read with.
pub proof fn law_base_branch(panel: &ChangesPanel, base: Option<&str>)
    requires
        call_ensures(ChangesPanel::changes_base_branch, (panel,), base),
    ensures
        match panel.branch_commits {
            ScopeLoad::Loaded(loaded) => match (loaded.base_branch, base) {
                (Some(own), Some(told)) => own@ == told@,
                (None, None) => true,
                _ => false,
            },
            _ => base is None,
        },
{
}

/// A run that wrote nothing yet says so.
pub proof fn law_title_without_files(paths: &[FilePath], title: String)
    requires
        call_ensures(run_title, (paths,), title),
        paths@.len() == 0,
    ensures
        title@ == "no files yet"@,
{
}

} // verus!
