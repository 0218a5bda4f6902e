use sidebar::change_set::{
    AgentKey, Author, ChangeEntry, ChangeSet, DiffStat, FileChangeStatus, Share,
};
use sidebar::path::FilePath;
use sidebar::section_view::section_header_view;
use sidebar::sections::{
    run_meta, run_rows, run_title, section_diffstat, seen_label, ChangesSection, NoteEmphasis,
    RunSource, ScopeLoad, SectionCollapse, SectionHeader, SectionRow, SeenFiles,
};
use sidebar::theme::ThemeColor;

const S3: &str = "utf8:/repo/wt-a|Codex|1700000000";
const S10: &str = "utf8:/repo/wt-a|Codex|1700000900";

fn path(text: &str) -> FilePath {
    FilePath::parse(text)
}

fn agent(key: &str) -> Author {
    Author::Agent(AgentKey::new(key))
}

fn share(author: Author, added: usize, removed: usize) -> Share {
    Share { author, stat: DiffStat::new(added, removed) }
}

fn entry(file: &str, shares: Vec<Share>) -> ChangeEntry {
    ChangeEntry::new(path(file), FileChangeStatus::Modified, shares).expect("countable")
}

/// Two agents wrote every uncommitted line: both in `shared.rs`, one of them
/// in `solo.rs`.
fn two_agents_wrote_everything() -> ChangeSet {
    ChangeSet::from_entries(vec![
        entry("shared.rs", vec![share(agent(S3), 1, 1), share(agent(S10), 2, 1)]),
        entry("solo.rs", vec![share(agent(S10), 1, 0)]),
    ])
    .expect("distinct paths")
}

fn sources() -> Vec<RunSource> {
    vec![
        RunSource {
            agent_id: 1,
            agent_key: AgentKey::new(S3),
            agent_label: "Codex".to_string(),
            initial: "C",
            tint: (0xd97757ff, 0x3a2a22ff),
            live: false,
            elapsed: 120,
        },
        RunSource {
            agent_id: 2,
            agent_key: AgentKey::new(S10),
            agent_label: "Codex".to_string(),
            initial: "C",
            tint: (0x7aa2f7ff, 0x222a3aff),
            live: true,
            elapsed: 40,
        },
    ]
}

#[test]
fn runs_sum_to_the_uncommitted_total_when_every_line_is_an_agent_s() {
    let change_set = two_agents_wrote_everything();
    let rows = run_rows(&sources(), &change_set);
    let runs_total = rows.iter().fold(DiffStat::default(), |total, row| total.plus(row.stat));
    assert_eq!(runs_total, change_set.total());
    assert!(!runs_total.is_empty());
    assert_eq!(runs_total, DiffStat::new(4, 2));
}

#[test]
fn a_hand_edit_is_the_exact_amount_runs_falls_short_of_uncommitted_by() {
    let change_set = ChangeSet::from_entries(vec![
        entry("shared.rs", vec![share(agent(S3), 1, 1), share(agent(S10), 2, 1)]),
        entry("solo.rs", vec![share(agent(S10), 1, 0), share(Author::You, 1, 0)]),
    ])
    .expect("distinct paths");
    let rows = run_rows(&sources(), &change_set);
    let runs_total = rows.iter().fold(DiffStat::default(), |total, row| total.plus(row.stat));
    let you = change_set.split_for(&Author::You);
    assert_eq!(you, DiffStat::new(1, 0));
    assert_eq!(runs_total.plus(you), change_set.total());
    assert!(runs_total.added < change_set.total().added);
}

#[test]
fn a_file_two_agents_wrote_is_one_file_in_each_of_their_runs_and_one_row_in_uncommitted() {
    let change_set = two_agents_wrote_everything();
    let rows = run_rows(&sources(), &change_set);
    assert_eq!(change_set.len(), 2);
    assert_eq!(
        change_set.entries().iter().filter(|entry| entry.path().display() == "shared.rs").count(),
        1
    );
    assert_eq!(rows[0].files_label, "1 file");
    assert_eq!(rows[1].files_label, "2 files");
}

#[test]
fn a_path_named_twice_is_no_change_set() {
    assert!(ChangeSet::from_entries(vec![entry("a.rs", vec![]), entry("./a.rs", vec![])]).is_some());
    assert!(ChangeSet::from_entries(vec![entry("a.rs", vec![]), entry("a.rs", vec![])]).is_none());
    assert!(ChangeSet::from_entries(vec![entry("a//b", vec![]), entry("a/./b", vec![])]).is_none());
}

#[test]
fn lines_that_cannot_be_counted_are_no_change_set() {
    let huge = vec![share(Author::You, usize::MAX, 0), share(agent(S3), 1, 0)];
    assert!(ChangeEntry::new(path("a.rs"), FileChangeStatus::Modified, huge).is_none());
    assert!(ChangeSet::from_entries(vec![
        entry("a.rs", vec![share(Author::You, usize::MAX, 0)]),
        entry("b.rs", vec![share(Author::You, 1, 0)]),
    ])
    .is_none());
    assert!(DiffStat::new(usize::MAX, 0).checked_plus(DiffStat::new(1, 0)).is_none());
    assert_eq!(
        DiffStat::new(2, 3).checked_plus(DiffStat::new(5, 7)),
        Some(DiffStat::new(7, 10))
    );
}

#[test]
fn a_runs_row_never_has_a_checkbox_and_only_uncommitted_does() {
    assert!(!ChangesSection::Runs.has_checkboxes());
    assert!(ChangesSection::Uncommitted.has_checkboxes());
    assert!(!ChangesSection::Commits.has_checkboxes());
    assert!(!ChangesSection::AgainstMain.has_checkboxes());
    assert_eq!(
        ChangesSection::ORDER.iter().filter(|section| section.has_checkboxes()).count(),
        1,
        "exactly one section stages"
    );
}

#[test]
fn runs_and_uncommitted_start_open_and_the_two_git_history_sections_start_collapsed() {
    let collapse = SectionCollapse::default();
    assert!(collapse.is_open(ChangesSection::Runs));
    assert!(collapse.is_open(ChangesSection::Uncommitted));
    assert!(!collapse.is_open(ChangesSection::Commits));
    assert!(!collapse.is_open(ChangesSection::AgainstMain));
}

#[test]
fn collapse_state_is_per_section_and_a_toggle_touches_no_other_section() {
    let mut collapse = SectionCollapse::default();
    collapse.toggle(ChangesSection::Uncommitted);
    assert!(!collapse.is_open(ChangesSection::Uncommitted));
    assert!(
        collapse.is_open(ChangesSection::Runs),
        "collapsing one section must not move another"
    );
    assert!(!collapse.is_open(ChangesSection::Commits));

    collapse.toggle(ChangesSection::Commits);
    assert!(collapse.is_open(ChangesSection::Commits));
    assert!(!collapse.is_open(ChangesSection::Uncommitted));

    collapse.toggle(ChangesSection::Uncommitted);
    assert!(collapse.is_open(ChangesSection::Uncommitted), "two toggles undo each other");
}

#[test]
fn the_against_main_label_names_the_real_base_branch_never_a_hardcoded_main() {
    assert_eq!(ChangesSection::AgainstMain.label(Some("main")), "AGAINST MAIN");
    assert_eq!(ChangesSection::AgainstMain.label(Some("develop")), "AGAINST DEVELOP");
    assert_eq!(
        ChangesSection::AgainstMain.label(None),
        "AGAINST BASE",
        "with no detected base, the header must not claim one"
    );
    assert_eq!(ChangesSection::Runs.label(Some("main")), "RUNS");
}

#[test]
fn a_base_branch_outside_ascii_is_capitalised_as_unicode_has_it() {
    assert_eq!(ChangesSection::AgainstMain.label(Some("straße-2")), "AGAINST STRASSE-2");
    assert_eq!(ChangesSection::Uncommitted.label(None), "UNCOMMITTED");
    assert_eq!(ChangesSection::Commits.label(Some("main")), "COMMITS");
}

#[test]
fn sections_have_their_keys_and_edges() {
    let keys: Vec<&str> = ChangesSection::ORDER.iter().map(|section| section.key()).collect();
    assert_eq!(keys, vec!["uncommitted", "commits", "against-main", "runs"]);
    assert_eq!(ChangesSection::Runs.edge_color(), None);
    assert_eq!(ChangesSection::Uncommitted.edge_color(), Some(ThemeColor::EdgeUncommitted));
    assert_eq!(ChangesSection::Commits.edge_color(), Some(ThemeColor::EdgeNeutral));
    assert_eq!(ChangesSection::AgainstMain.edge_color(), Some(ThemeColor::EdgeAgainstMain));
}

#[test]
fn a_run_meta_line_reads_running_while_live_and_ended_once_it_is_not() {
    assert_eq!(run_meta("Codex", true, 40), "Codex \u{b7} running \u{b7} 40s");
    assert_eq!(run_meta("Codex", false, 120), "Codex \u{b7} ended 2m");
}

#[test]
fn an_age_is_written_in_its_largest_whole_unit() {
    assert_eq!(run_meta("C", false, 0), "C \u{b7} ended 0s");
    assert_eq!(run_meta("C", false, 59), "C \u{b7} ended 59s");
    assert_eq!(run_meta("C", false, 60), "C \u{b7} ended 1m");
    assert_eq!(run_meta("C", false, 3599), "C \u{b7} ended 59m");
    assert_eq!(run_meta("C", false, 7200), "C \u{b7} ended 2h");
}

#[test]
fn a_live_run_and_an_ended_run_render_side_by_side_with_their_own_meta() {
    let rows = run_rows(&sources(), &two_agents_wrote_everything());
    assert_eq!(rows.len(), 2);
    assert!(!rows[0].live);
    assert_eq!(rows[0].meta, "Codex \u{b7} ended 2m");
    assert_eq!(rows[0].meta_color(), ThemeColor::RunMetaEnded);

    assert!(rows[1].live);
    assert_eq!(rows[1].meta, "Codex \u{b7} running \u{b7} 40s");
    assert_eq!(rows[1].meta_color(), ThemeColor::RunMetaLive, "a live run's meta renders warm");
    assert_ne!(rows[0].meta_color(), rows[1].meta_color());
    assert_ne!(rows[0].tint_fg, rows[1].tint_fg, "each run's left edge is its own agent's tint");
}

#[test]
fn a_run_row_names_its_files_and_its_share() {
    let rows = run_rows(&sources(), &two_agents_wrote_everything());
    assert_eq!(rows[0].title, "shared.rs");
    assert_eq!(rows[0].stat, DiffStat::new(1, 1));
    assert_eq!(rows[1].title, "shared.rs, solo.rs");
    assert_eq!(rows[1].stat, DiffStat::new(3, 1));
    assert_eq!((rows[1].agent_id, rows[1].initial), (2, "C"));
}

#[test]
fn a_run_that_wrote_nothing_says_so() {
    let rows = run_rows(&sources(), &ChangeSet::empty());
    assert_eq!(rows[0].title, "no files yet");
    assert_eq!(rows[0].files_label, "0 files");
    assert_eq!(rows[0].stat, DiffStat::default());
}

#[test]
fn a_run_title_names_the_files_it_really_wrote_and_says_so_honestly_when_it_wrote_none() {
    assert_eq!(run_title(&[]), "no files yet");
    assert_eq!(run_title(&[path("src/db/query_builder.rs")]), "query_builder.rs");
    assert_eq!(run_title(&[path("src/a.rs"), path("src/b.rs")]), "a.rs, b.rs");
    assert_eq!(
        run_title(&[path("src/a.rs"), path("src/b.rs"), path("src/c.rs"), path("src/d.rs")]),
        "a.rs, b.rs and 2 more"
    );
    assert_eq!(run_title(&[path("..")]), "..", "a path without a name is shown whole");
    assert_eq!(run_title(&[path("a//../")]), "a//../", "and as it was given");
}

#[test]
fn an_empty_section_shows_no_diffstat_rather_than_a_pair_of_zeroes() {
    assert_eq!(section_diffstat(DiffStat::default()), None);
    assert_eq!(
        section_diffstat(DiffStat::new(319, 145)),
        Some(("+319".to_string(), "\u{2212}145".to_string()))
    );
    assert_eq!(
        section_diffstat(DiffStat::new(0, 7)),
        Some(("+0".to_string(), "\u{2212}7".to_string()))
    );
}

#[test]
fn the_seen_counter_reads_over_the_real_row_count() {
    assert_eq!(seen_label(3, 13), Some("3/13 seen".to_string()));
    assert_eq!(seen_label(0, 0), None);

    let header = |seen: usize, total: usize| SectionHeader {
        section: ChangesSection::Uncommitted,
        label: "UNCOMMITTED".to_string(),
        count: total,
        stat: DiffStat::default(),
        open: true,
        seen: Some((seen, total)),
    };
    let meter = section_header_view(&header(3, 13)).seen.expect("a meter");
    let fraction = meter.seen as f32 / meter.total as f32;
    assert!((fraction - 3.0 / 13.0).abs() < f32::EPSILON);
    assert!(section_header_view(&header(0, 0)).seen.is_none());
}

#[test]
fn a_file_the_agent_changes_again_after_you_read_it_goes_back_to_unseen() {
    let mut seen = SeenFiles::default();
    let worktree = path("/repo/wt-a");
    let file = path("src/a.rs");

    seen.mark_seen(&worktree, &file, DiffStat::new(4, 1));
    assert!(seen.is_seen(&worktree, &file, DiffStat::new(4, 1)));
    assert!(
        !seen.is_seen(&worktree, &file, DiffStat::new(9, 1)),
        "the agent wrote more since you looked, so you have not seen the file as it now is"
    );

    seen.mark_seen(&worktree, &file, DiffStat::new(9, 1));
    assert!(seen.is_seen(&worktree, &file, DiffStat::new(9, 1)));
    seen.clear(&worktree, &file);
    assert!(!seen.is_seen(&worktree, &file, DiffStat::new(9, 1)));
}

#[test]
fn one_worktrees_seen_marks_never_leak_into_anothers() {
    let mut seen = SeenFiles::default();
    let file = path("src/a.rs");
    seen.mark_seen(&path("/repo/wt-a"), &file, DiffStat::new(1, 0));
    assert!(seen.is_seen(&path("/repo/wt-a"), &file, DiffStat::new(1, 0)));
    assert!(!seen.is_seen(&path("/repo/wt-b"), &file, DiffStat::new(1, 0)));
}

#[test]
fn marking_a_file_seen_is_recorded_nowhere_a_stager_reads() {
    let change_set = two_agents_wrote_everything();
    let mut seen = SeenFiles::default();
    let worktree = path("/repo/wt-a");

    assert_eq!(seen.seen_count(&worktree, &change_set), 0);
    let first = &change_set.entries()[0];
    seen.mark_seen(&worktree, first.path(), first.stat());
    assert_eq!(seen.seen_count(&worktree, &change_set), 1);
    assert_eq!(
        seen_label(1, change_set.len()),
        Some(format!("1/{} seen", change_set.len()))
    );
    assert_eq!(seen.seen_count(&path("/repo/wt-b"), &change_set), 0);
}

#[test]
fn a_scope_is_loading_loaded_or_failed() {
    let loading: ScopeLoad<u32> = ScopeLoad::default();
    assert_eq!(loading.loaded(), None);
    assert_eq!(loading.error(), None);
    assert_eq!(ScopeLoad::Loaded(7u32).loaded(), Some(&7));
    assert_eq!(ScopeLoad::Loaded(7u32).error(), None);
    let failed: ScopeLoad<u32> = ScopeLoad::Error("not a repository".to_string());
    assert_eq!(failed.loaded(), None);
    assert_eq!(failed.error(), Some("not a repository"));
}

#[test]
fn rows_know_their_section_and_whether_they_count() {
    let note = SectionRow::Note {
        section: ChangesSection::Commits,
        text: "nothing".to_string(),
        emphasis: NoteEmphasis::Quiet,
    };
    assert!(!note.is_counted());
    assert_eq!(note.section(), ChangesSection::Commits);
    let file = SectionRow::UncommittedFile(3);
    assert!(file.is_counted());
    assert_eq!(file.section(), ChangesSection::Uncommitted);
    let context =
        SectionRow::AgainstMainContext { text: "2 files".to_string(), sub: "1 ahead".to_string() };
    assert!(!context.is_counted());
    assert_eq!(context.section(), ChangesSection::AgainstMain);
    assert_eq!(NoteEmphasis::Quiet.color(), ThemeColor::TextFaint);
    assert_eq!(NoteEmphasis::Warning.color(), ThemeColor::StatusAsk);
}
