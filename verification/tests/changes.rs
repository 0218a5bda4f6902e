use sidebar::change_row::{
    split_dir_name, staging_checkbox_view, status_letter, DiscardClick, StatusLetter,
    SEEN_TOOLTIP, UNSEEN_TOOLTIP,
};
use sidebar::change_set::{
    AgentKey, Author, ChangeEntry, ChangeSet, DiffStat, FileChangeStatus, Share,
};
use sidebar::chrome::{view_at, SidebarLayout};
use sidebar::composer::{CommitMenuAction, GitStep};
use sidebar::composer_view::CommitLabel;
use sidebar::fold::{FoldState, TreeFold};
use sidebar::panel::{
    run_sources, short_sha, AgentFace, AgentInfo, AheadBehind, BranchCommits, BranchDiff,
    ChangesPanel, DiffFile, HistoryOp, WorktreeDiff, WorktreeItem,
};
use sidebar::path::FilePath;
use sidebar::path_set::PathSet;
use sidebar::section_view::{
    commit_row_view, context_selector, note_selector, run_row_view, section_header_view,
    SectionElement,
};
use sidebar::sections::{
    BranchCommit, ChangesSection, NoteEmphasis, RunSource, ScopeLoad, SectionHeader, SectionRow,
};
use sidebar::state::{next_right_sidebar_view, ContextTarget, RightSidebarView, Sidebar, TreeMark};
use sidebar::theme::ThemeColor;

fn path(text: &str) -> FilePath {
    FilePath::parse(text)
}

fn file(name: &str, status: FileChangeStatus, added: usize, removed: usize) -> DiffFile {
    DiffFile { path: path(name), status, stat: DiffStat::new(added, removed), renamed: false }
}

fn diff(files: Vec<DiffFile>) -> WorktreeDiff {
    WorktreeDiff { files, truncated: false, base_commit: "0123456789abcdef".to_string() }
}

fn entry(name: &str, status: FileChangeStatus, added: usize, removed: usize) -> ChangeEntry {
    let shares = vec![Share { author: Author::You, stat: DiffStat::new(added, removed) }];
    ChangeEntry::new(path(name), status, shares).expect("countable")
}

fn changes(entries: Vec<ChangeEntry>) -> ChangeSet {
    ChangeSet::from_entries(entries).expect("distinct paths")
}

fn commit(short_id: &str, subject: &str) -> BranchCommit {
    BranchCommit {
        short_id: short_id.to_string(),
        subject: subject.to_string(),
        added: 1,
        removed: 0,
    }
}

fn commits(base: Option<&str>, commits: Vec<BranchCommit>) -> ScopeLoad<BranchCommits> {
    let added = commits.len();
    ScopeLoad::Loaded(BranchCommits {
        base_branch: base.map(|base| base.to_string()),
        commits,
        added,
        removed: 0,
        truncated: false,
    })
}

/// `a.txt` and `b.txt` are changed on the branch `feature`, one line each.
fn two_changed_files() -> ChangesPanel {
    let modified = FileChangeStatus::Modified;
    let mut panel = ChangesPanel::new(path("/repo"));
    panel.uncommitted_diff =
        ScopeLoad::Loaded(diff(vec![file("a.txt", modified, 1, 0), file("b.txt", modified, 1, 0)]));
    panel.uncommitted_change_set =
        changes(vec![entry("a.txt", modified, 1, 0), entry("b.txt", modified, 1, 0)]);
    panel.worktrees = vec![
        WorktreeItem { path: path("/other"), branch: Some("main".to_string()) },
        WorktreeItem { path: path("/repo"), branch: Some("feature".to_string()) },
    ];
    panel.branch_commits = commits(Some("main"), vec![commit("1111111", "first")]);
    panel
}

/// Two commits of the branch's own, two dirty files, four files against main.
fn four_scopes() -> ChangesPanel {
    let modified = FileChangeStatus::Modified;
    let added = FileChangeStatus::Added;
    let mut panel = ChangesPanel::new(path("/repo"));
    panel.uncommitted_diff = ScopeLoad::Loaded(diff(vec![
        file("dirty-a.txt", modified, 1, 0),
        file("dirty-b.txt", modified, 1, 0),
    ]));
    panel.uncommitted_change_set =
        changes(vec![entry("dirty-a.txt", modified, 1, 0), entry("dirty-b.txt", modified, 1, 0)]);
    panel.branch_commits = commits(
        Some("main"),
        vec![commit("2222222", "second branch commit"), commit("1111111", "first branch commit")],
    );
    panel.branch_diff = BranchDiff::Loaded(diff(vec![
        file("dirty-a.txt", modified, 1, 0),
        file("dirty-b.txt", modified, 1, 0),
        file("done-a.txt", added, 1, 0),
        file("done-b.txt", added, 1, 0),
    ]));
    panel.change_set = changes(vec![
        entry("dirty-a.txt", modified, 1, 0),
        entry("dirty-b.txt", modified, 1, 0),
        entry("done-a.txt", added, 1, 0),
        entry("done-b.txt", added, 1, 0),
    ]);
    panel
}

fn open_every_section(panel: &mut ChangesPanel) {
    for section in ChangesSection::ORDER {
        if !panel.sections.is_open(section) {
            panel.toggle_changes_section(section);
        }
    }
}

fn headers(rows: &[SectionRow]) -> Vec<&SectionHeader> {
    rows.iter()
        .filter_map(|row| match row {
            SectionRow::Header(header) => Some(header),
            _ => None,
        })
        .collect()
}

fn selectors(rows: &[SectionRow]) -> Vec<String> {
    headers(rows).iter().map(|header| section_header_view(header).selector).collect()
}

fn note(row: &SectionRow) -> (&str, NoteEmphasis) {
    match row {
        SectionRow::Note { text, emphasis, .. } => (text.as_str(), *emphasis),
        _ => panic!("a note"),
    }
}

fn agent(id: u64, key: &str, live: bool) -> AgentInfo {
    AgentInfo {
        id,
        face: Some(AgentFace {
            key: key.to_string(),
            label: "Codex".to_string(),
            initial: "C",
            tint: (1, 2),
        }),
        live,
        running_seconds: 40,
        idle_seconds: Some(120),
    }
}

#[test]
fn the_panel_is_four_sections_with_runs_and_uncommitted_open_by_default() {
    let panel = four_scopes();
    let rows = panel.changes_section_rows(&[]);
    assert_eq!(
        selectors(&rows),
        vec![
            "changes-section-uncommitted-2-open",
            "changes-section-commits-2-collapsed",
            "changes-section-against-main-4-collapsed",
            "changes-section-runs-0-open",
        ]
    );
    assert_eq!(rows.len(), 7, "four headers, two files and the note of Runs");
}

#[test]
fn the_tab_is_called_changes_and_uncommitted_is_one_of_its_four_sections() {
    let rows = four_scopes().changes_section_rows(&[]);
    let labels: Vec<&str> = headers(&rows).iter().map(|header| header.label.as_str()).collect();
    assert_eq!(labels, vec!["UNCOMMITTED", "COMMITS", "AGAINST MAIN", "RUNS"]);
}

#[test]
fn every_section_header_count_equals_the_number_of_rows_it_renders() {
    let mut panel = four_scopes();
    open_every_section(&mut panel);
    let rows = panel.changes_section_rows(&[]);
    let mut checked = 0;
    for header in headers(&rows) {
        let counted =
            rows.iter().filter(|row| row.section() == header.section && row.is_counted()).count();
        if header.section == ChangesSection::AgainstMain {
            assert_eq!((header.count, counted), (4, 0));
        } else {
            assert_eq!(header.count, counted);
        }
        checked += 1;
    }
    assert_eq!(checked, 4);
}

#[test]
fn checkboxes_exist_only_in_the_uncommitted_section() {
    let mut panel = four_scopes();
    open_every_section(&mut panel);
    let rows = panel.changes_section_rows(&[]);
    let staging =
        rows.iter().filter(|row| row.is_counted() && row.section().has_checkboxes()).count();
    assert_eq!(staging, 2);
    let entry = &panel.change_set.entries()[2];
    let row = panel.change_row_view(entry, ChangesSection::AgainstMain, false);
    assert_eq!(row.checkbox, None);
    assert_eq!(row.row_selector, "against-main-row-done-a.txt");
}

#[test]
fn collapsing_a_section_unpaints_its_rows_and_keeps_its_count() {
    let mut panel = four_scopes();
    panel.toggle_changes_section(ChangesSection::Uncommitted);
    let rows = panel.changes_section_rows(&[]);
    assert!(!rows.iter().any(|row| matches!(row, SectionRow::UncommittedFile(_))));
    let shown = selectors(&rows);
    assert_eq!(shown[0], "changes-section-uncommitted-2-collapsed");
    assert_eq!(shown[3], "changes-section-runs-0-open");
}

#[test]
fn the_against_main_section_renders_no_action_buttons_and_no_file_rows() {
    let mut panel = four_scopes();
    open_every_section(&mut panel);
    let body = panel.changes_section_body(ChangesSection::AgainstMain, &[]);
    assert_eq!(body.len(), 1);
    match &body[0] {
        SectionRow::AgainstMainContext { text, sub } => {
            assert_eq!(text, "4 files would land on main");
            assert_eq!(sub, "merge-base 0123456");
        }
        _ => panic!("the context card"),
    }
    panel.ahead_behind.insert(path("/repo"), AheadBehind { ahead: 2, behind: 1 });
    match &panel.changes_section_body(ChangesSection::AgainstMain, &[])[0] {
        SectionRow::AgainstMainContext { sub, .. } => assert_eq!(sub, "2 ahead \u{b7} 1 behind"),
        _ => panic!("the context card"),
    }
}

#[test]
fn the_scroller_and_the_well_split_the_panel() {
    let panel = four_scopes();
    let all = panel.changes_section_rows(&[]).len();
    let scroller = panel.scroller_rows(&[]);
    let well = panel.runs_section_rows(&[]);
    assert_eq!(scroller.len() + well.len(), all);
    assert!(scroller.iter().all(|row| row.section() != ChangesSection::Runs));
    assert!(well.iter().all(|row| row.section() == ChangesSection::Runs));
}

#[test]
fn the_runs_header_matches_the_uncommitted_header_when_one_agent_wrote_everything() {
    let mut panel = ChangesPanel::new(path("/repo"));
    panel.uncommitted_diff =
        ScopeLoad::Loaded(diff(vec![file("agent.txt", FileChangeStatus::Modified, 2, 0)]));
    let shares = vec![Share {
        author: Author::Agent(AgentKey::new("k1")),
        stat: DiffStat::new(2, 0),
    }];
    panel.uncommitted_change_set = changes(vec![ChangeEntry::new(
        path("agent.txt"),
        FileChangeStatus::Modified,
        shares,
    )
    .expect("countable")]);
    let sources = run_sources(&[agent(1, "k1", true)]);
    let rows = panel.changes_section_rows(&sources);
    let all = headers(&rows);
    assert_eq!(all[3].stat, DiffStat::new(2, 0));
    assert_eq!(all[3].stat, all[0].stat);
    assert_eq!(
        section_header_view(all[3]).stat_selector,
        "changes-section-runs-stat-+2-\u{2212}0"
    );
    assert_eq!(
        section_header_view(all[0]).stat_selector,
        "changes-section-uncommitted-stat-+2-\u{2212}0"
    );
    assert_eq!(section_header_view(all[3]).selector, "changes-section-runs-1-open");
    assert_eq!(section_header_view(all[1]).stat_selector, "changes-section-commits-stat-empty");
}

#[test]
fn lines_beyond_the_largest_count_stop_there() {
    let mut panel = ChangesPanel::new(path("/repo"));
    let shares = vec![Share {
        author: Author::Agent(AgentKey::new("k")),
        stat: DiffStat::new(usize::MAX, 0),
    }];
    panel.uncommitted_change_set = changes(vec![ChangeEntry::new(
        path("a"),
        FileChangeStatus::Modified,
        shares,
    )
    .expect("countable")]);
    let sources = run_sources(&[agent(1, "k", true), agent(2, "k", true)]);
    let rows = panel.changes_section_rows(&sources);
    let runs = headers(&rows)[3];
    assert_eq!((runs.section, runs.count), (ChangesSection::Runs, 2));
    assert_eq!((runs.stat.added, runs.stat.removed), (usize::MAX, 0));
}

#[test]
fn a_live_run_and_an_ended_run_render_side_by_side() {
    let panel = ChangesPanel::new(path("/repo"));
    let mut shell = agent(9, "x", true);
    shell.face = None;
    let mut lost = agent(3, "k3", false);
    lost.idle_seconds = None;
    let sources = run_sources(&[agent(1, "k1", true), shell, agent(2, "k2", false), lost]);
    let rows = panel.changes_run_rows(&sources);
    assert_eq!(rows.len(), 3, "a process that is no agent has no run");
    assert!(rows[0].live);
    assert_eq!(rows[0].meta, "Codex \u{b7} running \u{b7} 40s");
    assert!(!rows[1].live);
    assert_eq!(rows[1].meta, "Codex \u{b7} ended 2m");
    assert_eq!(rows[2].meta, "Codex \u{b7} ended 40s");
    assert_ne!(rows[0].meta_color(), rows[1].meta_color());
    let drawn = run_row_view(&rows[0]);
    assert_eq!(drawn.id, "changes-run-row-1");
    assert_eq!(drawn.selector, "changes-run-1");
    assert_eq!(drawn.stat_selector, "changes-run-1-stat-+0-\u{2212}0");
    assert_eq!((drawn.edge, drawn.chip_background), (1, 2));
    assert_eq!((drawn.added.as_str(), drawn.removed.as_str()), ("+0", "\u{2212}0"));
}

#[test]
fn sections_without_rows_say_why() {
    let mut panel = ChangesPanel::new(path("/repo"));
    let body = |panel: &ChangesPanel, section| panel.changes_section_body(section, &[]);
    let quiet = NoteEmphasis::Quiet;
    let loud = NoteEmphasis::Warning;
    assert_eq!(
        note(&body(&panel, ChangesSection::Runs)[0]),
        ("no agents have run in this worktree yet", quiet)
    );
    assert_eq!(
        note(&body(&panel, ChangesSection::Uncommitted)[0]),
        ("computing uncommitted changes...", quiet)
    );
    assert_eq!(
        note(&body(&panel, ChangesSection::Commits)[0]),
        ("reading this branch's commits...", quiet)
    );
    panel.uncommitted_diff = ScopeLoad::Loaded(diff(vec![]));
    panel.branch_commits = commits(None, vec![]);
    panel.branch_diff = BranchDiff::Missing { message: "git failed".to_string(), failed: true };
    assert_eq!(
        note(&body(&panel, ChangesSection::Uncommitted)[0]),
        ("nothing uncommitted in this checkout", quiet)
    );
    assert_eq!(
        note(&body(&panel, ChangesSection::Commits)[0]),
        ("no base branch to measure this branch's own commits against", quiet)
    );
    assert_eq!(note(&body(&panel, ChangesSection::AgainstMain)[0]), ("git failed", loud));
    panel.branch_commits = commits(Some("main"), vec![]);
    panel.branch_diff = BranchDiff::Loaded(diff(vec![]));
    panel.uncommitted_diff = ScopeLoad::Error("no HEAD".to_string());
    assert_eq!(
        note(&body(&panel, ChangesSection::Commits)[0]),
        ("nothing committed on this branch yet", quiet)
    );
    assert_eq!(
        note(&body(&panel, ChangesSection::AgainstMain)[0]),
        ("this branch matches its base exactly", quiet)
    );
    assert_eq!(note(&body(&panel, ChangesSection::Uncommitted)[0]), ("no HEAD", loud));
    panel.branch_commits = ScopeLoad::Error("unreadable".to_string());
    assert_eq!(note(&body(&panel, ChangesSection::Commits)[0]), ("unreadable", loud));
}

#[test]
fn a_truncated_scope_says_so_below_its_rows() {
    let mut panel = four_scopes();
    if let ScopeLoad::Loaded(diff) = &mut panel.uncommitted_diff {
        diff.truncated = true;
    }
    if let ScopeLoad::Loaded(commits) = &mut panel.branch_commits {
        commits.truncated = true;
        commits.base_branch = None;
    }
    if let BranchDiff::Loaded(diff) = &mut panel.branch_diff {
        diff.truncated = true;
    }
    let uncommitted = panel.changes_section_body(ChangesSection::Uncommitted, &[]);
    assert_eq!(uncommitted.len(), 3);
    assert!(note(&uncommitted[2]).0.starts_with("diff truncated: this checkout's real changes"));
    assert_eq!(note(&uncommitted[2]).1, NoteEmphasis::Warning);
    let against = panel.changes_section_body(ChangesSection::AgainstMain, &[]);
    assert_eq!(against.len(), 1, "without a base there is no card");
    assert!(note(&against[0]).0.starts_with("diff truncated: this branch's real changes"));
    if let ScopeLoad::Loaded(commits) = &mut panel.branch_commits {
        commits.base_branch = Some("main".to_string());
    }
    let commits = panel.changes_section_body(ChangesSection::Commits, &[]);
    assert_eq!(commits.len(), 3);
    assert!(note(&commits[2]).0.contains("is only its most recent"));
}

#[test]
fn rows_are_drawn_as_what_they_are() {
    let panel = four_scopes();
    assert!(matches!(
        panel.section_row_view(&SectionRow::UncommittedFile(1)),
        SectionElement::File(1)
    ));
    assert!(matches!(
        panel.section_row_view(&SectionRow::UncommittedFile(2)),
        SectionElement::Nothing
    ));
    let drawn = commit_row_view(&commit("abc1234", "subject"));
    assert_eq!(drawn.selector, "changes-commit-abc1234");
    assert_eq!((drawn.subject.as_str(), drawn.added.as_str()), ("subject", "+1"));
    assert_eq!(context_selector("2 files"), "changes-against-main-context-2 files");
    assert_eq!(note_selector(ChangesSection::Runs), "changes-section-runs-note");
    let rows = panel.changes_section_rows(&[]);
    assert!(rows.iter().all(|row| !matches!(panel.section_row_view(row), SectionElement::Nothing)));
}

#[test]
fn a_commit_id_is_shortened_to_seven_characters() {
    assert_eq!(short_sha("0123456789abcdef"), "0123456");
    assert_eq!(short_sha("012"), "012");
    assert_eq!(short_sha(""), "");
}

#[test]
fn the_composer_reflects_real_staged_count_diffstat_branch_and_message() {
    let mut panel = two_changed_files();
    let composer = panel.commit_composer();
    assert_eq!(composer.progress_selector, "commit-composer-progress-0-of-2");
    assert_eq!(composer.branch_selector, "commit-composer-branch-feature");
    assert_eq!(composer.message_selector, "commit-composer-message-empty");
    assert_eq!(composer.stat_selector, "commit-composer-stat-");
    assert!(!composer.can_commit);

    panel.toggle_staged(path("a.txt"));
    let composer = panel.commit_composer();
    assert_eq!(composer.progress, "1 of 2 staged");
    assert_eq!(composer.progress_selector, "commit-composer-progress-1-of-2");
    assert_eq!(composer.message_selector, "commit-composer-message-empty");
    assert_eq!(composer.stat_selector, "commit-composer-stat-+1 \u{2212}0");
    assert_eq!(composer.label, CommitLabel::Commit { staged: 1 });
    assert_eq!(composer.label.busy_text(), None);
    assert_eq!(composer.colors.background, ThemeColor::Transparent);

    panel.commit_message = "update a.txt".to_string();
    let composer = panel.commit_composer();
    assert!(composer.can_commit);
    assert_eq!(composer.colors.background, ThemeColor::ButtonGreen);
    assert_eq!(composer.message_selector, "commit-composer-message-update a.txt");

    panel.op_in_flight = Some(HistoryOp::Commit);
    let composer = panel.commit_composer();
    assert_eq!(composer.label, CommitLabel::Committing);
    assert_eq!(composer.label.busy_text(), Some("committing\u{2026}"));
    assert!(!composer.can_commit);
    assert_eq!(composer.colors.background, ThemeColor::ButtonGreen);
}

#[test]
fn the_primary_button_is_a_genuine_no_op_with_nothing_staged() {
    let mut panel = two_changed_files();
    panel.commit_message = "message".to_string();
    assert!(panel.commit_staged_files("feature").is_none());
    assert!(panel.op_in_flight.is_none());
    assert!(panel.status.is_none());
}

#[test]
fn the_primary_button_is_a_genuine_no_op_with_nothing_typed() {
    let mut panel = two_changed_files();
    panel.toggle_staged(path("a.txt"));
    for blank in ["", " \t\n", "\u{a0}\u{2003}\u{3000}"] {
        panel.commit_message = blank.to_string();
        assert!(panel.commit_staged_files("feature").is_none(), "{blank:?}");
    }
    assert!(panel.status.is_none());
    panel.commit_message = " x ".to_string();
    assert!(panel.commit_staged_files("feature").is_some());
}

#[test]
fn a_commit_takes_exactly_the_staged_files_and_the_typed_message() {
    let mut panel = two_changed_files();
    panel.toggle_staged(path("a.txt"));
    panel.staged_files.insert(path("gone.txt"));
    panel.commit_message = "REWRITTEN".to_string();
    let request = panel.commit_staged_files("feature").expect("a commit");
    let paths: Vec<String> = request.paths.iter().map(|p| p.display()).collect();
    assert_eq!(paths, vec!["a.txt"]);
    assert_eq!(request.message, "REWRITTEN");
    assert_eq!(panel.status.as_deref(), Some("committing 1 file in feature\u{2026}"));
    assert!(panel.commit_staged_files("feature").is_none(), "one operation at a time");

    panel.toggle_staged(path("b.txt"));
    assert!(panel.finish_commit(request, Ok(())));
    assert_eq!(panel.status.as_deref(), Some("committed 1 file in feature"));
    assert!(panel.op_in_flight.is_none());
    assert!(!panel.staged_files.contains(&path("a.txt")));
    assert!(panel.staged_files.contains(&path("b.txt")), "what was staged meanwhile stays");
}

#[test]
fn a_commit_that_fails_keeps_what_is_staged() {
    let mut panel = two_changed_files();
    panel.toggle_staged(path("a.txt"));
    panel.commit_message = "m".to_string();
    let request = panel.commit_staged_files("feature").expect("a commit");
    assert!(!panel.finish_commit(request, Err("hook failed".to_string())));
    assert_eq!(panel.status.as_deref(), Some("commit failed: hook failed"));
    assert!(panel.staged_files.contains(&path("a.txt")));
}

#[test]
fn the_message_is_what_the_field_was_left_with() {
    let mut panel = two_changed_files();
    assert!(panel.replace_commit_message(Some("fix".to_string())));
    assert_eq!(panel.staged_commit_message(), "fix");
    assert!(!panel.replace_commit_message(None), "the key is free for others");
    assert_eq!(panel.staged_commit_message(), "fix");
    assert!(panel.replace_commit_message(Some(String::new())));
    assert_eq!(panel.staged_commit_message(), "");
}

#[test]
fn staging_never_writes_anything_into_the_message_box() {
    let mut panel = two_changed_files();
    panel.toggle_staged(path("a.txt"));
    panel.toggle_staged(path("b.txt"));
    assert_eq!(panel.staged_commit_message(), "");
    panel.toggle_staged(path("a.txt"));
    panel.toggle_staged(path("b.txt"));
    assert_eq!(panel.staged_commit_message(), "");
}

#[test]
fn a_commit_menu_row_with_nothing_staged_is_disabled_and_does_nothing_when_clicked() {
    let mut panel = two_changed_files();
    panel.commit_message = "commit everything".to_string();
    let shown: Vec<String> =
        panel.commit_menu_rows().into_iter().map(|row| row.selector).collect();
    assert_eq!(
        shown,
        vec![
            "commit-menu-row-commit-and-push-disabled",
            "commit-menu-row-commit-all-files-enabled",
            "commit-menu-row-amend-last-commit-disabled",
            "commit-menu-row-stash-staged-files-disabled",
        ]
    );
    assert!(panel.run_commit_menu_action(CommitMenuAction::StashStaged, "feature").is_none());
    assert!(panel.status.is_none());
}

#[test]
fn a_row_of_the_commit_menu_says_what_it_would_do_or_why_it_cannot() {
    let mut panel = two_changed_files();
    let sub = |panel: &ChangesPanel, action| panel.commit_menu_row(action).sub;
    panel.toggle_staged(path("a.txt"));
    assert_eq!(sub(&panel, CommitMenuAction::CommitAndPush), "write a commit message first");
    assert_eq!(sub(&panel, CommitMenuAction::StashStaged), "write a message first");
    assert_eq!(sub(&panel, CommitMenuAction::AmendLastCommit), "rewrites the tip");
    panel.commit_message = "m".to_string();
    assert_eq!(sub(&panel, CommitMenuAction::CommitAndPush), "origin/feature");
    assert_eq!(
        sub(&panel, CommitMenuAction::CommitAllFiles),
        "stages the rest first \u{2022} 2 files"
    );
    assert_eq!(sub(&panel, CommitMenuAction::StashStaged), "keeps the worktree clean");
    panel.branch_commits = commits(Some("main"), vec![]);
    assert_eq!(
        sub(&panel, CommitMenuAction::AmendLastCommit),
        "this branch has no commit of its own to amend"
    );
    panel.branch_commits = commits(None, vec![]);
    assert_eq!(sub(&panel, CommitMenuAction::AmendLastCommit), "rewrites the tip");
    panel.worktrees[1].branch = None;
    assert_eq!(
        sub(&panel, CommitMenuAction::CommitAndPush),
        "HEAD is detached, so there is no branch to push"
    );
    assert_eq!(panel.commit_composer().branch, "(detached)");
    panel.toggle_staged(path("a.txt"));
    assert_eq!(sub(&panel, CommitMenuAction::CommitAndPush), "nothing staged");
    assert_eq!(sub(&panel, CommitMenuAction::StashStaged), "nothing staged to stash");
    assert_eq!(
        sub(&panel, CommitMenuAction::AmendLastCommit),
        "nothing staged to fold into the last commit"
    );
    panel.uncommitted_diff = ScopeLoad::Loaded(diff(vec![]));
    assert_eq!(sub(&panel, CommitMenuAction::CommitAllFiles), "nothing uncommitted to commit");
    panel.uncommitted_diff = ScopeLoad::Loading;
    assert_eq!(
        sub(&panel, CommitMenuAction::CommitAllFiles),
        "the working tree has not been read yet"
    );
    panel.op_in_flight = Some(HistoryOp::Discard);
    assert_eq!(
        sub(&panel, CommitMenuAction::CommitAllFiles),
        "another git operation is still running"
    );
}

fn ready() -> ChangesPanel {
    let mut panel = two_changed_files();
    panel.toggle_staged(path("a.txt"));
    panel.commit_message = "m".to_string();
    panel.commit_menu_open = true;
    panel
}

#[test]
fn commit_and_push_commits_the_staged_files_and_pushes_the_branch() {
    let mut panel = ready();
    let request =
        panel.run_commit_menu_action(CommitMenuAction::CommitAndPush, "feature").expect("runs");
    assert!(!panel.commit_menu_open);
    assert_eq!(panel.status.as_deref(), Some("committing and pushing 1 file in feature\u{2026}"));
    assert_eq!(request.steps.len(), 2);
    assert!(matches!(
        &request.steps[0],
        GitStep::CommitPaths { paths, message }
            if paths.len() == 1 && paths[0].display() == "a.txt" && message == "m"
    ));
    assert!(matches!(&request.steps[1], GitStep::PushBranch { branch, force } if branch == "feature" && !force));
    assert!(panel.finish_commit_menu_action(request, Ok(())));
    assert_eq!(
        panel.status.as_deref(),
        Some("committed 1 file and pushed feature in feature")
    );
}

#[test]
fn commit_and_push_reports_the_real_push_failure() {
    let mut panel = ready();
    let request =
        panel.run_commit_menu_action(CommitMenuAction::CommitAndPush, "feature").expect("runs");
    assert!(!panel.finish_commit_menu_action(request, Err("no origin".to_string())));
    assert_eq!(panel.status.as_deref(), Some("Commit and push failed: no origin"));
    assert!(panel.op_in_flight.is_none());
}

#[test]
fn the_other_rows_of_the_commit_menu_ask_git_for_one_thing() {
    let mut panel = ready();
    let all =
        panel.run_commit_menu_action(CommitMenuAction::CommitAllFiles, "feature").expect("runs");
    assert_eq!(panel.status.as_deref(), Some("committing everything in feature\u{2026}"));
    assert!(matches!(&all.steps[..], [GitStep::CommitAll { message }] if message == "m"));
    panel.finish_commit_menu_action(all, Ok(()));
    assert_eq!(panel.status.as_deref(), Some("committed every uncommitted file in feature"));

    let amend =
        panel.run_commit_menu_action(CommitMenuAction::AmendLastCommit, "feature").expect("runs");
    assert_eq!(
        panel.status.as_deref(),
        Some("amending feature's last commit with 1 file\u{2026}")
    );
    assert!(matches!(&amend.steps[..], [GitStep::AmendWithPaths { paths }] if paths.len() == 1));
    panel.finish_commit_menu_action(amend, Ok(()));
    assert_eq!(panel.status.as_deref(), Some("amended the last commit with 1 file in feature"));

    let stash =
        panel.run_commit_menu_action(CommitMenuAction::StashStaged, "feature").expect("runs");
    assert_eq!(panel.status.as_deref(), Some("stashing 1 file in feature\u{2026}"));
    assert!(matches!(&stash.steps[..], [GitStep::StashStaged { message }] if message == "jerry: m"));
    panel.finish_commit_menu_action(stash, Ok(()));
    assert_eq!(panel.status.as_deref(), Some("stashed 1 file in feature"));
}

#[test]
fn clicking_the_menu_toggle_genuinely_opens_and_closes_the_commit_menu() {
    let mut panel = two_changed_files();
    assert!(!panel.commit_menu_open);
    panel.toggle_commit_menu();
    assert!(panel.commit_menu_open);
    panel.toggle_commit_menu();
    assert!(!panel.commit_menu_open);
    panel.toggle_commit_menu();
    panel.close_commit_menu();
    assert!(!panel.commit_menu_open);
}

#[test]
fn a_refused_checkbox_flips_back_and_says_why() {
    let mut panel = two_changed_files();
    let request = panel.toggle_staged(path("a.txt"));
    assert!(request.stage);
    assert_eq!(request.worktree.display(), "/repo");
    assert!(panel.staged_files.contains(&path("a.txt")), "the row flips at once");
    panel.finish_staging(request, Err("index.lock".to_string()));
    assert!(!panel.staged_files.contains(&path("a.txt")));
    assert_eq!(panel.row_error_message(), Some("failed to stage: index.lock"));

    let request = panel.toggle_staged(path("a.txt"));
    assert_eq!(panel.row_error_message(), None);
    panel.finish_staging(request, Ok(()));
    let request = panel.toggle_staged(path("a.txt"));
    assert!(!request.stage);
    panel.finish_staging(request, Err("index.lock".to_string()));
    assert!(panel.staged_files.contains(&path("a.txt")));
    assert_eq!(panel.row_error_message(), Some("failed to unstage: index.lock"));
    panel.dismiss_row_error();
    assert_eq!(panel.row_error_message(), None);
}

/// One file of each status.
fn mixed_status() -> ChangesPanel {
    let entries = vec![
        entry("added.txt", FileChangeStatus::Added, 1, 0),
        entry("deleted.txt", FileChangeStatus::Deleted, 0, 1),
        entry("src/modified.txt", FileChangeStatus::Modified, 1, 0),
    ];
    let mut panel = ChangesPanel::new(path("/repo"));
    panel.uncommitted_diff = ScopeLoad::Loaded(diff(vec![
        file("added.txt", FileChangeStatus::Added, 1, 0),
        file("deleted.txt", FileChangeStatus::Deleted, 0, 1),
        file("src/modified.txt", FileChangeStatus::Modified, 1, 0),
    ]));
    panel.uncommitted_change_set = changes(entries);
    panel
}

fn row(panel: &ChangesPanel, index: usize) -> sidebar::change_row::ChangeRowElement {
    let entry = &panel.uncommitted_change_set.entries()[index];
    panel.change_row_view(entry, ChangesSection::Uncommitted, false)
}

#[test]
fn every_row_carries_gits_own_status_letter_including_the_modified_one() {
    let panel = mixed_status();
    assert_eq!(row(&panel, 0).letter_selector, "change-row-added.txt-status-A");
    assert_eq!(row(&panel, 1).letter_selector, "change-row-deleted.txt-status-D");
    assert_eq!(row(&panel, 2).letter_selector, "change-row-src/modified.txt-status-M");
    assert_eq!(status_letter(FileChangeStatus::Renamed), StatusLetter::Modified);
}

#[test]
fn a_change_row_shows_its_path_and_its_lines() {
    let mut panel = mixed_status();
    let shown = row(&panel, 2);
    assert_eq!(shown.row_selector, "change-row-src/modified.txt");
    assert_eq!(shown.edge_selector, "change-row-src/modified.txt-selection-edge");
    assert_eq!(shown.dir_selector, "change-row-dir-src/modified.txt");
    assert_eq!((shown.dir.as_str(), shown.name.as_str()), ("src/", "modified.txt"));
    assert_eq!((shown.added.as_str(), shown.removed.as_str()), ("+1", "\u{2212}0"));
    assert_eq!(shown.edge_color, ThemeColor::EdgeUncommitted);
    assert_eq!(row(&panel, 0).dir, "");
    panel.open_change = Some(path("src/modified.txt"));
    assert!(row(&panel, 2).selected);
    assert_eq!(row(&panel, 2).edge_color, ThemeColor::SelectedEdge);
    assert!(!row(&panel, 0).selected);
    assert_eq!(split_dir_name(&path("a/b/c")), ("a/b".to_string(), "c".to_string()));
}

#[test]
fn a_moved_file_and_a_committed_one_are_marked() {
    let mut panel = four_scopes();
    if let BranchDiff::Loaded(diff) = &mut panel.branch_diff {
        diff.files[2].renamed = true;
    }
    let mut dirty = PathSet::new();
    dirty.insert(path("dirty-a.txt"));
    let view = |panel: &ChangesPanel, index: usize| {
        let entry = &panel.change_set.entries()[index];
        let shown = panel.change_row_view(entry, ChangesSection::AgainstMain, true);
        (shown.renamed, shown.committed, shown.chips)
    };
    assert_eq!(view(&panel, 2), (true, false, false), "nothing is known to be dirty yet");
    panel.dirty_files = Some(dirty);
    assert_eq!(view(&panel, 2), (true, true, false));
    assert_eq!(view(&panel, 0), (false, false, false));
    let entry = &panel.uncommitted_change_set.entries()[0];
    assert!(panel.change_row_view(entry, ChangesSection::Uncommitted, true).chips);
}

#[test]
fn seen_and_staged_are_two_independent_maps() {
    let mut panel = mixed_status();
    panel.open_change = Some(path("src/modified.txt"));
    panel.handle_toggle_change_seen_action();
    assert!(row(&panel, 2).seen);
    assert!(panel.staged_files.is_empty(), "reviewing must never stage");
    panel.toggle_staged(path("added.txt"));
    assert_eq!(row(&panel, 0).checkbox, Some(true));
    assert_eq!(row(&panel, 0).name_selector, "change-row-added.txt-name-unseen");
    assert_eq!(row(&panel, 0).name_color, ThemeColor::FilenameUnseen);
    assert_eq!(row(&panel, 0).tooltip, Some(UNSEEN_TOOLTIP));
    assert_eq!(row(&panel, 2).tooltip, Some(SEEN_TOOLTIP));
}

#[test]
fn v_unmarks_a_seen_file_and_marks_an_unseen_one() {
    let mut panel = mixed_status();
    panel.handle_toggle_change_seen_action();
    assert_eq!(panel.seen_files.seen_count(&path("/repo"), &panel.uncommitted_change_set), 0);
    panel.open_change = Some(path("src/modified.txt"));
    panel.handle_toggle_change_seen_action();
    assert_eq!(row(&panel, 2).name_selector, "change-row-src/modified.txt-name-seen");
    let header = panel.changes_section_rows(&[]);
    let shown = section_header_view(headers(&header)[0]).seen.expect("a counter");
    assert_eq!(shown.selector, "changes-section-uncommitted-1-of-3-seen");
    assert_eq!(shown.label, "1/3 seen");
    panel.handle_toggle_change_seen_action();
    assert_eq!(row(&panel, 2).name_selector, "change-row-src/modified.txt-name-unseen");
    panel.handle_toggle_change_seen_action();
    assert!(row(&panel, 2).seen);
    assert!(panel.staged_files.is_empty());
}

#[test]
fn space_does_nothing_for_a_file_with_no_uncommitted_row() {
    let mut panel = mixed_status();
    panel.open_change = Some(path("committed.txt"));
    assert!(!panel.change_stage_toggle_live());
    assert!(!panel.change_seen_toggle_live());
    assert!(panel.handle_toggle_change_staged_action().is_none());
    assert!(panel.staged_files.is_empty());
    panel.open_change = Some(path("added.txt"));
    assert!(panel.change_stage_toggle_live());
    let request = panel.handle_toggle_change_staged_action().expect("a request");
    assert_eq!((request.path.display().as_str(), request.stage), ("added.txt", true));
    let request = panel.handle_toggle_change_staged_action().expect("a request");
    assert!(!request.stage);
    assert!(panel.staged_files.is_empty());
}

#[test]
fn the_hover_bar_is_absent_until_the_row_is_hovered() {
    let mut panel = mixed_status();
    assert!(!row(&panel, 2).actions);
    assert!(panel.set_change_row_hover(&path("src/modified.txt"), true, false));
    assert!(row(&panel, 2).actions);
    assert!(!row(&panel, 0).actions);
    assert!(!panel.set_change_row_hover(&path("src/modified.txt"), true, false));
    assert!(!panel.set_change_row_hover(&path("added.txt"), false, false));
}

#[test]
fn the_first_discard_click_only_arms_the_confirm_and_changes_nothing() {
    let mut panel = mixed_status();
    let file = path("src/modified.txt");
    panel.set_change_row_hover(&file, true, false);
    let bar = panel.change_row_actions_view(&file, row(&panel, 2).discard_armed);
    assert_eq!(bar.bar_selector, "change-row-actions-src/modified.txt");
    assert_eq!(bar.editor_selector, "change-row-open-in-editor-src/modified.txt");
    assert_eq!(bar.editor_path.display(), "/repo/src/modified.txt");
    assert_eq!(bar.discard_selector, "change-row-discard-src/modified.txt");
    assert_eq!(bar.discard_click, DiscardClick::Arm);
    panel.arm_discard(&file);
    let bar = panel.change_row_actions_view(&file, row(&panel, 2).discard_armed);
    assert_eq!(bar.discard_selector, "change-row-discard-confirm-src/modified.txt");
    assert_eq!(bar.discard_click, DiscardClick::Discard);
    assert_eq!(bar.discard_label, "Discard?");

    let request = panel.discard_change_row(file);
    assert!(panel.discard_armed.is_none());
    assert_eq!(request.worktree.display(), "/repo");
    assert!(!panel.finish_discard(request, Err("locked".to_string())));
    assert_eq!(panel.row_error_message(), Some("failed to discard: locked"));
    let again = panel.discard_change_row(path("added.txt"));
    assert!(panel.finish_discard(again, Ok(())));
    assert_eq!(panel.row_error_message(), None);
}

#[test]
fn leaving_the_row_cancels_an_armed_discard() {
    let mut panel = mixed_status();
    let file = path("src/modified.txt");
    panel.set_change_row_hover(&file, true, false);
    panel.arm_discard(&file);
    panel.set_change_row_hover(&file, true, true);
    panel.set_change_row_hover(&file, false, false);
    assert!(panel.discard_armed.is_some(), "the pointer is on the bar of the row");
    assert!(row(&panel, 2).actions);
    panel.set_change_row_hover(&file, false, true);
    assert!(panel.discard_armed.is_none());
    assert!(!row(&panel, 2).actions);
    panel.set_change_row_hover(&file, true, false);
    panel.arm_discard(&file);
    panel.set_change_row_hover(&path("added.txt"), true, false);
    assert!(panel.discard_armed.is_none(), "another row is hovered");
}

#[test]
fn a_checkbox_shows_whether_its_row_is_staged() {
    let checked = staging_checkbox_view(&path("a.txt"), true);
    assert_eq!(checked.selector, "stage-checkbox-a.txt");
    assert_eq!((checked.glyph, checked.background), ("\u{2713}", ThemeColor::ButtonGreen));
    let open = staging_checkbox_view(&path("a.txt"), false);
    assert_eq!((open.glyph, open.border), ("", ThemeColor::ButtonBorder));
}

fn whole_sidebar() -> Sidebar {
    let fold = TreeFold::restore(path("/repo"), None, FoldState::new());
    let mut sidebar = Sidebar::new(fold, path("/tmp"));
    sidebar.changes = mixed_status();
    sidebar
}

#[test]
fn the_views_follow_one_another() {
    let mut view = RightSidebarView::Files;
    let mut seen = vec![];
    for _ in 0..3 {
        view = next_right_sidebar_view(view);
        seen.push(view);
    }
    assert_eq!(
        seen,
        vec![RightSidebarView::Search, RightSidebarView::Changes, RightSidebarView::Files]
    );
    assert_eq!(view_at(1), RightSidebarView::Search);
    assert_eq!(view_at(2), RightSidebarView::Changes);
    assert_eq!(view_at(0), RightSidebarView::Files);
}

#[test]
fn leaving_the_changes_view_really_closes_the_commit_menu() {
    let mut sidebar = whole_sidebar();
    let effects = sidebar.set_right_sidebar_view(RightSidebarView::Changes, true, false);
    assert!(effects.refresh_diff && effects.restore_focus && effects.forget_tree_focus);
    sidebar.changes.toggle_commit_menu();
    let effects = sidebar.set_right_sidebar_view(RightSidebarView::Files, false, false);
    assert!(!effects.refresh_diff && !effects.forget_tree_focus && effects.forget_search_focus);
    assert!(!sidebar.changes.commit_menu_open);
    sidebar.set_right_sidebar_view(RightSidebarView::Changes, false, false);
    assert!(!sidebar.changes.commit_menu_open, "coming back does not open it again");
}

#[test]
fn leaving_the_files_tab_does_not_leave_focus_dangling_on_the_tree() {
    let mut sidebar = whole_sidebar();
    sidebar.start_tree_new_entry(path("/repo"), false);
    sidebar.context_menu = Some(ContextTarget::Empty);
    let effects = sidebar.set_right_sidebar_view(RightSidebarView::Search, true, true);
    assert!(effects.restore_focus);
    assert!(!effects.forget_search_focus);
    assert!(sidebar.inline_edit.is_none() && sidebar.context_menu.is_none());
    let effects = sidebar.set_right_sidebar_view(RightSidebarView::Files, false, true);
    assert!(effects.restore_focus, "a search field that is no longer drawn loses the focus");
}

#[test]
fn the_header_and_the_layout_follow_the_view() {
    let mut sidebar = whole_sidebar();
    let bar = sidebar.header_bar(Some((3, 1)));
    assert_eq!(bar.selected, 0);
    let collapse = bar.collapse_all.expect("a control");
    assert_eq!((collapse.id, collapse.glyph), ("file-tree-collapse-all", "\u{25be}"));
    assert_eq!(collapse.tooltip, "Collapse all folders (also clears the saved fold state)");
    let new_file = bar.new_file.expect("a control");
    assert_eq!((new_file.id, new_file.glyph), ("file-tree-new-file-root", "+"));
    assert_eq!(new_file.tooltip, "New file in worktree root");
    assert_eq!(bar.totals, Some(("+3".to_string(), "\u{2212}1".to_string())));
    assert_eq!(bar.tabs[2].label, "Changes");
    assert_eq!(
        sidebar.sidebar_layout(false, false, &[]),
        SidebarLayout::Files { rename_hint: true }
    );
    assert_eq!(sidebar.sidebar_layout(true, false, &[]), SidebarLayout::Graph);
    sidebar.set_right_sidebar_view(RightSidebarView::Changes, false, false);
    assert!(sidebar.header_bar(None).collapse_all.is_none());
    assert!(sidebar.header_bar(None).new_file.is_none());
    let hints = |sidebar: &Sidebar| match sidebar.sidebar_layout(false, true, &[false, true]) {
        SidebarLayout::Changes { stage_hint, seen_hint, author_hint, row_error } => {
            (stage_hint, seen_hint, author_hint, row_error)
        }
        _ => panic!("the changes"),
    };
    assert_eq!(hints(&sidebar), (false, false, true, false));
    sidebar.changes.open_change = Some(path("added.txt"));
    assert_eq!(hints(&sidebar), (true, true, true, false));
    assert!(!sidebar.changes.change_author_filter_live(false, &[true]));
    assert!(!sidebar.changes.change_author_filter_live(true, &[false]));
}

#[test]
fn tree_rows_are_marked_for_added_and_modified_files_but_not_for_deleted_ones() {
    let mut sidebar = whole_sidebar();
    assert!(!sidebar.tree_change_marks().contains_key(&path("/repo/added.txt")));
    sidebar.changes.branch_diff = BranchDiff::Loaded(diff(vec![
        file("added.txt", FileChangeStatus::Added, 1, 0),
        file("src/moved.txt", FileChangeStatus::Renamed, 1, 0),
        file("deleted.txt", FileChangeStatus::Deleted, 0, 1),
    ]));
    let marks = sidebar.tree_change_marks();
    assert_eq!(marks.get(&path("/repo/added.txt")), Some(&TreeMark::Added));
    assert_eq!(marks.get(&path("/repo/src/moved.txt")), Some(&TreeMark::Modified));
    assert!(!marks.contains_key(&path("/repo/deleted.txt")));
    assert!(sidebar.changes.diff_for(ChangesSection::AgainstMain).is_some());
    assert!(sidebar.changes.diff_for(ChangesSection::Uncommitted).is_some());
    assert!(sidebar.changes.diff_for(ChangesSection::Runs).is_none());
}

#[test]
fn a_run_source_is_read_off_an_agent() {
    let sources: Vec<RunSource> = run_sources(&[agent(7, "key", false)]);
    assert_eq!(sources[0].agent_id, 7);
    assert_eq!(sources[0].agent_key.key, "key");
    assert_eq!(sources[0].elapsed, 120);
}
