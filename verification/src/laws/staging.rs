use vstd::prelude::*;
use vstd::string::*;

use crate::change_set::{ChangeEntry, ChangeSet, DiffStat};
use crate::panel::{ChangesPanel, WorktreeDiff};
use crate::path::{FilePath, PathView};
use crate::sections::{seen_now, ChangesSection, SeenFiles};
use crate::staging::{DiscardRequest, StageRequest};

verus! {

/// Whether a slot holds `path`.
pub open spec fn holds_path(slot: Option<FilePath>, path: PathView) -> bool {
    slot matches Some(held) && held@ == path
}

/// Whether the message under a row is about `path` and reads `text`.
pub open spec fn row_says(
    message: Option<(FilePath, String)>,
    path: FilePath,
    text: Seq<char>,
) -> bool {
    message matches Some(told) && told.0.text() == path.text() && told.1@ == text
}

/// A click on a checkbox stages its path or takes it out, and concerns no
/// other. Git is asked for the same, in the panel's worktree.
pub proof fn law_checkbox_flips_its_path(
    panel: &mut ChangesPanel,
    path: FilePath,
    request: StageRequest,
    other: PathView,
)
    requires
        call_ensures(ChangesPanel::toggle_staged, (panel, path), request),
    ensures
        final(panel).staged_files@.contains(path@) != old(panel).staged_files@.contains(path@),
        other != path@ ==> final(panel).staged_files@.contains(other)
            == old(panel).staged_files@.contains(other),
        request.stage == final(panel).staged_files@.contains(path@),
        request.path.text() == path.text(),
        request.worktree.text() == old(panel).diff_root.text(),
        final(panel).row_error is None,
        final(panel).seen_files == old(panel).seen_files,
        final(panel).commit_message == old(panel).commit_message,
        final(panel).uncommitted_diff == old(panel).uncommitted_diff,
{
}

/// Two clicks on one checkbox leave what is staged as it was, and ask git for
/// opposite things.
pub proof fn law_checkbox_twice(
    first: &mut ChangesPanel,
    second: &mut ChangesPanel,
    path: FilePath,
    request: StageRequest,
    again: StageRequest,
)
    requires
        call_ensures(ChangesPanel::toggle_staged, (first, path), request),
        *second == *final(first),
        call_ensures(ChangesPanel::toggle_staged, (second, path), again),
    ensures
        final(second).staged_files@ =~= old(first).staged_files@,
        again.stage != request.stage,
{
}

/// Where git refuses what a checkbox asked for, the path is staged exactly
/// where it was before the click, and the row says what failed and why.
pub proof fn law_refused_click_is_undone(
    first: &mut ChangesPanel,
    second: &mut ChangesPanel,
    path: FilePath,
    request: StageRequest,
    err: String,
    other: PathView,
)
    requires
        call_ensures(ChangesPanel::toggle_staged, (first, path), request),
        *second == *final(first),
        call_ensures(ChangesPanel::finish_staging, (second, request, Err(err)), ()),
    ensures
        final(second).staged_files@.contains(other) == old(first).staged_files@.contains(other),
        row_says(
            final(second).row_error,
            path,
            if request.stage {
                "failed to "@ + "stage"@ + ": "@ + err@
            } else {
                "failed to "@ + "unstage"@ + ": "@ + err@
            },
        ),
{
}

/// Where git does what it was asked for, nothing changes any more.
pub proof fn law_granted_click_stays(panel: &mut ChangesPanel, request: StageRequest)
    requires
        call_ensures(ChangesPanel::finish_staging, (panel, request, Ok(())), ()),
    ensures
        *final(panel) == *old(panel),
{
}

/// The message is the one of the row that failed, and it can be taken away.
pub proof fn law_message_of_the_row(panel: &ChangesPanel, message: Option<&str>)
    requires
        call_ensures(ChangesPanel::row_error_message, (panel,), message),
    ensures
        message is Some == panel.row_error is Some,
        panel.row_error matches Some(told) ==> message->0@ == told.1@,
{
}

/// A message that was dismissed is gone, and nothing else is.
pub proof fn law_message_is_dismissed(panel: &mut ChangesPanel)
    requires
        call_ensures(ChangesPanel::dismiss_row_error, (panel,), ()),
    ensures
        final(panel).row_error is None,
        final(panel).staged_files == old(panel).staged_files,
        final(panel).seen_files == old(panel).seen_files,
{
}

/// The open file can be marked and staged from the keyboard exactly where it
/// is one of the uncommitted changes.
pub proof fn law_keyboard_acts_on_the_open_change(
    panel: &ChangesPanel,
    open: Option<&FilePath>,
    can_mark: bool,
    can_stage: bool,
)
    requires
        call_ensures(ChangesPanel::open_uncommitted_change, (panel,), open),
        call_ensures(ChangesPanel::change_seen_toggle_live, (panel,), can_mark),
        call_ensures(ChangesPanel::change_stage_toggle_live, (panel,), can_stage),
    ensures
        open is Some == (panel.open_change matches Some(path) && exists|i: int|
            0 <= i < panel.uncommitted_change_set@.len() && (
            #[trigger] panel.uncommitted_change_set@[i]).at() == path@),
        open matches Some(path) ==> panel.open_change matches Some(own) && own.text()
            == path.text(),
        can_mark == open is Some,
        can_stage == open is Some,
{
    let entries = panel.uncommitted_change_set@;
    let paths = crate::change_set::entry_paths(entries);
    assert(paths.len() == entries.len());
    if let Some(path) = panel.open_change {
        if paths.contains(path@) {
            let i = paths.index_of(path@);
            assert(entries[i].at() == path@);
        }
        if exists|i: int| 0 <= i < entries.len() && (#[trigger] entries[i]).at() == path@ {
            let i = choose|i: int| 0 <= i < entries.len() && (#[trigger] entries[i]).at() == path@;
            assert(paths[i] == path@);
        }
    }
}

/// From the keyboard the open change is staged or taken out, as by its own
/// checkbox, and nothing is where no change is open.
pub proof fn law_keyboard_stages_the_open_change(
    panel: &mut ChangesPanel,
    request: Option<StageRequest>,
    open: Option<&FilePath>,
    other: PathView,
)
    requires
        call_ensures(ChangesPanel::handle_toggle_change_staged_action, (panel,), request),
        exists|before: &ChangesPanel|
            *before == *old(panel) && #[trigger] call_ensures(
                ChangesPanel::open_uncommitted_change,
                (before,),
                open,
            ),
    ensures
        request is Some == open is Some,
        open is None ==> *final(panel) == *old(panel),
        open matches Some(path) ==> {
            &&& request->0.path.text() == path.text()
            &&& request->0.worktree.text() == old(panel).diff_root.text()
            &&& request->0.stage == final(panel).staged_files@.contains(path@)
            &&& final(panel).staged_files@.contains(path@) != old(panel).staged_files@.contains(
                path@,
            )
            &&& other != path@ ==> final(panel).staged_files@.contains(other)
                == old(panel).staged_files@.contains(other)
        },
        final(panel).seen_files == old(panel).seen_files,
{
}

/// Marking the open change from the keyboard makes it seen where it was not
/// and unseen where it was, by what it changes now; no other file's mark
/// changes, and nothing is staged.
pub proof fn law_keyboard_marks_the_open_change(
    panel: &mut ChangesPanel,
    i: int,
    stat: DiffStat,
    before: bool,
    after: bool,
    other: &FilePath,
    other_stat: DiffStat,
    other_before: bool,
    other_after: bool,
    seen_before: &SeenFiles,
    seen_after: &SeenFiles,
    path: &FilePath,
)
    requires
        call_ensures(ChangesPanel::handle_toggle_change_seen_action, (panel,), ()),
        *seen_before == old(panel).seen_files,
        *seen_after == final(panel).seen_files,
        old(panel).open_change matches Some(open) && open@ == path@,
        0 <= i < old(panel).uncommitted_change_set@.len(),
        old(panel).uncommitted_change_set@[i].at() == path@,
        crate::change_set::entry_paths(old(panel).uncommitted_change_set@).no_duplicates(),
        stat.lines() == crate::change_set::lines_of(
            old(panel).uncommitted_change_set@[i].shares,
        ),
        other@ != path@,
        call_ensures(SeenFiles::is_seen, (seen_before, &old(panel).diff_root, path, stat), before),
        call_ensures(SeenFiles::is_seen, (seen_after, &old(panel).diff_root, path, stat), after),
        call_ensures(
            SeenFiles::is_seen,
            (seen_before, &old(panel).diff_root, other, other_stat),
            other_before,
        ),
        call_ensures(
            SeenFiles::is_seen,
            (seen_after, &old(panel).diff_root, other, other_stat),
            other_after,
        ),
    ensures
        after != before,
        other_after == other_before,
        final(panel).staged_files == old(panel).staged_files,
{
    let entries = old(panel).uncommitted_change_set@;
    let paths = crate::change_set::entry_paths(entries);
    assert(paths[i] == path@);
    assert(paths.contains(path@));
    assert(paths.index_of(path@) == i);
    assert(stat.lines() == (stat.added as nat, stat.removed as nat));
}

/// A file that was marked is seen as long as it changes the same, and not when
/// it changes otherwise; unmarked it is not, whatever it changes.
pub proof fn law_mark_and_unmark(
    first: &mut SeenFiles,
    second: &mut SeenFiles,
    worktree: &FilePath,
    path: &FilePath,
    stat: DiffStat,
    now: DiffStat,
    marked: &SeenFiles,
    cleared: &SeenFiles,
    seen: bool,
    gone: bool,
)
    requires
        call_ensures(SeenFiles::mark_seen, (first, worktree, path, stat), ()),
        *marked == *final(first),
        *second == *final(first),
        call_ensures(SeenFiles::clear, (second, worktree, path), ()),
        *cleared == *final(second),
        call_ensures(SeenFiles::is_seen, (marked, worktree, path, now), seen),
        call_ensures(SeenFiles::is_seen, (cleared, worktree, path, now), gone),
    ensures
        seen == (now.added == stat.added && now.removed == stat.removed),
        !gone,
{
}

/// A mark concerns its own path in its own worktree.
pub proof fn law_mark_is_of_one_path(
    before: &SeenFiles,
    first: &mut SeenFiles,
    after: &SeenFiles,
    worktree: &FilePath,
    path: &FilePath,
    stat: DiffStat,
    other_worktree: &FilePath,
    other: &FilePath,
    now: DiffStat,
    was: bool,
    is: bool,
)
    requires
        *first == *before,
        call_ensures(SeenFiles::mark_seen, (first, worktree, path, stat), ()),
        *after == *final(first),
        other@ != path@ || other_worktree@ != worktree@,
        call_ensures(SeenFiles::is_seen, (before, other_worktree, other, now), was),
        call_ensures(SeenFiles::is_seen, (after, other_worktree, other, now), is),
    ensures
        is == was,
{
    assert((other_worktree@, other@) != (worktree@, path@));
}

/// The count of what was seen is the number of changes that are seen.
pub proof fn law_count_of_seen(
    seen: &SeenFiles,
    worktree: &FilePath,
    changes: &ChangeSet,
    entries: &Vec<ChangeEntry>,
    count: usize,
) -> (at: Seq<int>)
    requires
        call_ensures(SeenFiles::seen_count, (seen, worktree, changes), count),
        call_ensures(ChangeSet::entries, (changes,), entries),
    ensures
        crate::laws::picks(
            at,
            entries@.len() as int,
            |i: int|
                {
                    &&& seen@.contains_key((worktree@, entries@[i]@.at()))
                    &&& seen@[(worktree@, entries@[i]@.at())].lines()
                        == crate::change_set::lines_of(
                        entries@[i]@.shares,
                    )
                },
        ),
        count == at.len(),
{
    let all = changes@;
    assert(all.len() == entries@.len());
    assert forall|i: int| 0 <= i < all.len() implies all[i] == (#[trigger] entries@[i])@ by {
        assert(crate::change_set::entry_views(entries@)[i] == entries@[i]@);
    }
    let at = lemma_seen(seen@, worktree@, all);
    let told = |i: int|
        {
            &&& seen@.contains_key((worktree@, entries@[i]@.at()))
            &&& seen@[(worktree@, entries@[i]@.at())].lines() == crate::change_set::lines_of(
                entries@[i]@.shares,
            )
        };
    let kept = |i: int|
        seen_now(seen@, worktree@, all[i].at(), crate::change_set::lines_of(all[i].shares));
    assert forall|i: int| 0 <= i < all.len() implies told(i) == #[trigger] kept(i) by {
        assert(all[i] == entries@[i]@);
    }
    assert forall|k: int| 0 <= k < at.len() implies 0 <= #[trigger] at[k] < all.len() && told(
        at[k],
    ) by {
        assert(kept(at[k]));
    }
    assert forall|i: int| 0 <= i < all.len() && #[trigger] told(i) implies at.contains(i) by {
        assert(kept(i));
    }
    at
}

proof fn lemma_seen(
    marks: Map<(PathView, PathView), DiffStat>,
    worktree: PathView,
    entries: Seq<crate::change_set::EntryView>,
) -> (at: Seq<int>)
    ensures
        crate::laws::picks(
            at,
            entries.len() as int,
            |i: int|
                seen_now(
                    marks,
                    worktree,
                    entries[i].at(),
                    crate::change_set::lines_of(entries[i].shares),
                ),
        ),
        at.len() == crate::sections::seen_entries(marks, worktree, entries).len(),
    decreases entries.len(),
{
    reveal(Seq::filter);
    if entries.len() == 0 {
        assert(crate::sections::seen_entries(marks, worktree, entries) =~= seq![]);
        seq![]
    } else {
        let rest = entries.drop_last();
        let before = lemma_seen(marks, worktree, rest);
        crate::laws::lemma_picks(
            before,
            entries.len() - 1,
            |i: int|
                seen_now(
                    marks,
                    worktree,
                    rest[i].at(),
                    crate::change_set::lines_of(rest[i].shares),
                ),
            |i: int|
                seen_now(
                    marks,
                    worktree,
                    entries[i].at(),
                    crate::change_set::lines_of(entries[i].shares),
                ),
        )
    }
}

/// The pointer is on the row, or on the bar over it, that it came to, and no
/// longer on the one that it left. The other of the two slots stays.
pub proof fn law_pointer_is_where_it_came(
    panel: &mut ChangesPanel,
    path: &FilePath,
    hovered: bool,
    from_bar: bool,
    changed: bool,
    other: PathView,
)
    requires
        call_ensures(
            ChangesPanel::set_change_row_hover,
            (panel, path, hovered, from_bar),
            changed,
        ),
    ensures
        !from_bar ==> {
            &&& holds_path(final(panel).row_hover, path@) == hovered
            &&& hovered && other != path@ ==> !holds_path(final(panel).row_hover, other)
            &&& !hovered && other != path@ ==> holds_path(final(panel).row_hover, other)
                == holds_path(old(panel).row_hover, other)
            &&& holds_path(final(panel).actions_hover, other) == holds_path(
                old(panel).actions_hover,
                other,
            )
        },
        from_bar ==> {
            &&& holds_path(final(panel).actions_hover, path@) == hovered
            &&& hovered && other != path@ ==> !holds_path(final(panel).actions_hover, other)
            &&& !hovered && other != path@ ==> holds_path(final(panel).actions_hover, other)
                == holds_path(old(panel).actions_hover, other)
            &&& holds_path(final(panel).row_hover, other) == holds_path(
                old(panel).row_hover,
                other,
            )
        },
        changed == (hovered != holds_path(
            if from_bar {
                old(panel).actions_hover
            } else {
                old(panel).row_hover
            },
            path@,
        )),
        final(panel).staged_files == old(panel).staged_files,
        final(panel).seen_files == old(panel).seen_files,
{
}

/// A discard stays armed only for the file that was armed, and only while the
/// pointer is on its row or on the bar over it: once the pointer has moved off
/// both, nothing is armed.
pub proof fn law_armed_only_under_the_pointer(
    panel: &mut ChangesPanel,
    path: &FilePath,
    hovered: bool,
    from_bar: bool,
    changed: bool,
    armed: PathView,
)
    requires
        call_ensures(
            ChangesPanel::set_change_row_hover,
            (panel, path, hovered, from_bar),
            changed,
        ),
    ensures
        holds_path(final(panel).discard_armed, armed) ==> holds_path(
            old(panel).discard_armed,
            armed,
        ),
        changed && holds_path(final(panel).discard_armed, armed) ==> holds_path(
            final(panel).row_hover,
            armed,
        ) || holds_path(final(panel).actions_hover, armed),
        holds_path(old(panel).discard_armed, armed) && (holds_path(final(panel).row_hover, armed)
            || holds_path(final(panel).actions_hover, armed)) ==> holds_path(
            final(panel).discard_armed,
            armed,
        ),
{
}

/// A discard takes two clicks: the first arms the file and changes nothing
/// else, the second asks for that file's changes to be thrown away in the
/// panel's worktree and disarms.
pub proof fn law_discard_takes_two_clicks(
    first: &mut ChangesPanel,
    second: &mut ChangesPanel,
    path: &FilePath,
    own: FilePath,
    request: DiscardRequest,
)
    requires
        call_ensures(ChangesPanel::arm_discard, (first, path), ()),
        *second == *final(first),
        call_ensures(ChangesPanel::discard_change_row, (second, own), request),
        own.text() == path.text(),
    ensures
        holds_path(final(first).discard_armed, path@),
        final(first).staged_files == old(first).staged_files,
        final(first).uncommitted_diff == old(first).uncommitted_diff,
        request.path.text() == path.text(),
        request.worktree.text() == old(first).diff_root.text(),
        final(second).discard_armed is None,
        final(second).row_error is None,
        final(second).staged_files == old(first).staged_files,
{
}

/// A discard that was done asks for the diff to be read again; one that was
/// not is told under its row.
pub proof fn law_finished_discard(
    panel: &mut ChangesPanel,
    request: DiscardRequest,
    outcome: Result<(), String>,
    reload: bool,
)
    requires
        call_ensures(ChangesPanel::finish_discard, (panel, request, outcome), reload),
    ensures
        reload == outcome is Ok,
        outcome is Ok ==> *final(panel) == *old(panel),
        outcome matches Err(err) ==> row_says(
            final(panel).row_error,
            request.path,
            "failed to discard: "@ + err@,
        ) && final(panel).staged_files == old(panel).staged_files,
{
}

/// The uncommitted section is of the uncommitted diff, Against main of the
/// branch's, and the other two list no files.
pub proof fn law_diff_of_a_section(
    panel: &ChangesPanel,
    section: ChangesSection,
    diff: Option<&WorktreeDiff>,
)
    requires
        call_ensures(ChangesPanel::diff_for, (panel, section), diff),
    ensures
        section is Runs || section is Commits ==> diff is None,
        section is Uncommitted ==> diff is Some == panel.uncommitted_diff is Loaded,
        section is Uncommitted ==> (diff matches Some(found) ==> *found
            == panel.uncommitted_diff->Loaded_0),
        section is AgainstMain ==> diff is Some == panel.branch_diff is Loaded,
        section is AgainstMain ==> (diff matches Some(found) ==> *found
            == panel.branch_diff->Loaded_0),
{
}

/// A click on an author's chip does something exactly where there are several
/// agents and a row shows an author.
pub proof fn law_author_filter(
    panel: &ChangesPanel,
    several: bool,
    shows: &[bool],
    live: bool,
)
    requires
        call_ensures(ChangesPanel::change_author_filter_live, (panel, several, shows), live),
    ensures
        live <==> several && exists|i: int| 0 <= i < shows@.len() && #[trigger] shows@[i],
{
    if shows@.contains(true) {
        let i = shows@.index_of(true);
        assert(shows@[i]);
    }
}

} // verus!
