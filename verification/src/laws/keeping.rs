use vstd::prelude::*;
use vstd::string::*;

use crate::documents::{drop_under, remap_paths, Documents};
use crate::history::{
    cleanup_tree_undo_backup, Backup, DeleteMechanism, TreeHistory, TreeUndoEntry,
};
use crate::laws::folding::{lemma_starts_with, starts_with};
use crate::laws::following::{
    follows, lemma_set_follows, lemma_set_without, lemma_text_follows, set_follows, set_without,
};
use crate::path::{FilePath, PathView};
use crate::path_set::{given, views, PathSet};
use crate::sections::{
    ChangesSection, NoteEmphasis, RunRow, ScopeLoad, SectionCollapse, SectionRow,
};
use crate::state::{next_right_sidebar_view, RightSidebarView, Sidebar, TreeMark};
use crate::table::{Key, Table};
use crate::theme::ThemeColor;
use crate::tree_view::folder_icon_colors;

verus! {

/// A set of paths holds what was put in until it is taken out, and neither
/// concerns another path.
pub proof fn law_in_and_out_of_a_set(
    first: &mut PathSet,
    second: &mut PathSet,
    path: FilePath,
    same: &FilePath,
    other: &FilePath,
    before: &PathSet,
    with: &PathSet,
    without: &PathSet,
    added: bool,
    removed: bool,
    told_with: bool,
    told_without: bool,
    other_before: bool,
    other_with: bool,
    other_without: bool,
)
    requires
        *first == *before,
        call_ensures(PathSet::insert, (first, path), added),
        *with == *final(first),
        *second == *final(first),
        same@ == path@,
        other@ != path@,
        call_ensures(PathSet::remove, (second, same), removed),
        *without == *final(second),
        call_ensures(PathSet::contains, (with, same), told_with),
        call_ensures(PathSet::contains, (without, same), told_without),
        call_ensures(PathSet::contains, (before, other), other_before),
        call_ensures(PathSet::contains, (with, other), other_with),
        call_ensures(PathSet::contains, (without, other), other_without),
    ensures
        told_with,
        removed,
        !told_without,
        other_with == other_before,
        other_without == other_before,
        added == !before@.contains(path@),
{
}

/// A set lists its paths, each once, and has a path where it is not empty.
pub proof fn law_set_lists_its_paths(
    set: &PathSet,
    paths: Vec<FilePath>,
    count: usize,
    empty: bool,
    any: Option<FilePath>,
    path: PathView,
)
    requires
        call_ensures(PathSet::to_vec, (set,), paths),
        call_ensures(PathSet::len, (set,), count),
        call_ensures(PathSet::is_empty, (set,), empty),
        call_ensures(PathSet::any, (set,), any),
    ensures
        set@.contains(path) <==> exists|i: int|
            0 <= i < paths@.len() && (#[trigger] paths@[i])@ == path,
        forall|i: int, j: int|
            0 <= i < j < paths@.len() ==> (#[trigger] paths@[i])@ != (#[trigger] paths@[j])@,
        count == paths@.len(),
        empty == (paths@.len() == 0),
        any is None == empty,
        any matches Some(member) ==> set@.contains(member@),
{
    let all = views(paths@);
    assert(all.len() == paths@.len());
    all.unique_seq_to_set();
    assert(all.to_set().contains(path) == set@.contains(path));
    assert forall|i: int| 0 <= i < all.len() implies all[i] == (#[trigger] paths@[i])@ by {
    }
    if set@.contains(path) {
        let i = all.index_of(path);
        assert(paths@[i]@ == path);
    }
    if exists|i: int| 0 <= i < paths@.len() && (#[trigger] paths@[i])@ == path {
        let i = choose|i: int| 0 <= i < paths@.len() && (#[trigger] paths@[i])@ == path;
        assert(all.contains(all[i]));
    }
    if empty {
        assert(all.to_set().len() == 0);
    }
    if paths@.len() == 0 {
        assert(all.to_set() =~= Set::<PathView>::empty());
    }
}

/// Paths of a set below one that went go, those below one that moved move, and
/// of two sets what both hold stays.
pub proof fn law_sets_of_paths(
    first: &mut PathSet,
    second: &mut PathSet,
    third: &mut PathSet,
    base: &FilePath,
    to: &FilePath,
    others: &PathSet,
    path: PathView,
)
    requires
        call_ensures(PathSet::remove_under, (first, base), ()),
        call_ensures(PathSet::remap, (second, base, to), ()),
        call_ensures(PathSet::intersect, (third, others), ()),
    ensures
        set_without(final(first)@, old(first)@, base@),
        set_follows(final(second)@, old(second)@, base@, to@),
        final(third)@.contains(path) == (old(third)@.contains(path) && others@.contains(path)),
{
    lemma_set_without(old(first)@, base@);
    lemma_set_follows(old(second)@, base@, to@);
}

/// A table gives back what was filed last under a key, and nothing once the
/// key was taken out; neither concerns another key.
pub proof fn law_filed_and_found<K: Key, V>(
    first: &mut Table<K, V>,
    second: &mut Table<K, V>,
    key: K,
    value: V,
    same: &K,
    with: &Table<K, V>,
    without: &Table<K, V>,
    found: Option<&V>,
    gone: Option<&V>,
    removed: bool,
)
    requires
        call_ensures(Table::<K, V>::insert, (first, key, value), ()),
        *with == *final(first),
        *second == *final(first),
        same@ == key@,
        call_ensures(Table::<K, V>::remove, (second, same), removed),
        *without == *final(second),
        call_ensures(Table::<K, V>::get, (with, same), found),
        call_ensures(Table::<K, V>::get, (without, same), gone),
    ensures
        found matches Some(kept) && *kept == value,
        removed,
        gone is None,
        forall|other: K::V|
            other != key@ ==> #[trigger] final(first)@.contains_key(other)
                == old(first)@.contains_key(other),
        forall|other: K::V|
            other != key@ && #[trigger] old(first)@.contains_key(other) ==> final(first)@[other]
                == old(first)@[other],
{
}

/// The tabs of a list follow a rename in their places.
pub proof fn law_list_follows_a_rename(
    paths: &Vec<FilePath>,
    from: &FilePath,
    to: &FilePath,
    there: Vec<FilePath>,
)
    requires
        call_ensures(remap_paths, (paths, from, to), there),
    ensures
        there@.len() == paths@.len(),
        forall|i: int|
            0 <= i < paths@.len() ==> follows(
                (#[trigger] there@[i])@,
                paths@[i]@,
                from@,
                to@,
            ),
{
    assert(given(paths@).len() == paths@.len());
    assert(given(there@).len() == there@.len());
    assert forall|i: int| 0 <= i < paths@.len() implies follows(
        (#[trigger] there@[i])@,
        paths@[i]@,
        from@,
        to@,
    ) by {
        assert(given(paths@)[i] == paths@[i].text());
        assert(given(there@)[i] == there@[i].text());
        lemma_text_follows(paths@[i].text(), from@, to.text());
    }
}

/// Of a list without what lies at a path or below it the others are left, in
/// their order.
pub proof fn law_list_without_a_path(
    paths: &Vec<FilePath>,
    base: &FilePath,
    kept: Vec<FilePath>,
) -> (at: Seq<int>)
    requires
        call_ensures(drop_under, (paths, base), kept),
    ensures
        crate::laws::picks(
            at,
            paths@.len() as int,
            |i: int| !starts_with(paths@[i]@, base@),
        ),
        at.len() == kept@.len(),
        forall|k: int|
            0 <= k < at.len() ==> kept@[k].text() == paths@[#[trigger] at[k]].text(),
{
    let at = crate::laws::following::lemma_tabs_left(paths@, base@);
    assert(given(kept@).len() == kept@.len());
    assert forall|k: int| 0 <= k < at.len() implies kept@[k].text() == paths@[
        #[trigger] at[k]
    ].text() by {
        assert(given(kept@)[k] == kept@[k].text());
    }
    at
}

/// What the language server was told of a path goes with the path, and what
/// was computed for the open file goes at once; the buffers and tabs stay.
pub proof fn law_server_and_caches(
    first: &mut Documents,
    second: &mut Documents,
    absolute: &FilePath,
    relative: &FilePath,
    path: PathView,
)
    requires
        call_ensures(Documents::forget_lsp_document_state, (first, absolute, relative), ()),
        call_ensures(Documents::invalidate_code_surface_caches, (second,), ()),
    ensures
        set_without(final(first).lsp_opened_files@, old(first).lsp_opened_files@, absolute@),
        starts_with(path, absolute@) ==> !final(first).lsp_document_versions@.contains_key(path)
            && !final(first).lsp_uri_cache@.contains_key(path),
        !starts_with(path, absolute@) ==> final(first).lsp_document_versions@.contains_key(path)
            == old(first).lsp_document_versions@.contains_key(path)
                && final(first).lsp_uri_cache@.contains_key(path)
                == old(first).lsp_uri_cache@.contains_key(path),
        starts_with(path, relative@) ==> !final(first).lsp_last_synced_content@.contains_key(path)
            && !final(first).lsp_synced_version@.contains_key(path)
                && !final(first).lsp_diagnostics_confirmed_version@.contains_key(path),
        final(first).open_files == old(first).open_files,
        final(first).edit_buffers == old(first).edit_buffers,
        !final(second).caches.file_view && !final(second).caches.hover
            && !final(second).caches.diff_highlight,
        final(second).open_files == old(second).open_files,
        final(second).edit_buffers == old(second).edit_buffers,
{
    lemma_set_without(old(first).lsp_opened_files@, absolute@);
    lemma_starts_with(path, absolute@);
    lemma_starts_with(path, relative@);
}

/// What was put last on a list is what is taken off first, and the list is
/// then as it was.
pub proof fn law_last_on_first_off(
    first: &mut TreeHistory,
    second: &mut TreeHistory,
    entry: TreeUndoEntry,
    taken: Option<TreeUndoEntry>,
)
    requires
        call_ensures(TreeHistory::push_undo, (first, entry), ()),
        *second == *final(first),
        call_ensures(TreeHistory::pop_undo, (second,), taken),
    ensures
        taken matches Some(latest) && latest@ == entry@,
        final(second).undos() == old(first).undos(),
        final(second).redos() == old(first).redos(),
{
    let middle = final(first).undos();
    assert(middle.last() == entry@);
    assert(middle.drop_last() =~= old(first).undos());
    assert(middle.len() > 0);
    assert(final(second).undos().push(taken->0@).last() == taken->0@);
    assert(final(second).undos().push(taken->0@).drop_last() =~= final(second).undos());
}

/// The same of what can be done again.
pub proof fn law_last_undone_first_redone(
    first: &mut TreeHistory,
    second: &mut TreeHistory,
    entry: TreeUndoEntry,
    taken: Option<TreeUndoEntry>,
)
    requires
        call_ensures(TreeHistory::push_redo, (first, entry), ()),
        *second == *final(first),
        call_ensures(TreeHistory::pop_redo, (second,), taken),
    ensures
        taken matches Some(latest) && latest@ == entry@,
        final(second).redos() == old(first).redos(),
        final(second).undos() == old(first).undos(),
{
    let middle = final(first).redos();
    assert(middle.last() == entry@);
    assert(middle.drop_last() =~= old(first).redos());
    assert(middle.len() > 0);
    assert(final(second).redos().push(taken->0@).last() == taken->0@);
    assert(final(second).redos().push(taken->0@).drop_last() =~= final(second).redos());
}

/// A deletion has its copy, and a move has none.
pub proof fn law_copy_of_an_entry(entry: &TreeUndoEntry, backup: Option<Backup>)
    requires
        call_ensures(cleanup_tree_undo_backup, (entry,), backup),
    ensures
        match (*entry, backup) {
            (TreeUndoEntry::Delete { backup_path, is_dir, .. }, Some(copy)) => copy.path.text()
                == backup_path.text() && copy.is_dir == is_dir,
            (TreeUndoEntry::Relocate { .. }, None) => true,
            _ => false,
        },
{
}

/// Forgetting the history leaves nothing to take back or to do again, and hands
/// back a copy for each deletion of both lists.
pub proof fn law_history_is_forgotten(
    history: &mut TreeHistory,
    dropped: Vec<Backup>,
    done: Vec<Backup>,
    undone: Vec<Backup>,
)
    requires
        call_ensures(TreeHistory::clear_tree_undo_history, (history,), dropped),
        call_ensures(crate::history::collect_backups, (&history.undo_stack,), done),
        call_ensures(crate::history::collect_backups, (&history.redo_stack,), undone),
    ensures
        final(history).undo_stack@.len() == 0,
        final(history).redo_stack@.len() == 0,
        dropped@.len() == done@.len() + undone@.len(),
        forall|k: int|
            0 <= k < done@.len() ==> (#[trigger] dropped@[k]).path.text() == done@[k].path.text(),
        forall|k: int|
            done@.len() <= k < dropped@.len() ==> (#[trigger] dropped@[k]).path.text() == undone@[k
                - done@.len()].path.text(),
{
    let all = crate::history::backup_views(dropped@);
    let a = crate::history::backup_views(done@);
    let b = crate::history::backup_views(undone@);
    assert(all.len() == dropped@.len() && a.len() == done@.len() && b.len() == undone@.len());
    assert(all == a + b);
    assert(final(history).undos().len() == final(history).undo_stack@.len());
    assert(final(history).redos().len() == final(history).redo_stack@.len());
    assert forall|k: int| 0 <= k < done@.len() implies (#[trigger] dropped@[k]).path.text()
        == done@[k].path.text() by {
        assert(all[k] == (dropped@[k].path.text(), dropped@[k].is_dir));
        assert(a[k] == (done@[k].path.text(), done@[k].is_dir));
    }
    assert forall|k: int| done@.len() <= k < dropped@.len() implies (
    #[trigger] dropped@[k]).path.text() == undone@[k - done@.len()].path.text() by {
        assert(all[k] == (dropped@[k].path.text(), dropped@[k].is_dir));
        let i = k - done@.len();
        assert(b[i] == (undone@[i].path.text(), undone@[i].is_dir));
    }
}

/// A means of deletion that is used again is the same: the same program with
/// the same arguments, or none.
pub proof fn law_means_is_the_same(mechanism: &DeleteMechanism, copy: DeleteMechanism)
    requires
        call_ensures(DeleteMechanism::copy, (mechanism,), copy),
    ensures
        match (*mechanism, copy) {
            (
                DeleteMechanism::Trash { program, args },
                DeleteMechanism::Trash { program: again, args: same },
            ) => program@ == again@ && args@.len() == same@.len() && forall|i: int|
                0 <= i < args@.len() ==> (#[trigger] args@[i])@ == same@[i]@,
            (DeleteMechanism::Permanent, DeleteMechanism::Permanent) => true,
            _ => false,
        },
{
    if let DeleteMechanism::Trash { program, args } = *mechanism {
        if let DeleteMechanism::Trash { program: again, args: same } = copy {
            let a = crate::text::texts(args@);
            let b = crate::text::texts(same@);
            assert(a.len() == args@.len() && b.len() == same@.len());
            assert forall|i: int| 0 <= i < args@.len() implies (#[trigger] args@[i])@
                == same@[i]@ by {
                assert(a[i] == args@[i]@);
                assert(b[i] == same@[i]@);
            }
        }
    }
}

/// The views follow one another in a circle: Files, Search, Changes.
pub proof fn law_circle_of_views(
    first: RightSidebarView,
    second: RightSidebarView,
    third: RightSidebarView,
    fourth: RightSidebarView,
)
    requires
        call_ensures(next_right_sidebar_view, (first,), second),
        call_ensures(next_right_sidebar_view, (second,), third),
        call_ensures(next_right_sidebar_view, (third,), fourth),
    ensures
        second != first && third != first && third != second,
        fourth == first,
        first is Files ==> second is Search,
{
}

/// A failure that was reported is told until it is dismissed, and nothing else
/// changes by either.
pub proof fn law_reported_until_dismissed(
    first: &mut Sidebar,
    second: &mut Sidebar,
    message: String,
)
    requires
        call_ensures(Sidebar::report_tree_op_error, (first, message), ()),
        *second == *final(first),
        call_ensures(Sidebar::dismiss_op_error, (second,), ()),
    ensures
        crate::laws::says(final(first).op_error, message@),
        final(second).op_error is None,
        final(second).tree == old(first).tree,
        final(second).selection == old(first).selection,
        final(second).docs == old(first).docs,
        final(second).history == old(first).history,
{
}

/// Closing the field or the menu closes that one and nothing else, and says
/// whether there was one.
pub proof fn law_field_and_menu_are_closed(
    first: &mut Sidebar,
    second: &mut Sidebar,
    field: bool,
    menu: bool,
)
    requires
        call_ensures(Sidebar::cancel_tree_inline_edit, (first,), field),
        call_ensures(Sidebar::close_tree_context_menu, (second,), menu),
    ensures
        field == old(first).inline_edit is Some,
        final(first).inline_edit is None,
        final(first).context_menu == old(first).context_menu,
        final(first).tree == old(first).tree,
        menu == old(second).context_menu is Some,
        final(second).context_menu is None,
        final(second).inline_edit == old(second).inline_edit,
        final(second).selection == old(second).selection,
{
}

/// An addition is marked A and a modification M, each in its colour.
pub proof fn law_marks_are_told(mark: TreeMark, letter: &'static str, color: ThemeColor)
    requires
        call_ensures(TreeMark::label, (mark,), letter),
        call_ensures(TreeMark::color, (mark,), color),
    ensures
        mark is Added ==> letter@ == "A"@ && color == ThemeColor::TreeAdded,
        mark is Modified ==> letter@ == "M"@ && color == ThemeColor::TreeModified,
{
}

/// The colours that tell things apart: an expanded directory from a collapsed
/// one, a warning from a note, a run that is alive from one that ended, and
/// the sections by their edges.
pub proof fn law_colours_tell_apart(
    open: (ThemeColor, ThemeColor),
    closed: (ThemeColor, ThemeColor),
    quiet: ThemeColor,
    warning: ThemeColor,
    run: &RunRow,
    meta: ThemeColor,
    section: ChangesSection,
    edge: Option<ThemeColor>,
    stages: bool,
    starts: bool,
)
    requires
        call_ensures(folder_icon_colors, (true,), open),
        call_ensures(folder_icon_colors, (false,), closed),
        call_ensures(NoteEmphasis::color, (NoteEmphasis::Quiet,), quiet),
        call_ensures(NoteEmphasis::color, (NoteEmphasis::Warning,), warning),
        call_ensures(RunRow::meta_color, (run,), meta),
        call_ensures(ChangesSection::edge_color, (section,), edge),
        call_ensures(ChangesSection::has_checkboxes, (section,), stages),
        call_ensures(ChangesSection::starts_open, (section,), starts),
    ensures
        open.0 != closed.0 && closed.0 == ThemeColor::Transparent,
        quiet == ThemeColor::TextFaint && warning == ThemeColor::StatusAsk,
        run.live ==> meta == ThemeColor::RunMetaLive,
        !run.live ==> meta == ThemeColor::RunMetaEnded,
        section is Uncommitted ==> edge == Some(ThemeColor::EdgeUncommitted),
        section is Commits ==> edge == Some(ThemeColor::EdgeNeutral),
        section is AgainstMain ==> edge == Some(ThemeColor::EdgeAgainstMain),
        section is Runs ==> edge is None,
        stages == section is Uncommitted,
        starts == (section is Uncommitted || section is Runs),
{
}

/// A header counts runs, files and commits and nothing else, and each row is
/// of the section that lists its kind.
pub proof fn law_rows_know_their_section(
    row: &SectionRow,
    counted: bool,
    section: ChangesSection,
)
    requires
        call_ensures(SectionRow::is_counted, (row,), counted),
        call_ensures(SectionRow::section, (row,), section),
    ensures
        counted == (*row is Run || *row is UncommittedFile || *row is Commit),
        *row is Run ==> section is Runs,
        *row is UncommittedFile ==> section is Uncommitted,
        *row is Commit ==> section is Commits,
        *row is AgainstMainContext ==> section is AgainstMain,
        *row matches SectionRow::Header(header) ==> section == header.section,
        *row matches SectionRow::Note { section: own, .. } ==> section == own,
{
}

/// Toggling one section opens or closes that one and no other.
pub proof fn law_one_section_at_a_time(
    first: &mut SectionCollapse,
    before: &SectionCollapse,
    after: &SectionCollapse,
    section: ChangesSection,
    other: ChangesSection,
    was: bool,
    is: bool,
)
    requires
        *first == *before,
        call_ensures(SectionCollapse::toggle, (first, section), ()),
        *after == *final(first),
        call_ensures(SectionCollapse::is_open, (before, other), was),
        call_ensures(SectionCollapse::is_open, (after, other), is),
    ensures
        other == section ==> is != was,
        other != section ==> is == was,
{
}

/// A scope that was read gives its value, one that failed its reason, and one
/// that is not read yet neither.
pub proof fn law_scopes_that_load<T>(
    scope: &ScopeLoad<T>,
    value: Option<&T>,
    message: Option<&str>,
)
    requires
        call_ensures(ScopeLoad::<T>::loaded, (scope,), value),
        call_ensures(ScopeLoad::<T>::error, (scope,), message),
    ensures
        *scope is Loading ==> value is None && message is None,
        *scope matches ScopeLoad::Loaded(inner) ==> (value matches Some(told) && *told == inner)
            && message is None,
        *scope matches ScopeLoad::Error(reason) ==> value is None && (message matches Some(told)
            && told@ == reason@),
{
}

/// A sidebar starts with its files shown and with nothing selected, typed, cut
/// or to be taken back, and its Changes panel is of the same worktree.
pub proof fn law_sidebar_at_first(
    fold: crate::fold::TreeFold,
    backup_root: FilePath,
    sidebar: Sidebar,
    path: PathView,
)
    requires
        call_ensures(Sidebar::new, (fold, backup_root), sidebar),
    ensures
        sidebar.view is Files,
        sidebar.tree.fold == fold,
        !crate::laws::selection::is_selected(sidebar.selection, path),
        sidebar.clipboard is None,
        sidebar.inline_edit is None,
        sidebar.context_menu is None,
        sidebar.op_error is None,
        sidebar.history.undo_stack@.len() == 0,
        sidebar.history.redo_stack@.len() == 0,
        sidebar.docs.open_files@.len() == 0,
        sidebar.changes.diff_root@ == fold.root@,
        sidebar.changes.op_in_flight is None,
        !sidebar.changes.staged_files@.contains(path),
{
    assert(sidebar.history.undos().len() == sidebar.history.undo_stack@.len());
    assert(sidebar.history.redos().len() == sidebar.history.redo_stack@.len());
    assert(!sidebar.selection.selected().contains(path));
}

} // verus!
