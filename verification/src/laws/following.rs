use vstd::prelude::*;

use crate::documents::Documents;
use crate::laws::folding::{lemma_starts_with, starts_with};
use crate::path::{all_names, from_root, moved, text_moved, FilePath, PathText, PathView};
use crate::path_set::{given, members_moved, members_outside};
use crate::state::{RightSidebarView, Sidebar, ViewEffects};

verus! {

/// Whether `there` is where `path` lies after what lay at `from` came to lie at
/// `to`: what started with `from` goes on from `to` by the same names, and
/// everything else stays.
pub open spec fn follows(there: PathView, path: PathView, from: PathView, to: PathView) -> bool {
    if starts_with(path, from) {
        all_names(path.skip(from.len() as int)) ==> there == to + path.skip(from.len() as int)
    } else {
        there == path
    }
}

pub(crate) proof fn lemma_follows(path: PathView, from: PathView, to: PathView)
    ensures
        follows(moved(path, from, to), path, from, to),
{
    lemma_starts_with(path, from);
    let rest = path.skip(from.len() as int);
    if starts_with(path, from) && all_names(rest) {
        crate::laws::lemma_join_names(to, rest);
        if path == from {
            assert(to + rest =~= to);
        }
    }
}

pub(crate) proof fn lemma_text_follows(path: PathText, from: PathView, to: PathText)
    ensures
        follows(
            crate::path::components(text_moved(path, from, to)),
            crate::path::components(path),
            from,
            crate::path::components(to),
        ),
        !starts_with(crate::path::components(path), from) ==> text_moved(path, from, to) == path,
{
    lemma_starts_with(crate::path::components(path), from);
    crate::path::lemma_text_moved(path, from, to);
    lemma_follows(crate::path::components(path), from, crate::path::components(to));
}

pub(crate) proof fn lemma_relative(path: FilePath, root: PathView, rest: PathView)
    requires
        path@ == root + rest,
    ensures
        from_root(path@, root) == rest,
        crate::path::components(crate::path::text_from_root(path.text(), root)) == rest,
{
    assert((root + rest).take(root.len() as int) =~= root);
    assert((root + rest).skip(root.len() as int) =~= rest);
    crate::path::lemma_from_root(path.text(), root);
}

/// Whether each of `after` is one of `before` that followed a rename, and each
/// of `before` has its follower in `after`.
pub open spec fn set_follows(
    after: Set<PathView>,
    before: Set<PathView>,
    from: PathView,
    to: PathView,
) -> bool {
    &&& forall|path: PathView| #[trigger]
        before.contains(path) ==> exists|there: PathView| #[trigger]
            after.contains(there) && follows(there, path, from, to)
    &&& forall|there: PathView| #[trigger]
        after.contains(there) ==> exists|path: PathView| #[trigger]
            before.contains(path) && follows(there, path, from, to)
}

pub(crate) proof fn lemma_set_follows(set: Set<PathView>, from: PathView, to: PathView)
    ensures
        set_follows(members_moved(set, from, to), set, from, to),
{
    let after = members_moved(set, from, to);
    let there = |path: PathView| moved(path, from, to);
    assert forall|path: PathView| #[trigger] set.contains(path) implies exists|t: PathView|
        #[trigger] after.contains(t) && follows(t, path, from, to) by {
        lemma_follows(path, from, to);
        assert(after.contains(there(path)));
    }
    assert forall|t: PathView| #[trigger] after.contains(t) implies exists|path: PathView|
        #[trigger] set.contains(path) && follows(t, path, from, to) by {
        let path = choose|path: PathView| set.contains(path) && t == there(path);
        lemma_follows(path, from, to);
        assert(set.contains(path));
    }
}

/// Whether `after` holds what `before` does and does not start with `base`.
pub open spec fn set_without(after: Set<PathView>, before: Set<PathView>, base: PathView) -> bool {
    forall|path: PathView| #[trigger]
        after.contains(path) <==> before.contains(path) && !starts_with(path, base)
}

pub(crate) proof fn lemma_set_without(set: Set<PathView>, base: PathView)
    ensures
        set_without(members_outside(set, base), set, base),
{
    assert forall|path: PathView| #[trigger]
        members_outside(set, base).contains(path) <==> set.contains(path) && !starts_with(
            path,
            base,
        ) by {
        lemma_starts_with(path, base);
    }
}

/// Whether `after` holds the rows of `before` whose keys do not start with
/// `base`, as they were.
pub open spec fn rows_without<V>(
    after: Map<PathView, V>,
    before: Map<PathView, V>,
    base: PathView,
) -> bool {
    &&& forall|path: PathView| #[trigger]
        after.contains_key(path) <==> before.contains_key(path) && !starts_with(path, base)
    &&& forall|path: PathView| #[trigger]
        after.contains_key(path) ==> after[path] == before[path]
}

proof fn lemma_rows_without<V>(rows: Map<PathView, V>, base: PathView)
    ensures
        rows_without(crate::table::rows_outside(rows, base), rows, base),
{
    assert forall|path: PathView| #[trigger]
        crate::table::rows_outside(rows, base).contains_key(path) <==> rows.contains_key(path)
            && !starts_with(path, base) by {
        lemma_starts_with(path, base);
    }
}

/// Whether the tabs, the open file and the staged files of `after` are those of
/// `before` that followed a rename: each tab is in its place, under the path
/// that its file has now.
pub open spec fn tabs_follow(
    before: Sidebar,
    after: Sidebar,
    from: PathView,
    to: PathView,
) -> bool {
    &&& after.docs.open_files@.len() == before.docs.open_files@.len()
    &&& forall|i: int|
        0 <= i < before.docs.open_files@.len() ==> follows(
            (#[trigger] after.docs.open_files@[i])@,
            before.docs.open_files@[i]@,
            from,
            to,
        )
    &&& match (before.changes.open_change, after.changes.open_change) {
        (Some(open), Some(there)) => follows(there@, open@, from, to),
        (None, None) => true,
        _ => false,
    }
    &&& set_follows(after.changes.staged_files@, before.changes.staged_files@, from, to)
}

pub(crate) proof fn lemma_tabs_follow(
    before: Sidebar,
    after: Sidebar,
    old_path: FilePath,
    new_path: FilePath,
    persist: bool,
    from: PathView,
    to: PathView,
)
    requires
        before.renamed(after, old_path@, new_path.text(), persist),
        old_path@ == before.tree.fold.root@ + from,
        new_path@ == before.tree.fold.root@ + to,
    ensures
        tabs_follow(before, after, from, to),
{
    let root = before.tree.fold.root@;
    lemma_relative(old_path, root, from);
    lemma_relative(new_path, root, to);
    let target = crate::path::text_from_root(new_path.text(), root);
    let tabs = given(before.docs.open_files@);
    let there = given(after.docs.open_files@);
    assert(tabs.len() == before.docs.open_files@.len());
    assert(there.len() == after.docs.open_files@.len());
    assert forall|i: int| 0 <= i < before.docs.open_files@.len() implies follows(
        (#[trigger] after.docs.open_files@[i])@,
        before.docs.open_files@[i]@,
        from,
        to,
    ) by {
        assert(there[i] == after.docs.open_files@[i].text());
        assert(tabs[i] == before.docs.open_files@[i].text());
        lemma_text_follows(tabs[i], from, target);
    }
    if let Some(open) = before.changes.open_change {
        lemma_text_follows(open.text(), from, target);
    }
    lemma_set_follows(before.changes.staged_files@, from, to);
}

/// After a rename inside the worktree every tab is that of the same file: it
/// is in its place among the tabs, under the path that the file has now. The
/// open file and the staged files follow as well.
pub proof fn law_tabs_follow_a_rename(
    sidebar: &mut Sidebar,
    old_path: &FilePath,
    new_path: &FilePath,
    persist: bool,
    from: PathView,
    to: PathView,
)
    requires
        call_ensures(Sidebar::rename_open_paths, (sidebar, old_path, new_path), persist),
        old_path@ == old(sidebar).tree.fold.root@ + from,
        new_path@ == old(sidebar).tree.fold.root@ + to,
    ensures
        tabs_follow(*old(sidebar), *final(sidebar), from, to),
{
    lemma_tabs_follow(*old(sidebar), *final(sidebar), *old_path, *new_path, persist, from, to);
}

/// After a rename the selected rows, the entry on the clipboard and the
/// expanded directories are the same entries at their new paths.
pub proof fn law_rows_follow_a_rename(
    sidebar: &mut Sidebar,
    old_path: &FilePath,
    new_path: &FilePath,
    persist: bool,
)
    requires
        call_ensures(Sidebar::rename_open_paths, (sidebar, old_path, new_path), persist),
    ensures
        final(sidebar).selection.anchor is Some == old(sidebar).selection.anchor is Some,
        old(sidebar).selection.anchor matches Some(anchor) ==> follows(
            final(sidebar).selection.anchor->0@,
            anchor@,
            old_path@,
            new_path@,
        ),
        set_follows(
            final(sidebar).selection.additional@,
            old(sidebar).selection.additional@,
            old_path@,
            new_path@,
        ),
        final(sidebar).clipboard is Some == old(sidebar).clipboard is Some,
        old(sidebar).clipboard matches Some(entry) ==> final(sidebar).clipboard->0.mode
            == entry.mode && follows(
            final(sidebar).clipboard->0.path@,
            entry.path@,
            old_path@,
            new_path@,
        ),
        set_follows(
            final(sidebar).tree.fold.expanded@,
            old(sidebar).tree.fold.expanded@,
            old_path@,
            new_path@,
        ),
        final(sidebar).tree.entries == old(sidebar).tree.entries,
        final(sidebar).history == old(sidebar).history,
        final(sidebar).changes.seen_files == old(sidebar).changes.seen_files,
        final(sidebar).changes.commit_message == old(sidebar).changes.commit_message,
{
    if let Some(anchor) = old(sidebar).selection.anchor {
        lemma_text_follows(anchor.text(), old_path@, new_path.text());
    }
    if let Some(entry) = old(sidebar).clipboard {
        lemma_text_follows(entry.path.text(), old_path@, new_path.text());
    }
    lemma_set_follows(old(sidebar).selection.additional@, old_path@, new_path@);
    lemma_set_follows(old(sidebar).tree.fold.expanded@, old_path@, new_path@);
}

/// After a rename inside the worktree every buffer of it is there, under the
/// path that its file has now, with its text, and saving it writes there; the
/// buffers of other worktrees are as they were.
pub proof fn law_buffers_follow_a_rename(
    sidebar: &mut Sidebar,
    old_path: &FilePath,
    new_path: &FilePath,
    persist: bool,
    from: PathView,
    to: PathView,
    key: (PathView, PathView),
)
    requires
        call_ensures(Sidebar::rename_open_paths, (sidebar, old_path, new_path), persist),
        old_path@ == old(sidebar).tree.fold.root@ + from,
        new_path@ == old(sidebar).tree.fold.root@ + to,
    ensures
        old(sidebar).docs.edit_buffers@.contains_key(key) ==> exists|there: PathView|
            #[trigger] final(sidebar).docs.edit_buffers@.contains_key((key.0, there)) && (if key.0
                == old(sidebar).tree.fold.root@ {
                follows(there, key.1, from, to)
            } else {
                there == key.1
            }),
        final(sidebar).docs.edit_buffers@.contains_key(key) ==> exists|start: PathView|
            {
                &&& #[trigger] old(sidebar).docs.edit_buffers@.contains_key((key.0, start))
                &&& final(sidebar).docs.edit_buffers@[key].text@
                    == old(sidebar).docs.edit_buffers@[(key.0, start)].text@
                &&& if key.0 == old(sidebar).tree.fold.root@ {
                    follows(key.1, start, from, to) && follows(
                        final(sidebar).docs.edit_buffers@[key].path@,
                        old(sidebar).docs.edit_buffers@[(key.0, start)].path@,
                        old_path@,
                        new_path@,
                    )
                } else {
                    key.1 == start && final(sidebar).docs.edit_buffers@[key].path.text()
                        == old(sidebar).docs.edit_buffers@[(key.0, start)].path.text()
                }
            },
{
    let root = old(sidebar).tree.fold.root@;
    lemma_relative(*old_path, root, from);
    lemma_relative(*new_path, root, to);
    let rename = crate::documents::rename_in(root, old_path@, new_path.text());
    let before = old(sidebar).docs.edit_buffers@;
    let after = final(sidebar).docs.edit_buffers@;
    if before.contains_key(key) {
        let there = crate::documents::key_moved(key, rename);
        lemma_follows(key.1, from, to);
        assert(after.contains_key((key.0, there.1)));
    }
    if after.contains_key(key) {
        let start = choose|k: (PathView, PathView)| #[trigger]
            before.contains_key(k) && crate::documents::key_moved(k, rename) == key && after[key]@
                == crate::documents::buffer_moved(k, before[k]@, rename);
        assert(start.0 == key.0);
        lemma_follows(start.1, from, to);
        lemma_text_follows(before[start].path.text(), old_path@, new_path.text());
        assert(before.contains_key((key.0, start.1)));
    }
}

/// Work that was on its way for a path that is no more is dropped by a rename,
/// and what the language server was told of it; what waits to be saved
/// follows. Nothing else is touched.
pub proof fn law_running_work_is_dropped_by_a_rename(
    sidebar: &mut Sidebar,
    old_path: &FilePath,
    new_path: &FilePath,
    persist: bool,
    from: PathView,
    to: PathView,
)
    requires
        call_ensures(Sidebar::rename_open_paths, (sidebar, old_path, new_path), persist),
        old_path@ == old(sidebar).tree.fold.root@ + from,
        new_path@ == old(sidebar).tree.fold.root@ + to,
    ensures
        ({
            let before = old(sidebar).docs;
            let after = final(sidebar).docs;
            &&& set_without(after.save_running@, before.save_running@, from)
            &&& set_without(after.save_tasks@, before.save_tasks@, from)
            &&& set_without(after.rehighlight_tasks@, before.rehighlight_tasks@, from)
            &&& set_without(after.lsp_sync_tasks@, before.lsp_sync_tasks@, from)
            &&& set_follows(after.save_pending@, before.save_pending@, from, to)
            &&& set_follows(after.external_conflict@, before.external_conflict@, from, to)
            &&& set_without(after.lsp_opened_files@, before.lsp_opened_files@, old_path@)
            &&& rows_without(
                after.lsp_document_versions@,
                before.lsp_document_versions@,
                old_path@,
            )
            &&& rows_without(after.lsp_uri_cache@, before.lsp_uri_cache@, old_path@)
            &&& rows_without(
                after.lsp_last_synced_content@,
                before.lsp_last_synced_content@,
                from,
            )
            &&& rows_without(after.lsp_synced_version@, before.lsp_synced_version@, from)
            &&& rows_without(
                after.lsp_diagnostics_confirmed_version@,
                before.lsp_diagnostics_confirmed_version@,
                from,
            )
            &&& match (before.save_error, after.save_error) {
                (Some((path, message)), Some((there, same))) => message@ == same@ && follows(
                    there@,
                    path@,
                    from,
                    to,
                ),
                (None, None) => true,
                _ => false,
            }
            &&& !after.caches.file_view && !after.caches.diff_highlight && !after.caches.row_layout
                && !after.caches.hover && !after.caches.completions && !after.caches.file_load
                && !after.caches.freshness_check && !after.caches.last_layout
                && !after.caches.last_bounds && !after.caches.last_layout_for
                && !after.caches.pending_cursor_line
        }),
{
    let root = old(sidebar).tree.fold.root@;
    lemma_relative(*old_path, root, from);
    lemma_relative(*new_path, root, to);
    let before = old(sidebar).docs;
    lemma_set_without(before.save_running@, from);
    lemma_set_without(before.save_tasks@, from);
    lemma_set_without(before.rehighlight_tasks@, from);
    lemma_set_without(before.lsp_sync_tasks@, from);
    lemma_set_follows(before.save_pending@, from, to);
    lemma_set_follows(before.external_conflict@, from, to);
    lemma_lsp(before, old_path@, from);
    if let Some((path, message)) = before.save_error {
        lemma_text_follows(
            path.text(),
            from,
            crate::path::text_from_root(new_path.text(), root),
        );
    }
}

proof fn lemma_lsp(docs: Documents, whole: PathView, relative: PathView)
    ensures
        set_without(
            members_outside(docs.lsp_opened_files@, whole),
            docs.lsp_opened_files@,
            whole,
        ),
        rows_without(
            crate::table::rows_outside(docs.lsp_document_versions@, whole),
            docs.lsp_document_versions@,
            whole,
        ),
        rows_without(
            crate::table::rows_outside(docs.lsp_uri_cache@, whole),
            docs.lsp_uri_cache@,
            whole,
        ),
        rows_without(
            crate::table::rows_outside(docs.lsp_last_synced_content@, relative),
            docs.lsp_last_synced_content@,
            relative,
        ),
        rows_without(
            crate::table::rows_outside(docs.lsp_synced_version@, relative),
            docs.lsp_synced_version@,
            relative,
        ),
        rows_without(
            crate::table::rows_outside(docs.lsp_diagnostics_confirmed_version@, relative),
            docs.lsp_diagnostics_confirmed_version@,
            relative,
        ),
{
    lemma_set_without(docs.lsp_opened_files@, whole);
    lemma_rows_without(docs.lsp_document_versions@, whole);
    lemma_rows_without(docs.lsp_uri_cache@, whole);
    lemma_rows_without(docs.lsp_last_synced_content@, relative);
    lemma_rows_without(docs.lsp_synced_version@, relative);
    lemma_rows_without(docs.lsp_diagnostics_confirmed_version@, relative);
}

/// After a deletion inside the worktree the tabs are those that lay elsewhere,
/// in their order; the open file, where it was deleted, is the first tab that
/// is left, and is as it was otherwise.
pub proof fn law_tabs_after_a_deletion(
    sidebar: &mut Sidebar,
    deleted: &FilePath,
    persist: bool,
    gone: PathView,
) -> (at: Seq<int>)
    requires
        call_ensures(Sidebar::forget_deleted_paths, (sidebar, deleted), persist),
        deleted@ == old(sidebar).tree.fold.root@ + gone,
    ensures
        crate::laws::picks(
            at,
            old(sidebar).docs.open_files@.len() as int,
            |i: int| !starts_with(old(sidebar).docs.open_files@[i]@, gone),
        ),
        at.len() == final(sidebar).docs.open_files@.len(),
        forall|k: int|
            0 <= k < at.len() ==> final(sidebar).docs.open_files@[k].text()
                == old(sidebar).docs.open_files@[#[trigger] at[k]].text(),
        old(sidebar).changes.open_change is None ==> final(sidebar).changes.open_change is None,
        old(sidebar).changes.open_change matches Some(open) ==> {
            &&& !starts_with(open@, gone) ==> crate::laws::is_at(
                final(sidebar).changes.open_change,
                open.text(),
            )
            &&& starts_with(open@, gone) && final(sidebar).docs.open_files@.len() > 0
                ==> crate::laws::is_at(
                final(sidebar).changes.open_change,
                final(sidebar).docs.open_files@[0].text(),
            )
            &&& starts_with(open@, gone) && final(sidebar).docs.open_files@.len() == 0
                ==> final(sidebar).changes.open_change is None
        },
        set_without(
            final(sidebar).changes.staged_files@,
            old(sidebar).changes.staged_files@,
            gone,
        ),
{
    let root = old(sidebar).tree.fold.root@;
    lemma_relative(*deleted, root, gone);
    let before = old(sidebar).docs.open_files@;
    let after = final(sidebar).docs.open_files@;
    let at = lemma_tabs_left(before, gone);
    assert(given(after).len() == after.len());
    assert forall|k: int| 0 <= k < at.len() implies after[k].text() == before[
        #[trigger] at[k]
    ].text() by {
        assert(given(after)[k] == after[k].text());
    }
    if after.len() > 0 {
        assert(given(after)[0] == after[0].text());
    }
    if let Some(open) = old(sidebar).changes.open_change {
        lemma_starts_with(open@, gone);
    }
    lemma_set_without(old(sidebar).changes.staged_files@, gone);
    at
}

pub(crate) proof fn lemma_tabs_left(paths: Seq<FilePath>, base: PathView) -> (at: Seq<int>)
    ensures
        crate::laws::picks(at, paths.len() as int, |i: int| !starts_with(paths[i]@, base)),
        at.len() == crate::documents::paths_outside(given(paths), base).len(),
        forall|k: int|
            0 <= k < at.len() ==> crate::documents::paths_outside(given(paths), base)[k] == paths[
                #[trigger] at[k]
            ].text(),
    decreases paths.len(),
{
    reveal(Seq::filter);
    let all = given(paths);
    assert(all.len() == paths.len());
    if paths.len() == 0 {
        assert(crate::documents::paths_outside(all, base) =~= seq![]);
        seq![]
    } else {
        let rest = paths.drop_last();
        let before = lemma_tabs_left(rest, base);
        assert(all.drop_last() =~= given(rest));
        assert(all.last() == paths.last().text());
        lemma_starts_with(paths.last()@, base);
        crate::laws::lemma_picks(
            before,
            paths.len() - 1,
            |i: int| !starts_with(rest[i]@, base),
            |i: int| !starts_with(paths[i]@, base),
        )
    }
}

/// A deletion takes away what was kept of the deleted path and of what lay
/// below it, in every table, and nothing else.
pub proof fn law_everything_of_the_deleted_goes(
    sidebar: &mut Sidebar,
    deleted: &FilePath,
    persist: bool,
    gone: PathView,
    key: (PathView, PathView),
)
    requires
        call_ensures(Sidebar::forget_deleted_paths, (sidebar, deleted), persist),
        deleted@ == old(sidebar).tree.fold.root@ + gone,
    ensures
        ({
            let before = old(sidebar).docs;
            let after = final(sidebar).docs;
            &&& after.edit_buffers@.contains_key(key) <==> before.edit_buffers@.contains_key(key)
                && !(key.0 == old(sidebar).tree.fold.root@ && starts_with(key.1, gone))
            &&& after.edit_buffers@.contains_key(key) ==> after.edit_buffers@[key]
                == before.edit_buffers@[key]
            &&& set_without(after.external_conflict@, before.external_conflict@, gone)
            &&& set_without(after.save_pending@, before.save_pending@, gone)
            &&& set_without(after.save_running@, before.save_running@, gone)
            &&& set_without(after.save_tasks@, before.save_tasks@, gone)
            &&& set_without(after.rehighlight_tasks@, before.rehighlight_tasks@, gone)
            &&& set_without(after.lsp_sync_tasks@, before.lsp_sync_tasks@, gone)
            &&& set_without(after.lsp_opened_files@, before.lsp_opened_files@, deleted@)
            &&& rows_without(after.lsp_document_versions@, before.lsp_document_versions@, deleted@)
            &&& rows_without(after.lsp_uri_cache@, before.lsp_uri_cache@, deleted@)
            &&& rows_without(
                after.lsp_last_synced_content@,
                before.lsp_last_synced_content@,
                gone,
            )
            &&& rows_without(after.lsp_synced_version@, before.lsp_synced_version@, gone)
            &&& rows_without(
                after.lsp_diagnostics_confirmed_version@,
                before.lsp_diagnostics_confirmed_version@,
                gone,
            )
            &&& match before.save_error {
                Some((path, _)) => if starts_with(path@, gone) {
                    after.save_error is None
                } else {
                    after.save_error == before.save_error
                },
                None => after.save_error is None,
            }
        }),
{
    let root = old(sidebar).tree.fold.root@;
    lemma_relative(*deleted, root, gone);
    let before = old(sidebar).docs;
    lemma_set_without(before.external_conflict@, gone);
    lemma_set_without(before.save_pending@, gone);
    lemma_set_without(before.save_running@, gone);
    lemma_set_without(before.save_tasks@, gone);
    lemma_set_without(before.rehighlight_tasks@, gone);
    lemma_set_without(before.lsp_sync_tasks@, gone);
    lemma_lsp(before, deleted@, gone);
    lemma_starts_with(key.1, gone);
    if let Some((path, message)) = before.save_error {
        lemma_starts_with(path@, gone);
    }
}

/// A deletion takes the deleted path and what lay below it out of the
/// selection, off the clipboard and out of what is expanded, and leaves every
/// other path there.
pub proof fn law_rows_after_a_deletion(sidebar: &mut Sidebar, deleted: &FilePath, persist: bool)
    requires
        call_ensures(Sidebar::forget_deleted_paths, (sidebar, deleted), persist),
    ensures
        old(sidebar).selection.anchor matches Some(anchor) ==> (if starts_with(
            anchor@,
            deleted@,
        ) {
            final(sidebar).selection.anchor is None
        } else {
            crate::laws::is_at(final(sidebar).selection.anchor, anchor.text())
        }),
        set_without(
            final(sidebar).selection.additional@,
            old(sidebar).selection.additional@,
            deleted@,
        ),
        old(sidebar).clipboard matches Some(entry) ==> (if starts_with(entry.path@, deleted@) {
            final(sidebar).clipboard is None
        } else {
            final(sidebar).clipboard matches Some(kept) && kept.path.text() == entry.path.text()
                && kept.mode == entry.mode
        }),
        set_without(
            final(sidebar).tree.fold.expanded@,
            old(sidebar).tree.fold.expanded@,
            deleted@,
        ),
        final(sidebar).tree.entries == old(sidebar).tree.entries,
        final(sidebar).history == old(sidebar).history,
        final(sidebar).changes.commit_message == old(sidebar).changes.commit_message,
{
    if let Some(anchor) = old(sidebar).selection.anchor {
        lemma_starts_with(anchor@, deleted@);
    }
    if let Some(entry) = old(sidebar).clipboard {
        lemma_starts_with(entry.path@, deleted@);
    }
    lemma_set_without(old(sidebar).selection.additional@, deleted@);
    lemma_set_without(old(sidebar).tree.fold.expanded@, deleted@);
}

/// Showing a view shows it. What only Files draws is closed when another is
/// shown, what only Changes draws as well, and everything else stays; the
/// focus moves where the field that had it is no longer drawn.
pub proof fn law_view_is_shown(
    sidebar: &mut Sidebar,
    view: RightSidebarView,
    tree_focused: bool,
    search_focused: bool,
    effects: ViewEffects,
)
    requires
        call_ensures(
            Sidebar::set_right_sidebar_view,
            (sidebar, view, tree_focused, search_focused),
            effects,
        ),
    ensures
        final(sidebar).view == view,
        view is Files ==> final(sidebar).context_menu == old(sidebar).context_menu
            && final(sidebar).inline_edit == old(sidebar).inline_edit,
        !(view is Files) ==> final(sidebar).context_menu is None
            && final(sidebar).inline_edit is None,
        !(view is Changes) ==> !final(sidebar).changes.commit_menu_open,
        view is Changes ==> final(sidebar).changes == old(sidebar).changes && effects.refresh_diff,
        !(view is Changes) ==> !effects.refresh_diff,
        effects.restore_focus == (tree_focused && !(view is Files) || search_focused && !(
        view is Search)),
        effects.forget_tree_focus == !(view is Files),
        effects.forget_search_focus == !(view is Search),
        final(sidebar).tree == old(sidebar).tree,
        final(sidebar).selection == old(sidebar).selection,
        final(sidebar).docs == old(sidebar).docs,
        final(sidebar).changes.staged_files == old(sidebar).changes.staged_files,
        final(sidebar).changes.commit_message == old(sidebar).changes.commit_message,
{
}

} // verus!
