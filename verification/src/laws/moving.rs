use vstd::prelude::*;

use crate::history::{backup_views, collect_backups, Backup, TreeUndoEntry};
use crate::inline_edit::FolderOutcome;
use crate::laws::folding::{lemma_lies_between, lies_between};
use crate::laws::following::{lemma_tabs_follow, tabs_follow};
use crate::moves::{CopyRequest, DropRun, MoveRequest, OperationOutcome};
use crate::path::{components, FilePath, PathText, PathView};
use crate::state::{Sidebar, TreeEffects};
use crate::undo::DeleteTicket;

verus! {

/// Whether every directory between the root and `path` is expanded.
pub open spec fn shows_in(sidebar: Sidebar, path: PathView) -> bool {
    forall|dir: PathView| #[trigger]
        lies_between(dir, sidebar.tree.fold.root@, path)
            ==> sidebar.tree.fold.expanded@.contains(dir)
}

proof fn lemma_shown(before: Sidebar, after: Sidebar, path: PathText, persist: bool)
    requires
        before.shown_at(after, path, persist),
    ensures
        shows_in(after, components(path)),
        forall|dir: PathView|
            before.tree.fold.expanded@.contains(dir)
                ==> #[trigger] after.tree.fold.expanded@.contains(dir),
{
    let there = components(path);
    let root = before.tree.fold.root@;
    assert forall|dir: PathView| #[trigger] lies_between(
        dir,
        after.tree.fold.root@,
        there,
    ) implies after.tree.fold.expanded@.contains(dir) by {
        lemma_lies_between(dir, root, there);
    }
}

/// Whether `dropped` are the same copies as `copies`, in their order.
pub open spec fn are_copies(dropped: Seq<Backup>, copies: Seq<Backup>) -> bool {
    &&& dropped.len() == copies.len()
    &&& forall|k: int|
        0 <= k < dropped.len() ==> (#[trigger] dropped[k]).path.text() == copies[k].path.text()
            && dropped[k].is_dir == copies[k].is_dir
}

proof fn lemma_copies(dropped: Seq<Backup>, copies: Seq<Backup>)
    requires
        backup_views(dropped) == backup_views(copies),
    ensures
        are_copies(dropped, copies),
{
    assert(backup_views(dropped).len() == dropped.len());
    assert(backup_views(copies).len() == copies.len());
    assert forall|k: int| 0 <= k < dropped.len() implies (#[trigger] dropped[k]).path.text()
        == copies[k].path.text() && dropped[k].is_dir == copies[k].is_dir by {
        assert(backup_views(dropped)[k] == (dropped[k].path.text(), dropped[k].is_dir));
        assert(backup_views(copies)[k] == (copies[k].path.text(), copies[k].is_dir));
    }
}

/// After an entry got a new name its tabs are those of the same files, and the
/// copies that only what could be done again needed are handed back.
pub proof fn law_tabs_after_a_new_name(
    sidebar: &mut Sidebar,
    request: MoveRequest,
    done: OperationOutcome,
    from: PathView,
    to: PathView,
    copies: Vec<Backup>,
)
    requires
        call_ensures(Sidebar::finish_rename, (sidebar, request, Ok(())), done),
        request.source@ == old(sidebar).tree.fold.root@ + from,
        request.destination@ == old(sidebar).tree.fold.root@ + to,
        call_ensures(collect_backups, (&sidebar.history.redo_stack,), copies),
    ensures
        tabs_follow(*old(sidebar), *final(sidebar), from, to),
        are_copies(done.dropped@, copies@),
{
    let start = old(sidebar).without_editor();
    let middle = Sidebar { history: start.history, ..*final(sidebar) };
    let persist = done.effects.persist;
    lemma_tabs_follow(start, middle, request.source, request.destination, persist, from, to);
    lemma_copies(done.dropped@, copies@);
}

/// After what was cut was moved its tabs are those of the same files, its row
/// shows, and the copies that only what could be done again needed are handed
/// back.
pub proof fn law_tabs_after_a_paste(
    sidebar: &mut Sidebar,
    request: MoveRequest,
    done: OperationOutcome,
    from: PathView,
    to: PathView,
    copies: Vec<Backup>,
)
    requires
        call_ensures(Sidebar::finish_paste_move, (sidebar, request, Ok(())), done),
        request.source@ == old(sidebar).tree.fold.root@ + from,
        request.destination@ == old(sidebar).tree.fold.root@ + to,
        call_ensures(collect_backups, (&sidebar.history.redo_stack,), copies),
    ensures
        tabs_follow(*old(sidebar), *final(sidebar), from, to),
        shows_in(*final(sidebar), request.destination@),
        are_copies(done.dropped@, copies@),
{
    let (middle, first, second) = choose|middle: Sidebar, first: bool, second: bool|
        {
            &&& #[trigger] old(sidebar).relocated(
                middle,
                request.source.text(),
                request.destination.text(),
                first,
                done.dropped@,
            )
            &&& #[trigger] middle.without_clipboard().shown_at(
                *final(sidebar),
                request.destination.text(),
                second,
            )
            &&& done.effects.persist == (first || second)
        };
    let renamed = Sidebar { history: old(sidebar).history, ..middle };
    lemma_tabs_follow(
        *old(sidebar),
        renamed,
        request.source,
        request.destination,
        first,
        from,
        to,
    );
    assert(tabs_follow(*old(sidebar), *final(sidebar), from, to));
    lemma_shown(
        middle.without_clipboard(),
        *final(sidebar),
        request.destination.text(),
        second,
    );
    lemma_copies(done.dropped@, copies@);
}

/// After an entry was moved by a drop its tabs are those of the same files.
pub proof fn law_tabs_after_a_drop(
    sidebar: &mut Sidebar,
    run: &mut DropRun,
    request: MoveRequest,
    done: OperationOutcome,
    from: PathView,
    to: PathView,
    copies: Vec<Backup>,
)
    requires
        call_ensures(Sidebar::finish_drop, (sidebar, run, request, Ok(())), done),
        request.source@ == old(sidebar).tree.fold.root@ + from,
        request.destination@ == old(sidebar).tree.fold.root@ + to,
        call_ensures(collect_backups, (&sidebar.history.redo_stack,), copies),
    ensures
        tabs_follow(*old(sidebar), *final(sidebar), from, to),
        are_copies(done.dropped@, copies@),
        final(sidebar).history.redo_stack@.len() == 0,
{
    let renamed = Sidebar { history: old(sidebar).history, ..*final(sidebar) };
    lemma_tabs_follow(
        *old(sidebar),
        renamed,
        request.source,
        request.destination,
        done.effects.persist,
        from,
        to,
    );
    assert(tabs_follow(*old(sidebar), *final(sidebar), from, to));
    lemma_copies(done.dropped@, copies@);
    assert(final(sidebar).history.redos().len() == final(sidebar).history.redo_stack@.len());
}

/// The row of the entry that was dropped last shows.
pub proof fn law_dropped_row_shows(
    sidebar: &mut Sidebar,
    run: DropRun,
    effects: TreeEffects,
    last: FilePath,
)
    requires
        call_ensures(Sidebar::finish_drops, (sidebar, run), effects),
        run.last == Some(last),
    ensures
        shows_in(*final(sidebar), last@),
{
    let there = Sidebar {
        selection: crate::selection::TreeSelection {
            additional: old(sidebar).selection.additional,
            ..final(sidebar).selection
        },
        ..*final(sidebar)
    };
    lemma_shown(*old(sidebar), there, last.text(), effects.persist);
    assert(shows_in(there, last@));
    assert forall|dir: PathView| #[trigger] lies_between(
        dir,
        final(sidebar).tree.fold.root@,
        last@,
    ) implies final(sidebar).tree.fold.expanded@.contains(dir) by {
        assert(lies_between(dir, there.tree.fold.root@, last@));
    }
}

/// The row of a copy that was made shows.
pub proof fn law_copied_row_shows(sidebar: &mut Sidebar, request: CopyRequest, effects: TreeEffects)
    requires
        call_ensures(Sidebar::finish_copy, (sidebar, request, Ok(())), effects),
    ensures
        shows_in(*final(sidebar), request.destination@),
{
    lemma_shown(*old(sidebar), *final(sidebar), request.destination.text(), effects.persist);
}

/// The row of a folder that was made shows.
pub proof fn law_new_folder_shows(
    sidebar: &mut Sidebar,
    destination: &FilePath,
    name: &str,
    effects: TreeEffects,
)
    requires
        call_ensures(
            Sidebar::finish_new_folder,
            (sidebar, destination, name, FolderOutcome::Created),
            effects,
        ),
    ensures
        shows_in(*final(sidebar), destination@),
{
    lemma_shown(
        old(sidebar).without_editor(),
        *final(sidebar),
        destination.text(),
        effects.persist,
    );
}

/// A move that was taken back brings the tabs home: they follow from where the
/// entry went to where it came from, and its row shows there.
pub proof fn law_tabs_after_taking_back(
    sidebar: &mut Sidebar,
    entry: TreeUndoEntry,
    effects: TreeEffects,
    old_path: FilePath,
    new_path: FilePath,
    from: PathView,
    to: PathView,
)
    requires
        call_ensures(Sidebar::finish_undo, (sidebar, entry, Ok(())), effects),
        entry == (TreeUndoEntry::Relocate { old_path, new_path }),
        new_path@ == old(sidebar).tree.fold.root@ + from,
        old_path@ == old(sidebar).tree.fold.root@ + to,
    ensures
        tabs_follow(*old(sidebar), *final(sidebar), from, to),
        shows_in(*final(sidebar), old_path@),
{
    let after = Sidebar { history: old(sidebar).history, ..*final(sidebar) };
    assert(old(sidebar).moved_back(after, new_path.text(), old_path.text(), effects.persist));
    lemma_moved_back(*old(sidebar), after, new_path, old_path, effects.persist, from, to);
    lemma_same_but_history(*old(sidebar), after, *final(sidebar), from, to, old_path@);
}

/// A move that was done again takes the tabs along: they follow from where the
/// entry came from to where it goes, and its row shows there.
pub proof fn law_tabs_after_doing_again(
    sidebar: &mut Sidebar,
    entry: TreeUndoEntry,
    effects: TreeEffects,
    old_path: FilePath,
    new_path: FilePath,
    from: PathView,
    to: PathView,
)
    requires
        call_ensures(Sidebar::finish_redo_move, (sidebar, entry, Ok(())), effects),
        entry == (TreeUndoEntry::Relocate { old_path, new_path }),
        old_path@ == old(sidebar).tree.fold.root@ + from,
        new_path@ == old(sidebar).tree.fold.root@ + to,
    ensures
        tabs_follow(*old(sidebar), *final(sidebar), from, to),
        shows_in(*final(sidebar), new_path@),
{
    let after = Sidebar { history: old(sidebar).history, ..*final(sidebar) };
    assert(old(sidebar).moved_back(after, old_path.text(), new_path.text(), effects.persist));
    lemma_moved_back(*old(sidebar), after, old_path, new_path, effects.persist, from, to);
    lemma_same_but_history(*old(sidebar), after, *final(sidebar), from, to, new_path@);
}

/// A deletion that was taken back leaves every tab as it is, and the row of
/// what was put back shows.
pub proof fn law_tabs_after_putting_back(
    sidebar: &mut Sidebar,
    entry: TreeUndoEntry,
    effects: TreeEffects,
    original: FilePath,
)
    requires
        call_ensures(Sidebar::finish_undo, (sidebar, entry, Ok(())), effects),
        entry matches TreeUndoEntry::Delete { original_path, .. } && original_path == original,
    ensures
        final(sidebar).docs == old(sidebar).docs,
        final(sidebar).changes == old(sidebar).changes,
        shows_in(*final(sidebar), original@),
{
    let after = Sidebar { history: old(sidebar).history, ..*final(sidebar) };
    lemma_shown(*old(sidebar), after, original.text(), effects.persist);
    assert forall|dir: PathView| #[trigger] lies_between(
        dir,
        final(sidebar).tree.fold.root@,
        original@,
    ) implies final(sidebar).tree.fold.expanded@.contains(dir) by {
        assert(lies_between(dir, after.tree.fold.root@, original@));
    }
}

proof fn lemma_moved_back(
    before: Sidebar,
    after: Sidebar,
    source: FilePath,
    target: FilePath,
    persist: bool,
    from: PathView,
    to: PathView,
)
    requires
        before.moved_back(after, source.text(), target.text(), persist),
        source@ == before.tree.fold.root@ + from,
        target@ == before.tree.fold.root@ + to,
    ensures
        tabs_follow(before, after, from, to),
        shows_in(after, target@),
{
    let (middle, first, second) = choose|middle: Sidebar, first: bool, second: bool|
        {
            &&& #[trigger] before.renamed(middle, source@, target.text(), first)
            &&& #[trigger] middle.shown_at(after, target.text(), second)
            &&& persist == (first || second)
        };
    lemma_tabs_follow(before, middle, source, target, first, from, to);
    lemma_shown(middle, after, target.text(), second);
}

proof fn lemma_same_but_history(
    before: Sidebar,
    after: Sidebar,
    last: Sidebar,
    from: PathView,
    to: PathView,
    path: PathView,
)
    requires
        after == (Sidebar { history: after.history, ..last }),
        tabs_follow(before, after, from, to),
        shows_in(after, path),
    ensures
        tabs_follow(before, last, from, to),
        shows_in(last, path),
{
    assert forall|dir: PathView| #[trigger] lies_between(
        dir,
        last.tree.fold.root@,
        path,
    ) implies last.tree.fold.expanded@.contains(dir) by {
        assert(lies_between(dir, after.tree.fold.root@, path));
    }
}

/// After a deletion nothing of the deleted path is open any more, and the
/// copies that only what could be done again needed are handed back, where the
/// deletion is a new operation.
pub proof fn law_nothing_of_the_deleted_is_open(
    sidebar: &mut Sidebar,
    ticket: DeleteTicket,
    mechanism: crate::history::DeleteMechanism,
    done: OperationOutcome,
    gone: PathView,
    copies: Vec<Backup>,
)
    requires
        call_ensures(Sidebar::finish_delete, (sidebar, ticket, mechanism, Ok(())), done),
        ticket.path@ == old(sidebar).tree.fold.root@ + gone,
        call_ensures(collect_backups, (&sidebar.history.redo_stack,), copies),
    ensures
        forall|i: int|
            0 <= i < final(sidebar).docs.open_files@.len()
                ==> !crate::laws::folding::starts_with(
                (#[trigger] final(sidebar).docs.open_files@[i])@,
                gone,
            ),
        forall|path: PathView|
            crate::laws::folding::starts_with(path, gone) ==> !(
            #[trigger] final(sidebar).changes.staged_files@.contains(path)),
        forall|path: PathView|
            crate::laws::folding::starts_with(path, ticket.path@) ==> !(
            #[trigger] final(sidebar).tree.fold.expanded@.contains(path)),
        ticket.clear_redo ==> are_copies(done.dropped@, copies@),
        !ticket.clear_redo ==> done.dropped@.len() == 0,
{
    let root = old(sidebar).tree.fold.root@;
    crate::laws::following::lemma_relative(ticket.path, root, gone);
    let before = old(sidebar).docs.open_files@;
    let after = final(sidebar).docs.open_files@;
    let at = crate::laws::following::lemma_tabs_left(before, gone);
    assert(crate::path_set::given(after).len() == after.len());
    let kept = |i: int| !crate::laws::folding::starts_with(before[i]@, gone);
    assert forall|i: int| 0 <= i < after.len() implies !crate::laws::folding::starts_with(
        (#[trigger] after[i])@,
        gone,
    ) by {
        assert(crate::path_set::given(after)[i] == after[i].text());
        assert(kept(at[i]));
    }
    assert forall|path: PathView| crate::laws::folding::starts_with(path, gone) implies !(
    #[trigger] final(sidebar).changes.staged_files@.contains(path)) by {
        crate::laws::folding::lemma_starts_with(path, gone);
    }
    assert forall|path: PathView| crate::laws::folding::starts_with(path, ticket.path@) implies !(
    #[trigger] final(sidebar).tree.fold.expanded@.contains(path)) by {
        crate::laws::folding::lemma_starts_with(path, ticket.path@);
    }
    if ticket.clear_redo {
        lemma_copies(done.dropped@, copies@);
    }
}

} // verus!
