use vstd::prelude::*;
use vstd::string::*;

use crate::history::{
    backup_views, backups_of, collect_backups, lemma_backup_name, Backup, DeleteMechanism,
    TreeHistory, TreeUndoEntry, UndoView,
};
use crate::laws::{is_at, lemma_last_undo, lemma_picks, picks, says};
use crate::moves::OperationOutcome;
use crate::path::{
    all_names, file_name, is_name, is_under, parent, shown, FilePath, PathText, PathView,
};
use crate::path_set::PathSet;
use crate::spelling::chars;
use crate::state::{Sidebar, TreeEffects};
use crate::text::decimal_text;
use crate::undo::{deletable, ticket_views, DeleteStep, DeleteTicket, RedoStep, UndoStep};

verus! {

/// Whether `path` lies plainly below `root`: it goes on from it by one name or
/// more.
pub open spec fn plainly_below(path: PathView, root: PathView) -> bool {
    &&& path.len() > root.len()
    &&& path.take(root.len() as int) == root
    &&& forall|i: int| root.len() <= i < path.len() ==> is_name(#[trigger] path[i])
}

pub(crate) proof fn lemma_plainly_below(path: PathView, root: PathView)
    ensures
        plainly_below(path, root) == crate::path::inside(root, path),
{
    if plainly_below(path, root) {
        let rest = path.skip(root.len() as int);
        assert forall|i: int| 0 <= i < rest.len() implies is_name(#[trigger] rest[i]) by {
            assert(rest[i] == path[root.len() + i]);
        }
    }
    if crate::path::inside(root, path) {
        let rest = path.skip(root.len() as int);
        assert forall|i: int| root.len() <= i < path.len() implies is_name(#[trigger] path[i]) by {
            assert(rest[i - root.len()] == path[i]);
        }
    }
}

/// A deletion is started for exactly what lies plainly below the root, and it
/// is of that path and no other. The copy is to be made in the directory of
/// copies. What is refused is told of by its path, and nothing else changes.
pub proof fn law_deletion_is_of_the_path(
    sidebar: &mut Sidebar,
    path: FilePath,
    is_dir: bool,
    ticket: Option<DeleteTicket>,
)
    requires
        call_ensures(Sidebar::request_tree_delete, (sidebar, path, is_dir), ticket),
        old(sidebar).history.backup_counter < u64::MAX,
    ensures
        ticket is Some == plainly_below(path@, old(sidebar).tree.fold.root@),
        ticket matches Some(issued) ==> {
            &&& issued.path.text() == path.text()
            &&& issued.is_dir == is_dir
            &&& issued.clear_redo
            &&& final(sidebar).history.backup_counter == old(sidebar).history.backup_counter + 1
            &&& final(sidebar).op_error == old(sidebar).op_error
            &&& issued.backup_path@.len() > 0
            &&& issued.backup_path@.drop_last() == old(sidebar).history.backup_root@
        },
        ticket is None ==> final(sidebar).history == old(sidebar).history && says(
            final(sidebar).op_error,
            "refusing to delete "@ + shown(path.text()) + ": it is not inside this worktree"@,
        ),
        final(sidebar).tree == old(sidebar).tree,
        final(sidebar).selection == old(sidebar).selection,
        final(sidebar).clipboard == old(sidebar).clipboard,
        final(sidebar).docs == old(sidebar).docs,
        final(sidebar).changes == old(sidebar).changes,
        final(sidebar).history.undo_stack == old(sidebar).history.undo_stack,
        final(sidebar).history.redo_stack == old(sidebar).history.redo_stack,
{
    lemma_plainly_below(path@, old(sidebar).tree.fold.root@);
    if let Some(issued) = ticket {
        lemma_copy_place(
            old(sidebar).history,
            old(sidebar).history.backup_counter as nat,
            &path,
            issued.backup_path,
        );
    }
}

/// Of several paths each that lies plainly below the root gets a deletion of
/// its own, in their order, and no other does.
pub proof fn law_deletions_are_of_the_paths(
    sidebar: &mut Sidebar,
    paths: &Vec<FilePath>,
    dirs: &PathSet,
    tickets: Vec<DeleteTicket>,
) -> (at: Seq<int>)
    requires
        call_ensures(Sidebar::request_tree_deletes, (sidebar, paths, dirs), tickets),
        old(sidebar).history.backup_counter + paths@.len() <= u64::MAX,
    ensures
        picks(
            at,
            paths@.len() as int,
            |i: int| plainly_below(paths@[i]@, old(sidebar).tree.fold.root@),
        ),
        at.len() == tickets@.len(),
        forall|k: int|
            0 <= k < at.len() ==> {
                let ticket = tickets@[k];
                &&& ticket.path.text() == paths@[#[trigger] at[k]].text()
                &&& ticket.clear_redo
            },
        final(sidebar).history.backup_counter == old(sidebar).history.backup_counter
            + tickets@.len(),
        final(sidebar).tree == old(sidebar).tree,
        final(sidebar).docs == old(sidebar).docs,
        final(sidebar).changes == old(sidebar).changes,
        final(sidebar).history.undo_stack == old(sidebar).history.undo_stack,
{
    let root = old(sidebar).tree.fold.root@;
    let all = crate::path_set::given(paths@);
    let views = ticket_views(tickets@);
    let at = lemma_deletable(paths@, root);
    assert(views.len() == tickets@.len());
    assert(all.len() == paths@.len());
    lemma_few_deletable(all, root);
    assert forall|k: int| 0 <= k < at.len() implies {
        let ticket = tickets@[k];
        &&& ticket.path.text() == paths@[#[trigger] at[k]].text()
        &&& ticket.clear_redo
    } by {
        assert(views[k] == tickets@[k]@);
    }
    at
}

proof fn lemma_few_deletable(paths: Seq<PathText>, root: PathView)
    ensures
        deletable(paths, root).len() <= paths.len(),
    decreases paths.len(),
{
    reveal(Seq::filter);
    if paths.len() > 0 {
        lemma_few_deletable(paths.drop_last(), root);
    }
}

pub(crate) proof fn lemma_deletable(paths: Seq<FilePath>, root: PathView) -> (at: Seq<int>)
    ensures
        picks(at, paths.len() as int, |i: int| plainly_below(paths[i]@, root)),
        at.len() == deletable(crate::path_set::given(paths), root).len(),
        forall|k: int|
            0 <= k < at.len() ==> deletable(crate::path_set::given(paths), root)[k] == paths[
                #[trigger] at[k]
            ].text(),
    decreases paths.len(),
{
    reveal(Seq::filter);
    let all = crate::path_set::given(paths);
    assert(all.len() == paths.len());
    if paths.len() == 0 {
        assert(deletable(all, root) =~= seq![]);
        seq![]
    } else {
        let rest = paths.drop_last();
        let before = lemma_deletable(rest, root);
        assert(all.drop_last() =~= crate::path_set::given(rest));
        assert(all.last() == paths.last().text());
        lemma_plainly_below(paths.last()@, root);
        lemma_picks(
            before,
            paths.len() - 1,
            |i: int| plainly_below(rest[i]@, root),
            |i: int| plainly_below(paths[i]@, root),
        )
    }
}

/// What is removed from the disk is what the deletion is of, by the means that
/// was found for it; what is copied before is the same, to where its copy is
/// kept. Nothing follows a step that failed.
pub proof fn law_steps_of_a_deletion(
    sidebar: &Sidebar,
    ticket: &DeleteTicket,
    mechanism: &DeleteMechanism,
    done: usize,
    last: &Result<(), String>,
    step: Option<DeleteStep>,
)
    requires
        call_ensures(Sidebar::next_delete_step, (sidebar, ticket, mechanism, done, last), step),
    ensures
        *last is Err ==> step is None,
        step matches Some(DeleteStep::Remove { path, mechanism: means }) ==> path.text()
            == ticket.path.text() && means@ == mechanism@ && done > 0,
        step matches Some(DeleteStep::Copy { source, destination }) ==> source.text()
            == ticket.path.text() && destination.text() == ticket.backup_path.text(),
        step matches Some(DeleteStep::MakeDir(dir)) ==> done == 0 && parent(ticket.backup_path@)
            == Some(dir@),
        *last is Ok && done == 0 ==> step is Some && !(step->0 is Remove),
{
    crate::path::lemma_parent_text(ticket.backup_path.text());
}

/// A removal comes right after the copy, and the copy comes always: with every
/// step passed, the one before the removal is the copy, and the one after it
/// is none.
pub proof fn law_copy_comes_before_the_removal(
    sidebar: &Sidebar,
    ticket: &DeleteTicket,
    mechanism: &DeleteMechanism,
    done: usize,
    last: &Result<(), String>,
    copy: Option<DeleteStep>,
    removal: Option<DeleteStep>,
    after: Option<DeleteStep>,
)
    requires
        *last is Ok,
        done < usize::MAX - 1,
        call_ensures(Sidebar::next_delete_step, (sidebar, ticket, mechanism, done, last), copy),
        call_ensures(
            Sidebar::next_delete_step,
            (sidebar, ticket, mechanism, (done + 1) as usize, last),
            removal,
        ),
        call_ensures(
            Sidebar::next_delete_step,
            (sidebar, ticket, mechanism, (done + 2) as usize, last),
            after,
        ),
    ensures
        (copy matches Some(step) && step is Copy) <==> (removal matches Some(step)
            && step is Remove),
        (copy matches Some(step) && step is Copy) ==> after is None,
        done == 0 ==> (copy matches Some(step) && step is Copy) || (removal matches Some(step)
            && step is Copy),
{
}

/// A deletion that was done can be taken back: it is the latest of what can,
/// with the path, its copy and its means. Nothing that lies at the path or
/// below is selected, cut or copied any more. One that failed changes nothing
/// but the message, and its copy is handed back to be dropped.
pub proof fn law_finished_deletion(
    sidebar: &mut Sidebar,
    ticket: DeleteTicket,
    mechanism: DeleteMechanism,
    outcome: Result<(), String>,
    done: OperationOutcome,
)
    requires
        call_ensures(Sidebar::finish_delete, (sidebar, ticket, mechanism, outcome), done),
    ensures
        done.effects.refresh == outcome is Ok,
        outcome is Ok ==> {
            &&& final(sidebar).history.undo_stack@.len()
                == old(sidebar).history.undo_stack@.len() + 1
            &&& final(sidebar).history.undo_stack@.last() matches TreeUndoEntry::Delete {
                original_path,
                is_dir,
                backup_path,
                mechanism: means,
            } && original_path.text() == ticket.path.text() && is_dir == ticket.is_dir
                && backup_path.text() == ticket.backup_path.text() && means@ == mechanism@
            &&& ticket.clear_redo ==> final(sidebar).history.redo_stack@.len() == 0
            &&& !ticket.clear_redo ==> final(sidebar).history.redo_stack@.len()
                == old(sidebar).history.redo_stack@.len()
            &&& final(sidebar).selection.anchor matches Some(anchor) ==> !is_under(
                anchor@,
                ticket.path@,
            )
            &&& forall|path: PathView|
                is_under(path, ticket.path@) ==> !(
                #[trigger] final(sidebar).selection.additional@.contains(path))
            &&& final(sidebar).clipboard matches Some(entry) ==> !is_under(
                entry.path@,
                ticket.path@,
            )
        },
        outcome is Err ==> {
            &&& says(final(sidebar).op_error, outcome->Err_0@)
            &&& final(sidebar).tree == old(sidebar).tree
            &&& final(sidebar).docs == old(sidebar).docs
            &&& final(sidebar).history == old(sidebar).history
            &&& final(sidebar).selection == old(sidebar).selection
            &&& final(sidebar).clipboard == old(sidebar).clipboard
            &&& done.dropped@.len() == 1
            &&& done.dropped@[0].path.text() == ticket.backup_path.text()
            &&& done.dropped@[0].is_dir == ticket.is_dir
        },
{
    if outcome is Ok {
        lemma_last_undo(
            final(sidebar).history,
            old(sidebar).history.undos(),
            UndoView::Delete {
                original_path: ticket.path.text(),
                is_dir: ticket.is_dir,
                backup_path: ticket.backup_path.text(),
                mechanism: mechanism@,
            },
        );
        assert(old(sidebar).history.undos().len() == old(sidebar).history.undo_stack@.len());
        assert(final(sidebar).history.redos().len() == final(sidebar).history.redo_stack@.len());
        assert(old(sidebar).history.redos().len() == old(sidebar).history.redo_stack@.len());
    } else {
        assert(backup_views(done.dropped@).len() == done.dropped@.len());
        assert(backup_views(done.dropped@)[0] == (
            done.dropped@[0].path.text(),
            done.dropped@[0].is_dir,
        ));
    }
}

/// A deletion that was done is what is taken back next: its copy is put back
/// where it was deleted.
pub proof fn law_deleted_then_taken_back(
    first: &mut Sidebar,
    second: &mut Sidebar,
    ticket: DeleteTicket,
    mechanism: DeleteMechanism,
    done: OperationOutcome,
    step: UndoStep,
)
    requires
        call_ensures(Sidebar::finish_delete, (first, ticket, mechanism, Ok(())), done),
        *second == *final(first),
        call_ensures(Sidebar::undo_tree_op, (second,), step),
    ensures
        step matches UndoStep::Restore { dir, backup, original, .. } && original.text()
            == ticket.path.text() && backup.text() == ticket.backup_path.text() && (
        parent(ticket.path@) matches Some(above) ==> dir matches Some(asked) && asked@ == above),
        final(second).history.undo_stack@.len() == old(first).history.undo_stack@.len(),
{
    let entry = UndoView::Delete {
        original_path: ticket.path.text(),
        is_dir: ticket.is_dir,
        backup_path: ticket.backup_path.text(),
        mechanism: mechanism@,
    };
    let all = final(first).history.undos();
    assert(all.last() == entry);
    assert(final(second).history.undos().len() == final(second).history.undo_stack@.len());
    assert(old(first).history.undos().len() == old(first).history.undo_stack@.len());
    crate::path::lemma_parent_text(ticket.path.text());
    match step {
        UndoStep::Nothing => {},
        UndoStep::Move { entry: taken, request } => {
            assert(final(second).history.undos().push(taken@).last() == taken@);
        },
        UndoStep::Restore { entry: taken, dir, backup, original } => {
            assert(final(second).history.undos().push(taken@).last() == taken@);
        },
    }
}

/// Taking back concerns the latest operation: a move goes from where it went
/// to where it came from, a deletion puts the copy back at the path. It is
/// taken off what can be taken back, and nothing else changes.
pub proof fn law_latest_is_taken_back(sidebar: &mut Sidebar, step: UndoStep)
    requires
        call_ensures(Sidebar::undo_tree_op, (sidebar,), step),
    ensures
        step is Nothing == (old(sidebar).history.undo_stack@.len() == 0),
        !(step is Nothing) ==> final(sidebar).history.undo_stack@.len()
            == old(sidebar).history.undo_stack@.len() - 1,
        old(sidebar).history.undo_stack@.len() > 0 ==> match (
            old(sidebar).history.undo_stack@.last(),
            step,
        ) {
            (
                TreeUndoEntry::Relocate { old_path, new_path },
                UndoStep::Move { request, .. },
            ) => request.source.text() == new_path.text() && request.destination.text()
                == old_path.text(),
            (
                TreeUndoEntry::Delete { original_path, backup_path, .. },
                UndoStep::Restore { backup, original, .. },
            ) => backup.text() == backup_path.text() && original.text() == original_path.text(),
            _ => false,
        },
        final(sidebar).tree == old(sidebar).tree,
        final(sidebar).docs == old(sidebar).docs,
        final(sidebar).selection == old(sidebar).selection,
        final(sidebar).history.redos() == old(sidebar).history.redos(),
{
    let undos = old(sidebar).history.undos();
    assert(undos.len() == old(sidebar).history.undo_stack@.len());
    assert(final(sidebar).history.undos().len() == final(sidebar).history.undo_stack@.len());
    if undos.len() > 0 {
        assert(undos.last() == old(sidebar).history.undo_stack@.last()@);
        match step {
            UndoStep::Nothing => {},
            UndoStep::Move { entry, request } => {
                assert(final(sidebar).history.undos().push(entry@).last() == entry@);
            },
            UndoStep::Restore { entry, dir, backup, original } => {
                assert(final(sidebar).history.undos().push(entry@).last() == entry@);
            },
        }
    }
}

/// Doing again concerns what was taken back last: a move goes from where it
/// came to where it went; a deletion is of the same path by the same means,
/// with a copy of its own, and hands the old copy back. It forgets nothing
/// that can still be done again.
pub proof fn law_latest_is_done_again(sidebar: &mut Sidebar, step: RedoStep)
    requires
        call_ensures(Sidebar::redo_tree_op, (sidebar,), step),
        old(sidebar).history.backup_counter < u64::MAX,
    ensures
        step is Nothing == (old(sidebar).history.redo_stack@.len() == 0),
        !(step is Nothing) ==> final(sidebar).history.redo_stack@.len()
            == old(sidebar).history.redo_stack@.len() - 1,
        old(sidebar).history.redo_stack@.len() > 0 ==> match (
            old(sidebar).history.redo_stack@.last(),
            step,
        ) {
            (
                TreeUndoEntry::Relocate { old_path, new_path },
                RedoStep::Move { request, .. },
            ) => request.source.text() == old_path.text() && request.destination.text()
                == new_path.text(),
            (
                TreeUndoEntry::Delete { original_path, is_dir, backup_path, mechanism },
                RedoStep::Delete { stale, ticket, mechanism: means },
            ) => {
                &&& ticket.path.text() == original_path.text()
                &&& ticket.is_dir == is_dir
                &&& !ticket.clear_redo
                &&& means@ == mechanism@
                &&& stale.path.text() == backup_path.text()
                &&& stale.is_dir == is_dir
            },
            _ => false,
        },
        final(sidebar).tree == old(sidebar).tree,
        final(sidebar).docs == old(sidebar).docs,
        final(sidebar).selection == old(sidebar).selection,
        final(sidebar).history.undos() == old(sidebar).history.undos(),
{
    let redos = old(sidebar).history.redos();
    assert(redos.len() == old(sidebar).history.redo_stack@.len());
    assert(final(sidebar).history.redos().len() == final(sidebar).history.redo_stack@.len());
    if redos.len() > 0 {
        assert(redos.last() == old(sidebar).history.redo_stack@.last()@);
        match step {
            RedoStep::Nothing => {},
            RedoStep::Move { entry, request } => {
                assert(final(sidebar).history.redos().push(entry@).last() == entry@);
            },
            RedoStep::Delete { stale, ticket, mechanism } => {
                let entry = UndoView::Delete {
                    original_path: ticket.path.text(),
                    is_dir: ticket.is_dir,
                    backup_path: stale.path.text(),
                    mechanism: mechanism@,
                };
                let middle = final(sidebar).counting_from(old(sidebar).history.backup_counter);
                assert(middle.history.redos() == final(sidebar).history.redos());
                assert(middle.history.redos().push(entry).last() == entry);
                assert(middle.history.undos() == final(sidebar).history.undos());
            },
        }
    }
}

/// What was taken back can be done again and is the selected row where it lies
/// now: a move where it came from, a deleted entry at its path. What could not
/// be taken back still can be, and says why not.
pub proof fn law_taken_back(
    sidebar: &mut Sidebar,
    entry: TreeUndoEntry,
    outcome: Result<(), String>,
    effects: TreeEffects,
)
    requires
        call_ensures(Sidebar::finish_undo, (sidebar, entry, outcome), effects),
    ensures
        effects.refresh == outcome is Ok,
        outcome is Ok ==> {
            &&& final(sidebar).history.undos() == old(sidebar).history.undos()
            &&& final(sidebar).history.redo_stack@.len()
                == old(sidebar).history.redo_stack@.len() + 1
            &&& final(sidebar).history.redo_stack@.last()@ == entry@
            &&& match entry {
                TreeUndoEntry::Relocate { old_path, .. } => is_at(
                    final(sidebar).selection.anchor,
                    old_path.text(),
                ),
                TreeUndoEntry::Delete { original_path, .. } => is_at(
                    final(sidebar).selection.anchor,
                    original_path.text(),
                ),
            }
        },
        outcome is Err ==> {
            &&& says(final(sidebar).op_error, outcome->Err_0@)
            &&& final(sidebar).history.redos() == old(sidebar).history.redos()
            &&& final(sidebar).history.undo_stack@.len()
                == old(sidebar).history.undo_stack@.len() + 1
            &&& final(sidebar).history.undo_stack@.last()@ == entry@
            &&& final(sidebar).tree == old(sidebar).tree
            &&& final(sidebar).docs == old(sidebar).docs
        },
{
    let history = final(sidebar).history;
    assert(old(sidebar).history.undos().len() == old(sidebar).history.undo_stack@.len());
    assert(old(sidebar).history.redos().len() == old(sidebar).history.redo_stack@.len());
    if outcome is Ok {
        lemma_last_redo(history, old(sidebar).history.redos(), entry@);
    } else {
        lemma_last_undo(history, old(sidebar).history.undos(), entry@);
    }
}

/// What was moved again can be taken back and is the selected row where it
/// went.
pub proof fn law_moved_again(
    sidebar: &mut Sidebar,
    entry: TreeUndoEntry,
    outcome: Result<(), String>,
    effects: TreeEffects,
)
    requires
        call_ensures(Sidebar::finish_redo_move, (sidebar, entry, outcome), effects),
        entry is Relocate,
    ensures
        effects.refresh == outcome is Ok,
        outcome is Ok ==> {
            &&& final(sidebar).history.redos() == old(sidebar).history.redos()
            &&& final(sidebar).history.undo_stack@.len()
                == old(sidebar).history.undo_stack@.len() + 1
            &&& final(sidebar).history.undo_stack@.last()@ == entry@
            &&& entry matches TreeUndoEntry::Relocate { new_path, .. } && is_at(
                final(sidebar).selection.anchor,
                new_path.text(),
            )
        },
        outcome is Err ==> {
            &&& says(final(sidebar).op_error, outcome->Err_0@)
            &&& final(sidebar).history.undos() == old(sidebar).history.undos()
            &&& final(sidebar).history.redo_stack@.len()
                == old(sidebar).history.redo_stack@.len() + 1
            &&& final(sidebar).history.redo_stack@.last()@ == entry@
            &&& final(sidebar).tree == old(sidebar).tree
            &&& final(sidebar).docs == old(sidebar).docs
        },
{
    let history = final(sidebar).history;
    assert(old(sidebar).history.undos().len() == old(sidebar).history.undo_stack@.len());
    assert(old(sidebar).history.redos().len() == old(sidebar).history.redo_stack@.len());
    if outcome is Ok {
        lemma_last_undo(history, old(sidebar).history.undos(), entry@);
    } else {
        lemma_last_redo(history, old(sidebar).history.redos(), entry@);
    }
}

proof fn lemma_last_redo(history: TreeHistory, before: Seq<UndoView>, entry: UndoView)
    requires
        history.redos() == before.push(entry),
    ensures
        history.redo_stack@.len() == before.len() + 1,
        history.redo_stack@.last()@ == entry,
{
    assert(history.redos().len() == history.redo_stack@.len());
    assert(history.redos().last() == entry);
    assert(history.redos()[history.redo_stack@.len() - 1] == history.redo_stack@.last()@);
}

/// The copies that are handed back are those of the deletions among the
/// entries, each once and in their order; a move has none.
pub proof fn law_copies_of_the_deletions(
    entries: &Vec<TreeUndoEntry>,
    backups: Vec<Backup>,
) -> (at: Seq<int>)
    requires
        call_ensures(collect_backups, (entries,), backups),
    ensures
        picks(at, entries@.len() as int, |i: int| entries@[i] is Delete),
        at.len() == backups@.len(),
        forall|k: int|
            0 <= k < at.len() ==> (entries@[#[trigger] at[k]] matches TreeUndoEntry::Delete {
                is_dir,
                backup_path,
                ..
            } && backups@[k].path.text() == backup_path.text() && backups@[k].is_dir == is_dir),
{
    let views = backup_views(backups@);
    assert(views.len() == backups@.len());
    let at = lemma_copies(entries@);
    assert forall|k: int| 0 <= k < at.len() implies (
    entries@[#[trigger] at[k]] matches TreeUndoEntry::Delete { is_dir, backup_path, .. }
        && backups@[k].path.text() == backup_path.text() && backups@[k].is_dir == is_dir) by {
        assert(views[k] == (backups@[k].path.text(), backups@[k].is_dir));
    }
    at
}

proof fn lemma_copies(entries: Seq<TreeUndoEntry>) -> (at: Seq<int>)
    ensures
        picks(at, entries.len() as int, |i: int| entries[i] is Delete),
        at.len() == backups_of(crate::history::undo_views(entries)).len(),
        forall|k: int|
            0 <= k < at.len() ==> (entries[#[trigger] at[k]] matches TreeUndoEntry::Delete {
                is_dir,
                backup_path,
                ..
            } && backups_of(crate::history::undo_views(entries))[k] == (
                backup_path.text(),
                is_dir,
            )),
    decreases entries.len(),
{
    let all = crate::history::undo_views(entries);
    assert(all.len() == entries.len());
    if entries.len() == 0 {
        seq![]
    } else {
        let rest = entries.drop_last();
        let before = lemma_copies(rest);
        assert(all.drop_last() =~= crate::history::undo_views(rest));
        assert(all.last() == entries.last()@);
        lemma_picks(
            before,
            entries.len() - 1,
            |i: int| rest[i] is Delete,
            |i: int| entries[i] is Delete,
        )
    }
}

/// A new operation ends what could be done again, and what could be taken back
/// before still can.
pub proof fn law_new_operation_ends_redo(
    history: &mut TreeHistory,
    entry: TreeUndoEntry,
    dropped: Vec<Backup>,
)
    requires
        call_ensures(TreeHistory::push_tree_undo_entry, (history, entry), dropped),
    ensures
        final(history).redo_stack@.len() == 0,
        final(history).undo_stack@.len() == old(history).undo_stack@.len() + 1,
        final(history).undo_stack@.last()@ == entry@,
        forall|i: int|
            0 <= i < old(history).undo_stack@.len()
                ==> (#[trigger] final(history).undo_stack@[i])@ == old(history).undo_stack@[i]@,
{
    lemma_last_undo(*final(history), old(history).undos(), entry@);
    assert(old(history).undos().len() == old(history).undo_stack@.len());
    assert(final(history).redos().len() == final(history).redo_stack@.len());
    assert forall|i: int| 0 <= i < old(history).undo_stack@.len() implies (#[trigger] final(history).undo_stack@[i])@ == old(history).undo_stack@[i]@ by {
        assert(final(history).undos()[i] == final(history).undo_stack@[i]@);
        assert(old(history).undos()[i] == old(history).undo_stack@[i]@);
    }
}

/// Copies never share a place: each has a number of its own, the next one the
/// next, and lies in the directory of copies under that number and the name of
/// what it is a copy of.
pub proof fn law_copies_have_places_of_their_own(
    first: &mut TreeHistory,
    second: &mut TreeHistory,
    one: &FilePath,
    other: &FilePath,
    here: FilePath,
    there: FilePath,
    number: String,
)
    requires
        old(first).backup_counter < u64::MAX - 1,
        call_ensures(decimal_text, (old(first).backup_counter,), number),
        call_ensures(TreeHistory::next_tree_undo_backup_path, (first, one), here),
        *second == *final(first),
        call_ensures(TreeHistory::next_tree_undo_backup_path, (second, other), there),
    ensures
        here@ != there@,
        here@.len() > 0 && here@.drop_last() == old(first).backup_root@,
        there@.len() > 0 && there@.drop_last() == old(first).backup_root@,
        file_name(one@) matches Some(name) ==> here@.last() == chars(number@ + "-"@ + name),
        file_name(one@) is None ==> here@.last() == chars(number@ + "-"@ + "entry"@),
        final(second).backup_counter == old(first).backup_counter + 2,
        final(second).undo_stack == old(first).undo_stack,
        final(second).redo_stack == old(first).redo_stack,
{
    let root = old(first).backup_root.text();
    let count = old(first).backup_counter as nat;
    lemma_copy_place(*old(first), count, one, here);
    lemma_copy_place(*old(first), count + 1, other, there);
    crate::history::law_backups_never_collide(root, count, one@, count + 1, other@);
}

proof fn lemma_copy_place(history: TreeHistory, number: nat, original: &FilePath, place: FilePath)
    requires
        place.text() == crate::path::text_joined(
            history.backup_root.text(),
            crate::path::letters(crate::history::backup_name(number, original@)),
        ),
    ensures
        place@.len() > 0,
        place@.drop_last() == history.backup_root@,
        place@.last() == chars(crate::history::backup_name(number, original@)),
{
    let name = crate::history::backup_name(number, original@);
    lemma_backup_name(number, original@);
    crate::path::lemma_components_of_name(name);
    crate::path::lemma_joined(history.backup_root.text(), crate::path::letters(name));
    assert(all_names(seq![chars(name)]));
    crate::laws::lemma_join_names(history.backup_root@, seq![chars(name)]);
    assert(place@ =~= history.backup_root@.push(chars(name)));
    assert(place@.drop_last() =~= history.backup_root@);
}

/// A deletion of one of several paths is of a directory where the tree lists
/// it as one; of what the tree does not list the disk says so.
pub proof fn law_deletions_know_directories(
    sidebar: &mut Sidebar,
    paths: &Vec<FilePath>,
    dirs: &PathSet,
    tickets: Vec<DeleteTicket>,
    tree: &crate::tree::FileTree,
    k: int,
    path: &FilePath,
    on_disk: bool,
    is_dir: bool,
)
    requires
        call_ensures(Sidebar::request_tree_deletes, (sidebar, paths, dirs), tickets),
        old(sidebar).history.backup_counter + paths@.len() <= u64::MAX,
        0 <= k < tickets@.len(),
        *tree == old(sidebar).tree,
        path.text() == tickets@[k].path.text(),
        call_ensures(PathSet::contains, (dirs, path), on_disk),
        call_ensures(crate::tree::FileTree::is_dir_at, (tree, path, on_disk), is_dir),
    ensures
        tickets@[k].is_dir == is_dir,
{
    let views = ticket_views(tickets@);
    assert(views[k] == tickets@[k]@);
}

/// Where one of several deletions is refused, the message is about the last
/// that was; where none is, there is no new message.
pub proof fn law_refusal_is_told(
    sidebar: &mut Sidebar,
    paths: &Vec<FilePath>,
    dirs: &PathSet,
    tickets: Vec<DeleteTicket>,
    i: int,
)
    requires
        call_ensures(Sidebar::request_tree_deletes, (sidebar, paths, dirs), tickets),
        old(sidebar).history.backup_counter + paths@.len() <= u64::MAX,
        0 <= i < paths@.len() ==> !plainly_below(paths@[i]@, old(sidebar).tree.fold.root@),
        -1 <= i < paths@.len(),
        forall|j: int|
            i < j < paths@.len() ==> plainly_below(
                (#[trigger] paths@[j])@,
                old(sidebar).tree.fold.root@,
            ),
    ensures
        i >= 0 ==> says(
            final(sidebar).op_error,
            "refusing to delete "@ + shown(paths@[i].text())
                + ": it is not inside this worktree"@,
        ),
        i < 0 ==> match (old(sidebar).op_error, final(sidebar).op_error) {
            (Some(before), Some(after)) => before@ == after@,
            (None, None) => true,
            _ => false,
        },
{
    let root = old(sidebar).tree.fold.root@;
    lemma_refusal(
        crate::text::option_text(old(sidebar).op_error),
        paths@,
        root,
        paths@.len() as int,
        i,
    );
    assert(crate::path_set::given(paths@).take(paths@.len() as int) =~= crate::path_set::given(
        paths@,
    ));
}

proof fn lemma_refusal(
    error: Option<Seq<char>>,
    paths: Seq<FilePath>,
    root: PathView,
    n: int,
    i: int,
)
    requires
        -1 <= i < n <= paths.len(),
        0 <= i ==> !plainly_below(paths[i]@, root),
        forall|j: int| i < j < n ==> plainly_below((#[trigger] paths[j])@, root),
    ensures
        crate::undo::refusal_after(error, crate::path_set::given(paths).take(n), root) == if i
            >= 0 {
            Some(crate::undo::refused_text(paths[i].text()))
        } else {
            error
        },
    decreases n,
{
    let all = crate::path_set::given(paths).take(n);
    if n > 0 {
        assert(all.last() == paths[n - 1].text());
        assert(all.drop_last() =~= crate::path_set::given(paths).take(n - 1));
        lemma_plainly_below(paths[n - 1]@, root);
        if i < n - 1 {
            lemma_refusal(error, paths, root, n - 1, i);
        }
    }
}

/// Deleting the selection is of the selected entries that lie plainly below
/// the root: each of them has its deletion, and no other path has one.
pub proof fn law_selection_is_deleted(
    sidebar: &mut Sidebar,
    dirs: &PathSet,
    tickets: Vec<DeleteTicket>,
    path: PathView,
)
    requires
        call_ensures(Sidebar::request_tree_delete_for_selection, (sidebar, dirs), tickets),
        old(sidebar).history.backup_counter + old(sidebar).selection.selected().len() <= u64::MAX,
    ensures
        crate::laws::selection::is_selected(old(sidebar).selection, path) && plainly_below(
            path,
            old(sidebar).tree.fold.root@,
        ) <==> exists|k: int| 0 <= k < tickets@.len() && (#[trigger] tickets@[k]).path@ == path,
        final(sidebar).tree == old(sidebar).tree,
        final(sidebar).docs == old(sidebar).docs,
        final(sidebar).history.undo_stack == old(sidebar).history.undo_stack,
{
    let root = old(sidebar).tree.fold.root@;
    let order = choose|order: Seq<PathText>| #[trigger]
        old(sidebar).is_selection_order(order) && old(sidebar).deletes_in_order(
            *final(sidebar),
            order,
            ticket_views(tickets@),
            dirs@,
        );
    let entries = crate::undo::entries_among(order, root);
    let wanted = deletable(entries, root);
    let views = ticket_views(tickets@);
    assert(views.len() == tickets@.len());
    let read = crate::path_set::read(order);
    assert(read.len() == order.len());
    assert(read.to_set().contains(path) == old(sidebar).selection.selected().contains(path));
    lemma_plainly_below(path, root);
    let is_entry = |text: PathText| crate::undo::is_entry(root, crate::path::components(text));
    let is_inside = |text: PathText| crate::path::inside(root, crate::path::components(text));
    if crate::laws::selection::is_selected(old(sidebar).selection, path) && plainly_below(
        path,
        root,
    ) {
        let i = read.index_of(path);
        let text = order[i];
        assert(crate::path::components(text) == path);
        assert(is_entry(text));
        order.lemma_filter_contains(is_entry, i);
        let j = entries.index_of(text);
        assert(is_inside(entries[j]));
        entries.lemma_filter_contains(is_inside, j);
        let k = wanted.index_of(text);
        assert(views[k] == tickets@[k]@);
        assert(tickets@[k].path@ == path);
    }
    if exists|k: int| 0 <= k < tickets@.len() && (#[trigger] tickets@[k]).path@ == path {
        let k = choose|k: int| 0 <= k < tickets@.len() && (#[trigger] tickets@[k]).path@ == path;
        assert(views[k] == tickets@[k]@);
        let text = wanted[k];
        entries.lemma_filter_contains_rev(is_inside, text);
        order.lemma_filter_contains_rev(is_entry, text);
        let i = order.index_of(text);
        assert(read[i] == path);
        assert(read.contains(path));
        assert(is_inside(text)) by {
            entries.lemma_filter_pred(is_inside, k);
        }
    }
}

/// The operation that is taken back, or done again, is the one that the step is
/// of: it is what goes back on the lists in the end.
pub proof fn law_step_is_of_the_latest(
    first: &mut Sidebar,
    second: &mut Sidebar,
    undone: UndoStep,
    redone: RedoStep,
)
    requires
        call_ensures(Sidebar::undo_tree_op, (first,), undone),
        call_ensures(Sidebar::redo_tree_op, (second,), redone),
        old(second).history.backup_counter < u64::MAX,
    ensures
        undone matches UndoStep::Move { entry, .. } ==> entry@
            == old(first).history.undo_stack@.last()@,
        undone matches UndoStep::Restore { entry, .. } ==> entry@
            == old(first).history.undo_stack@.last()@,
        undone matches UndoStep::Restore { dir, original, .. } ==> match (parent(original@), dir) {
            (Some(above), Some(there)) => there@ == above,
            (None, None) => true,
            _ => false,
        },
        redone matches RedoStep::Move { entry, .. } ==> entry@
            == old(second).history.redo_stack@.last()@,
{
    let undos = old(first).history.undos();
    let redos = old(second).history.redos();
    assert(undos.len() == old(first).history.undo_stack@.len());
    assert(redos.len() == old(second).history.redo_stack@.len());
    match undone {
        UndoStep::Nothing => {},
        UndoStep::Move { entry, request } => {
            assert(undos.last() == entry@);
            assert(undos.last() == old(first).history.undo_stack@.last()@);
        },
        UndoStep::Restore { entry, dir, backup, original } => {
            assert(undos.last() == entry@);
            assert(undos.last() == old(first).history.undo_stack@.last()@);
            crate::path::lemma_parent_text(original.text());
        },
    }
    if let RedoStep::Move { entry, request } = redone {
        assert(redos.last() == entry@);
        assert(redos.last() == old(second).history.redo_stack@.last()@);
    }
}

/// What is said of a trash command that failed, or did not start.
pub proof fn law_trash_that_failed(
    program: &str,
    status: &str,
    label: &str,
    err: &str,
    failed: String,
    not_started: String,
)
    requires
        call_ensures(crate::undo::trash_failed_text, (program, status, label), failed),
        call_ensures(crate::undo::trash_not_started_text, (program, err), not_started),
    ensures
        failed@ == program@ + " exited with "@ + status@ + " while trashing "@ + label@,
        not_started@ == "failed to run "@ + program@ + ": "@ + err@,
{
}

/// A deletion that is done again keeps its copy in the directory of copies,
/// under the next number.
pub proof fn law_done_again_with_a_new_copy(
    sidebar: &mut Sidebar,
    stale: Backup,
    ticket: DeleteTicket,
    mechanism: DeleteMechanism,
)
    requires
        call_ensures(
            Sidebar::redo_tree_op,
            (sidebar,),
            RedoStep::Delete { stale, ticket, mechanism },
        ),
        old(sidebar).history.backup_counter < u64::MAX,
    ensures
        ticket.backup_path@.len() > 0,
        ticket.backup_path@.drop_last() == old(sidebar).history.backup_root@,
        final(sidebar).history.backup_counter == old(sidebar).history.backup_counter + 1,
{
    lemma_copy_place(
        old(sidebar).history,
        old(sidebar).history.backup_counter as nat,
        &ticket.path,
        ticket.backup_path,
    );
}

/// Deletions that are started together keep their copies in the directory of
/// copies, each in a place of its own.
pub proof fn law_copies_of_deletions_are_apart(
    sidebar: &mut Sidebar,
    paths: &Vec<FilePath>,
    dirs: &PathSet,
    tickets: Vec<DeleteTicket>,
    j: int,
    k: int,
)
    requires
        call_ensures(Sidebar::request_tree_deletes, (sidebar, paths, dirs), tickets),
        old(sidebar).history.backup_counter + paths@.len() <= u64::MAX,
        0 <= j < k < tickets@.len(),
    ensures
        tickets@[j].backup_path@ != tickets@[k].backup_path@,
        tickets@[j].backup_path@.drop_last() == old(sidebar).history.backup_root@,
        tickets@[k].backup_path@.drop_last() == old(sidebar).history.backup_root@,
{
    let views = ticket_views(tickets@);
    let count = old(sidebar).history.backup_counter as nat;
    assert(views[j] == tickets@[j]@);
    assert(views[k] == tickets@[k]@);
    let a = tickets@[j];
    let b = tickets@[k];
    lemma_copy_place(old(sidebar).history, count + j as nat, &a.path, a.backup_path);
    lemma_copy_place(old(sidebar).history, count + k as nat, &b.path, b.backup_path);
    crate::history::law_backups_never_collide(
        old(sidebar).history.backup_root.text(),
        count + j as nat,
        a.path@,
        count + k as nat,
        b.path@,
    );
}

} // verus!
