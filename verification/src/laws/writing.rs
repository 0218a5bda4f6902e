use vstd::prelude::*;

use crate::fold::TreeFold;
use crate::history::{DeleteMechanism, TreeUndoEntry};
use crate::inline_edit::FolderOutcome;
use crate::menu::{MenuAction, MenuWork};
use crate::moves::{CopyRequest, DropRun, MoveRequest, OperationOutcome};
use crate::path::{FilePath, PathText, PathView};
use crate::path_set::PathSet;
use crate::selection::ClickModifiers;
use crate::state::{Sidebar, TreeEffects};
use crate::tree_view::RowClick;
use crate::undo::DeleteTicket;

verus! {

/// Whether the record of the worktree is written where it changed, under its
/// own key, and no other worktree's record changed.
pub open spec fn writes_changes(before: TreeFold, after: TreeFold, persist: bool) -> bool {
    &&& before.root_key matches Some(key) ==> {
        &&& after.saved.recorded(key@) != before.saved.recorded(key@) ==> persist
        &&& persist ==> after.owned@.contains_key(key@)
    }
    &&& before.root_key is None ==> !persist
    &&& forall|key: Seq<char>|
        !(before.root_key matches Some(own) && own@ == key) ==> #[trigger] after.saved.recorded(key)
            == before.saved.recorded(key)
    &&& forall|key: Seq<char>|
        #[trigger] before.owned@.contains_key(key) ==> after.owned@.contains_key(key)
}

proof fn lemma_writes(before: TreeFold, after: TreeFold, persist: bool)
    requires
        before.steps_to(after, persist),
        after.recorded_here() != before.recorded_here() ==> persist,
    ensures
        writes_changes(before, after, persist),
{
    assert forall|key: Seq<char>| #[trigger] before.owned@.contains_key(
        key,
    ) implies after.owned@.contains_key(key) by {
        assert(before.owned@.dom().contains(key));
        assert(after.owned@.dom().contains(key));
    }
    if let Some(key) = before.root_key {
        if persist {
            assert(after.owned@.dom().contains(key@));
        }
    }
}

proof fn lemma_writes_twice(
    before: TreeFold,
    middle: TreeFold,
    after: TreeFold,
    first: bool,
    second: bool,
)
    requires
        writes_changes(before, middle, first),
        writes_changes(middle, after, second),
        middle.root_key == before.root_key,
    ensures
        writes_changes(before, after, first || second),
{
    assert forall|key: Seq<char>|
        !(before.root_key matches Some(own) && own@ == key) implies #[trigger] after.saved.recorded(
        key,
    ) == before.saved.recorded(key) by {
        assert(middle.saved.recorded(key) == before.saved.recorded(key));
    }
    assert forall|key: Seq<char>| #[trigger] before.owned@.contains_key(
        key,
    ) implies after.owned@.contains_key(key) by {
        assert(middle.owned@.contains_key(key));
    }
}

proof fn lemma_shown_writes(before: Sidebar, after: Sidebar, path: PathText, persist: bool)
    requires
        before.shown_at(after, path, persist),
    ensures
        writes_changes(before.tree.fold, after.tree.fold, persist),
{
    lemma_writes(before.tree.fold, after.tree.fold, persist);
}

proof fn lemma_renamed_writes(
    before: Sidebar,
    after: Sidebar,
    from: PathView,
    to: PathText,
    persist: bool,
)
    requires
        before.renamed(after, from, to, persist),
    ensures
        writes_changes(before.tree.fold, after.tree.fold, persist),
{
    lemma_writes(before.tree.fold, after.tree.fold, persist);
}

/// Whatever is expanded or collapsed one by one is written where the record
/// changed, and only there.
pub proof fn law_folding_is_written(
    first: &mut TreeFold,
    second: &mut TreeFold,
    third: &mut TreeFold,
    fourth: &mut TreeFold,
    fifth: &mut TreeFold,
    path: &FilePath,
    expanded: bool,
    set: bool,
    turned: bool,
    revealed: bool,
    collapsed: bool,
    all: bool,
)
    requires
        call_ensures(TreeFold::set_dir_expanded, (first, path, expanded), set),
        call_ensures(TreeFold::toggle_dir_expanded, (second, path), turned),
        call_ensures(TreeFold::reveal_in_tree, (third, path), revealed),
        call_ensures(TreeFold::collapse_subtree, (fourth, path), collapsed),
        call_ensures(TreeFold::collapse_all_dirs, (fifth,), all),
    ensures
        writes_changes(*old(first), *final(first), set),
        writes_changes(*old(second), *final(second), turned),
        writes_changes(*old(third), *final(third), revealed),
        writes_changes(*old(fourth), *final(fourth), collapsed),
        writes_changes(*old(fifth), *final(fifth), all),
        set && old(first).root_key is Some ==> final(first).saved.recorded(
            old(first).root_key->0@,
        ) != old(first).saved.recorded(old(first).root_key->0@),
        turned && old(second).root_key is Some ==> final(second).saved.recorded(
            old(second).root_key->0@,
        ) != old(second).saved.recorded(old(second).root_key->0@),
        revealed && old(third).root_key is Some ==> final(third).saved.recorded(
            old(third).root_key->0@,
        ) != old(third).saved.recorded(old(third).root_key->0@),
        collapsed && old(fourth).root_key is Some ==> final(fourth).saved.recorded(
            old(fourth).root_key->0@,
        ) != old(fourth).saved.recorded(old(fourth).root_key->0@),
{
    lemma_writes(*old(first), *final(first), set);
    lemma_writes(*old(second), *final(second), turned);
    lemma_writes(*old(third), *final(third), revealed);
    lemma_writes(*old(fourth), *final(fourth), collapsed);
    lemma_writes(*old(fifth), *final(fifth), all);
}

/// What a rename, a deletion, a copy or a new entry does to the record is
/// written.
pub proof fn law_operations_are_written(
    first: &mut Sidebar,
    second: &mut Sidebar,
    third: &mut Sidebar,
    fourth: &mut Sidebar,
    request: MoveRequest,
    renamed: OperationOutcome,
    ticket: DeleteTicket,
    mechanism: DeleteMechanism,
    deleted: OperationOutcome,
    copy: CopyRequest,
    copied: TreeEffects,
    dir: FilePath,
    is_dir: bool,
    started: bool,
    one: Result<(), String>,
    two: Result<(), String>,
    three: Result<(), String>,
)
    requires
        call_ensures(Sidebar::finish_rename, (first, request, one), renamed),
        call_ensures(Sidebar::finish_delete, (second, ticket, mechanism, two), deleted),
        call_ensures(Sidebar::finish_copy, (third, copy, three), copied),
        call_ensures(Sidebar::start_tree_new_entry, (fourth, dir, is_dir), started),
    ensures
        writes_changes(
            old(first).tree.fold,
            final(first).tree.fold,
            renamed.effects.persist,
        ),
        writes_changes(
            old(second).tree.fold,
            final(second).tree.fold,
            deleted.effects.persist,
        ),
        writes_changes(old(third).tree.fold, final(third).tree.fold, copied.persist),
        writes_changes(old(fourth).tree.fold, final(fourth).tree.fold, started),
{
    if one is Ok {
        let start = old(first).without_editor();
        let there = Sidebar { history: start.history, ..*final(first) };
        lemma_renamed_writes(
            start,
            there,
            request.source@,
            request.destination.text(),
            renamed.effects.persist,
        );
    }
    if two is Ok {
        lemma_writes(
            old(second).tree.fold,
            final(second).tree.fold,
            deleted.effects.persist,
        );
    }
    if three is Ok {
        lemma_shown_writes(
            *old(third),
            *final(third),
            copy.destination.text(),
            copied.persist,
        );
    }
    if dir@ != old(fourth).tree.fold.root@ {
        lemma_writes(old(fourth).tree.fold, final(fourth).tree.fold, started);
    }
}

/// What a move does to the record is written, whether it was pasted, dropped,
/// taken back or done again.
pub proof fn law_moves_are_written(
    first: &mut Sidebar,
    second: &mut Sidebar,
    run: &mut DropRun,
    third: &mut Sidebar,
    fourth: &mut Sidebar,
    request: MoveRequest,
    entry: TreeUndoEntry,
    pasted: OperationOutcome,
    dropped: OperationOutcome,
    undone: TreeEffects,
    redone: TreeEffects,
    one: Result<(), String>,
    two: Result<(), String>,
    three: Result<(), String>,
    four: Result<(), String>,
)
    requires
        call_ensures(Sidebar::finish_paste_move, (first, request, one), pasted),
        call_ensures(Sidebar::finish_drop, (second, run, request, two), dropped),
        call_ensures(Sidebar::finish_undo, (third, entry, three), undone),
        call_ensures(Sidebar::finish_redo_move, (fourth, entry, four), redone),
        entry is Relocate,
    ensures
        writes_changes(old(first).tree.fold, final(first).tree.fold, pasted.effects.persist),
        writes_changes(
            old(second).tree.fold,
            final(second).tree.fold,
            dropped.effects.persist,
        ),
        writes_changes(old(third).tree.fold, final(third).tree.fold, undone.persist),
        writes_changes(old(fourth).tree.fold, final(fourth).tree.fold, redone.persist),
{
    if one is Ok {
        let (middle, a, b) = choose|middle: Sidebar, a: bool, b: bool|
            {
                &&& #[trigger] old(first).relocated(
                    middle,
                    request.source.text(),
                    request.destination.text(),
                    a,
                    pasted.dropped@,
                )
                &&& #[trigger] middle.without_clipboard().shown_at(
                    *final(first),
                    request.destination.text(),
                    b,
                )
                &&& pasted.effects.persist == (a || b)
            };
        let there = Sidebar { history: old(first).history, ..middle };
        lemma_renamed_writes(
            *old(first),
            there,
            request.source@,
            request.destination.text(),
            a,
        );
        lemma_shown_writes(
            middle.without_clipboard(),
            *final(first),
            request.destination.text(),
            b,
        );
        lemma_writes_twice(
            old(first).tree.fold,
            middle.tree.fold,
            final(first).tree.fold,
            a,
            b,
        );
    }
    if two is Ok {
        let there = Sidebar { history: old(second).history, ..*final(second) };
        lemma_renamed_writes(
            *old(second),
            there,
            request.source@,
            request.destination.text(),
            dropped.effects.persist,
        );
    }
    if let TreeUndoEntry::Relocate { old_path, new_path } = entry {
        if three is Ok {
            let after = Sidebar { history: old(third).history, ..*final(third) };
            lemma_moved_back_writes(
                *old(third),
                after,
                new_path.text(),
                old_path.text(),
                undone.persist,
            );
        }
        if four is Ok {
            let after = Sidebar { history: old(fourth).history, ..*final(fourth) };
            lemma_moved_back_writes(
                *old(fourth),
                after,
                old_path.text(),
                new_path.text(),
                redone.persist,
            );
        }
    }
}

proof fn lemma_moved_back_writes(
    before: Sidebar,
    after: Sidebar,
    from: PathText,
    to: PathText,
    persist: bool,
)
    requires
        before.moved_back(after, from, to, persist),
    ensures
        writes_changes(before.tree.fold, after.tree.fold, persist),
{
    let (middle, a, b) = choose|middle: Sidebar, a: bool, b: bool|
        {
            &&& #[trigger] before.renamed(middle, crate::path::components(from), to, a)
            &&& #[trigger] middle.shown_at(after, to, b)
            &&& persist == (a || b)
        };
    lemma_renamed_writes(before, middle, crate::path::components(from), to, a);
    lemma_shown_writes(middle, after, to, b);
    lemma_writes_twice(before.tree.fold, middle.tree.fold, after.tree.fold, a, b);
}

/// What a click on a row, or a row of the menu, does to the record is written.
pub proof fn law_clicks_are_written(
    first: &mut Sidebar,
    second: &mut Sidebar,
    path: &FilePath,
    is_dir: bool,
    modifiers: ClickModifiers,
    click: RowClick,
    action: MenuAction,
    dirs: &PathSet,
    work: MenuWork,
)
    requires
        call_ensures(Sidebar::tree_row_clicked, (first, path, is_dir, modifiers), click),
        call_ensures(Sidebar::run_tree_menu_action, (second, action, dirs), work),
        old(second).history.backup_counter + old(second).menu_deletes() <= u64::MAX,
    ensures
        writes_changes(
            old(first).tree.fold,
            final(first).tree.fold,
            click matches RowClick::Folded { persist } && persist,
        ),
        writes_changes(
            old(second).tree.fold,
            final(second).tree.fold,
            match work {
                MenuWork::Folded { persist } => persist,
                MenuWork::EditorOpened { persist } => persist,
                _ => false,
            },
        ),
{
    if let RowClick::Folded { persist } = click {
        lemma_writes(old(first).tree.fold, final(first).tree.fold, persist);
    }
    if final(second).tree.fold != old(second).tree.fold {
        match work {
            MenuWork::Folded { persist } => {
                lemma_writes(old(second).tree.fold, final(second).tree.fold, persist);
            },
            MenuWork::EditorOpened { persist } => {
                lemma_writes(old(second).tree.fold, final(second).tree.fold, persist);
            },
            _ => {},
        }
    }
}

/// What a new folder or a drop reveals is written, and so is what a deletion
/// that was taken back does.
pub proof fn law_revealed_rows_are_written(
    first: &mut Sidebar,
    second: &mut Sidebar,
    third: &mut Sidebar,
    destination: &FilePath,
    name: &str,
    made: TreeEffects,
    run: DropRun,
    moved: TreeEffects,
    entry: TreeUndoEntry,
    restored: TreeEffects,
    outcome: FolderOutcome,
)
    requires
        call_ensures(Sidebar::finish_new_folder, (first, destination, name, outcome), made),
        call_ensures(Sidebar::finish_drops, (second, run), moved),
        call_ensures(Sidebar::finish_undo, (third, entry, Ok(())), restored),
        entry is Delete,
    ensures
        writes_changes(old(first).tree.fold, final(first).tree.fold, made.persist),
        writes_changes(old(second).tree.fold, final(second).tree.fold, moved.persist),
        writes_changes(old(third).tree.fold, final(third).tree.fold, restored.persist),
{
    if outcome is Created {
        lemma_shown_writes(
            old(first).without_editor(),
            *final(first),
            destination.text(),
            made.persist,
        );
    }
    if run.last is Some {
        lemma_writes(old(second).tree.fold, final(second).tree.fold, moved.persist);
    }
    lemma_writes(old(third).tree.fold, final(third).tree.fold, restored.persist);
}

} // verus!
