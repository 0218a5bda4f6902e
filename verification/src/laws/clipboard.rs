use vstd::prelude::*;
use vstd::string::*;

use crate::history::TreeUndoEntry;
use crate::laws::{is_at, says};
use crate::moves::{
    CopyRequest, DestinationQuery, DropRun, MoveRequest, OperationOutcome, PasteStep, PasteWork,
};
use crate::path::{components, file_name, is_under, parent, shown, FilePath, PathText, PathView};
use crate::state::{ClipboardMode, Sidebar, TreeEffects};

verus! {

/// Whenever a paste into a directory asks for a free name, it asks in that
/// directory, for what was cut or copied, under the name that it has; and it
/// does so for everything but what was cut and lies there already.
pub proof fn law_paste_asks_where_it_was_pasted(
    sidebar: &mut Sidebar,
    dir: &FilePath,
    step: PasteStep,
)
    requires
        call_ensures(Sidebar::paste_into_dir, (sidebar, dir), step),
    ensures
        step matches PasteStep::Find(query, mode) ==> {
            &&& query.dir.text() == dir.text()
            &&& old(sidebar).clipboard matches Some(entry) && query.source.text()
                == entry.path.text() && mode == entry.mode && file_name(entry.path@) == Some(
                query.name@,
            )
        },
        step is AlreadyThere ==> (old(sidebar).clipboard matches Some(entry) && entry.mode is Cut
            && parent(entry.path@) == Some(dir@)),
        old(sidebar).clipboard matches Some(entry) && entry.mode is Cut && file_name(
            entry.path@,
        ) is Some && parent(entry.path@) == Some(dir@) ==> step is AlreadyThere,
        old(sidebar).clipboard is None ==> step is Nothing,
        old(sidebar).clipboard matches Some(entry) && file_name(entry.path@) is Some && (
        entry.mode is Copy || parent(entry.path@) != Some(dir@)) ==> step is Find,
        final(sidebar).clipboard is Some == (old(sidebar).clipboard is Some && !(
        step is AlreadyThere)),
        final(sidebar).tree == old(sidebar).tree,
        final(sidebar).docs == old(sidebar).docs,
        final(sidebar).history == old(sidebar).history,
        final(sidebar).op_error == old(sidebar).op_error,
{
}

/// A paste where the selection says asks in the selected directory, in the
/// directory of the selected file, or in the root where nothing of the tree is
/// selected.
pub proof fn law_paste_goes_by_the_selection(
    sidebar: &mut Sidebar,
    on_disk: bool,
    step: PasteStep,
    query: DestinationQuery,
    mode: ClipboardMode,
)
    requires
        call_ensures(Sidebar::paste_into_selection, (sidebar, on_disk), step),
        step == PasteStep::Find(query, mode),
    ensures
        old(sidebar).selection.anchor is None ==> query.dir@ == old(sidebar).tree.fold.root@,
        old(sidebar).selection.anchor matches Some(path) ==> {
            &&& !is_under(path@, old(sidebar).tree.fold.root@) ==> query.dir@
                == old(sidebar).tree.fold.root@
            &&& is_under(path@, old(sidebar).tree.fold.root@) ==> query.dir@ == path@ || parent(
                path@,
            ) == Some(query.dir@) || query.dir@ == old(sidebar).tree.fold.root@ && parent(
                path@,
            ) is None
            &&& is_under(path@, old(sidebar).tree.fold.root@) && on_disk && (forall|i: int|
                0 <= i < old(sidebar).tree.entries@.len()
                    ==> (#[trigger] old(sidebar).tree.entries@[i]).path@ != path@)
                    ==> query.dir@ == path@
            &&& is_under(path@, old(sidebar).tree.fold.root@) && parent(path@) is Some && !on_disk
                && (forall|i: int|
                0 <= i < old(sidebar).tree.entries@.len()
                    ==> (#[trigger] old(sidebar).tree.entries@[i]).path@ != path@)
                    ==> parent(path@) == Some(query.dir@)
        },
        old(sidebar).clipboard matches Some(entry) && query.source.text() == entry.path.text()
            && mode == entry.mode,
{
    if let Some(path) = old(sidebar).selection.anchor {
        crate::path::lemma_parent_text(path.text());
        crate::laws::lemma_no_entry_at(old(sidebar).tree.entries@, path@);
    }
}

/// What was cut is moved and what was copied is copied, from where it lies to
/// the free name; without one nothing is asked of the disk.
pub proof fn law_cut_moves_and_copy_copies(
    sidebar: &mut Sidebar,
    query: DestinationQuery,
    mode: ClipboardMode,
    found: Result<FilePath, String>,
    work: PasteWork,
)
    requires
        call_ensures(Sidebar::paste_to, (sidebar, query, mode, found), work),
    ensures
        work is Move <==> found is Ok && mode is Cut,
        work is Copy <==> found is Ok && mode is Copy,
        work matches PasteWork::Move(request) ==> request.source.text() == query.source.text()
            && request.destination.text() == found->Ok_0.text(),
        work matches PasteWork::Copy(request) ==> request.source.text() == query.source.text()
            && request.destination.text() == found->Ok_0.text(),
        found is Ok ==> *final(sidebar) == *old(sidebar),
        found is Err ==> says(final(sidebar).op_error, found->Err_0@),
        final(sidebar).clipboard == old(sidebar).clipboard,
        final(sidebar).tree == old(sidebar).tree,
{
}

/// A cut and its paste, from one call to the next: what the disk is asked to
/// move is what was cut, and the free name was asked for in the directory that
/// was pasted into.
pub proof fn law_paste_from_end_to_end(
    first: &mut Sidebar,
    second: &mut Sidebar,
    third: &mut Sidebar,
    path: FilePath,
    mode: ClipboardMode,
    dir: &FilePath,
    query: DestinationQuery,
    found: FilePath,
    work: PasteWork,
)
    requires
        call_ensures(Sidebar::set_tree_clipboard, (first, path, mode), ()),
        *second == *final(first),
        call_ensures(Sidebar::paste_into_dir, (second, dir), PasteStep::Find(query, mode)),
        *third == *final(second),
        call_ensures(Sidebar::paste_to, (third, query, mode, Ok(found)), work),
    ensures
        query.dir.text() == dir.text(),
        mode is Cut ==> (work matches PasteWork::Move(request) && request.source.text()
            == path.text() && request.destination.text() == found.text()),
        mode is Copy ==> (work matches PasteWork::Copy(request) && request.source.text()
            == path.text() && request.destination.text() == found.text()),
        final(third).clipboard matches Some(entry) && entry.path.text() == path.text(),
{
}

/// What is cut or copied is the selected row, where it lies below the root;
/// otherwise what was on the clipboard stays there.
pub proof fn law_the_selected_row_is_captured(sidebar: &mut Sidebar, mode: ClipboardMode)
    requires
        call_ensures(Sidebar::copy_selection_to_tree_clipboard, (sidebar, mode), ()),
    ensures
        (old(sidebar).selection.anchor matches Some(path) && is_under(
            path@,
            old(sidebar).tree.fold.root@,
        ) && path@ != old(sidebar).tree.fold.root@)
            ==> (final(sidebar).clipboard matches Some(entry) && entry.mode == mode
            && entry.path.text() == old(sidebar).selection.anchor->0.text()),
        !(old(sidebar).selection.anchor matches Some(path) && is_under(
            path@,
            old(sidebar).tree.fold.root@,
        ) && path@ != old(sidebar).tree.fold.root@) ==> (match (
            old(sidebar).clipboard,
            final(sidebar).clipboard,
        ) {
            (Some(before), Some(after)) => before.path.text() == after.path.text() && before.mode
                == after.mode,
            (None, None) => true,
            _ => false,
        }),
        final(sidebar).selection == old(sidebar).selection,
        final(sidebar).tree == old(sidebar).tree,
        final(sidebar).docs == old(sidebar).docs,
{
}

/// Once what was cut has been moved it is cut no longer, it is the selected
/// row where it lies now, and the move can be taken back: it is the latest of
/// what can, from where it lay to where it lies.
pub proof fn law_moved_by_paste(
    sidebar: &mut Sidebar,
    request: MoveRequest,
    outcome: Result<(), String>,
    done: OperationOutcome,
)
    requires
        call_ensures(Sidebar::finish_paste_move, (sidebar, request, outcome), done),
    ensures
        outcome is Ok ==> {
            &&& done.effects.refresh
            &&& final(sidebar).clipboard is None
            &&& is_at(final(sidebar).selection.anchor, request.destination.text())
            &&& final(sidebar).history.undo_stack@.len()
                == old(sidebar).history.undo_stack@.len() + 1
            &&& final(sidebar).history.undo_stack@.last() matches TreeUndoEntry::Relocate {
                old_path,
                new_path,
            } && old_path.text() == request.source.text() && new_path.text()
                == request.destination.text()
            &&& final(sidebar).history.redo_stack@.len() == 0
        },
        outcome is Err ==> {
            &&& !done.effects.refresh
            &&& says(final(sidebar).op_error, outcome->Err_0@)
            &&& final(sidebar).clipboard == old(sidebar).clipboard
            &&& final(sidebar).docs == old(sidebar).docs
            &&& final(sidebar).history == old(sidebar).history
            &&& final(sidebar).tree == old(sidebar).tree
            &&& final(sidebar).selection == old(sidebar).selection
        },
{
    if outcome is Ok {
        let (middle, first, second) = choose|middle: Sidebar, first: bool, second: bool|
            {
                &&& #[trigger] old(sidebar).relocated(
                    middle,
                    request.source.text(),
                    request.destination.text(),
                    first,
                    done.dropped@,
                )
                &&& #[trigger] middle.without_clipboard().shown_at(
                    *final(sidebar),
                    request.destination.text(),
                    second,
                )
                &&& done.effects.persist == (first || second)
            };
        assert(final(sidebar).history == middle.history);
        crate::laws::lemma_last_undo(
            final(sidebar).history,
            old(sidebar).history.undos(),
            crate::history::UndoView::Relocate {
                old_path: request.source.text(),
                new_path: request.destination.text(),
            },
        );
        assert(final(sidebar).history.redos().len() == final(sidebar).history.redo_stack@.len());
    }
}

/// A copy that was made is the selected row. What was copied stays on the
/// clipboard, no tab moves, and there is nothing to take back.
pub proof fn law_copy_moves_nothing(
    sidebar: &mut Sidebar,
    request: CopyRequest,
    outcome: Result<(), String>,
    effects: TreeEffects,
)
    requires
        call_ensures(Sidebar::finish_copy, (sidebar, request, outcome), effects),
    ensures
        effects.refresh == outcome is Ok,
        outcome is Ok ==> (is_at(final(sidebar).selection.anchor, request.destination.text()))
            && final(sidebar).op_error == old(sidebar).op_error,
        outcome is Err ==> (says(final(sidebar).op_error, outcome->Err_0@))
            && final(sidebar).selection == old(sidebar).selection && final(sidebar).tree
            == old(sidebar).tree,
        final(sidebar).clipboard == old(sidebar).clipboard,
        final(sidebar).docs == old(sidebar).docs,
        final(sidebar).changes == old(sidebar).changes,
        final(sidebar).history == old(sidebar).history,
{
}

/// A duplicate is a copy of the entry, in the entry's own directory, for which
/// a name like its own is asked.
pub proof fn law_duplicate_lies_beside(
    sidebar: &Sidebar,
    path: &FilePath,
    query: Option<DestinationQuery>,
)
    requires
        call_ensures(Sidebar::duplicate_tree_entry, (sidebar, path), query),
    ensures
        query matches Some(asked) ==> asked.source.text() == path.text() && parent(path@) == Some(
            asked.dir@,
        ) && file_name(path@) == Some(asked.name@),
        parent(path@) is Some && file_name(path@) is Some ==> query is Some,
{
    crate::path::lemma_parent_text(path.text());
}

/// A duplicate is copied to the name that was found, and without one nothing is
/// asked of the disk.
pub proof fn law_duplicate_is_a_copy(
    sidebar: &mut Sidebar,
    query: DestinationQuery,
    found: Result<FilePath, String>,
    request: Option<CopyRequest>,
)
    requires
        call_ensures(Sidebar::duplicate_to, (sidebar, query, found), request),
    ensures
        request is Some == found is Ok,
        request matches Some(asked) ==> asked.source.text() == query.source.text()
            && asked.destination.text() == found->Ok_0.text(),
        found is Err ==> says(final(sidebar).op_error, found->Err_0@),
        final(sidebar).tree == old(sidebar).tree,
        final(sidebar).clipboard == old(sidebar).clipboard,
{
}

/// A drop on a directory asks for a free name in that directory, for the
/// entry that was dropped. Only an entry of that directory, one without a name
/// and one that the directory lies in are left where they are, and only the
/// last is told of.
pub proof fn law_drop_asks_where_it_was_dropped(
    sidebar: &mut Sidebar,
    source: &FilePath,
    dir: &FilePath,
    query: Option<DestinationQuery>,
)
    requires
        call_ensures(Sidebar::plan_drop, (sidebar, source, dir), query),
    ensures
        query matches Some(asked) ==> {
            &&& asked.source.text() == source.text()
            &&& asked.dir.text() == dir.text()
            &&& file_name(source@) == Some(asked.name@)
            &&& !is_under(dir@, source@)
            &&& parent(source@) != Some(dir@)
        },
        file_name(source@) is Some && parent(source@) != Some(dir@) && !is_under(dir@, source@)
            ==> query is Some,
        file_name(source@) is Some && parent(source@) != Some(dir@) && is_under(dir@, source@)
            ==> final(sidebar).op_error is Some,
        file_name(source@) is None || parent(source@) == Some(dir@) || query is Some
            ==> (final(sidebar).op_error is Some == old(sidebar).op_error is Some),
        final(sidebar).tree == old(sidebar).tree,
        final(sidebar).docs == old(sidebar).docs,
        final(sidebar).history == old(sidebar).history,
        final(sidebar).clipboard == old(sidebar).clipboard,
{
}

/// A run of drops takes every entry in its turn: the one that it asks for is
/// the first from where it stood on that can be moved, and it ends only where
/// none is left that can.
pub proof fn law_run_takes_every_entry_in_turn(
    sidebar: &mut Sidebar,
    run: &mut DropRun,
    query: Option<DestinationQuery>,
)
    requires
        call_ensures(Sidebar::next_drop, (sidebar, run), query),
        old(run).next <= old(run).sources@.len(),
    ensures
        final(run).sources == old(run).sources,
        final(run).dir == old(run).dir,
        final(run).last == old(run).last,
        query matches Some(asked) ==> {
            let at = final(run).next - 1;
            &&& old(run).next <= at < old(run).sources@.len()
            &&& asked.source.text() == old(run).sources@[at].text()
            &&& asked.dir.text() == old(run).dir.text()
            &&& file_name(old(run).sources@[at]@) == Some(asked.name@)
            &&& forall|k: int|
                old(run).next <= k < at ==> {
                    let source = (#[trigger] old(run).sources@[k])@;
                    file_name(source) is None || parent(source) == Some(old(run).dir@) || is_under(
                        old(run).dir@,
                        source,
                    )
                }
        },
        query is None ==> final(run).next == old(run).sources@.len() && forall|k: int|
            old(run).next <= k < old(run).sources@.len() ==> {
                let source = (#[trigger] old(run).sources@[k])@;
                file_name(source) is None || parent(source) == Some(old(run).dir@) || is_under(
                    old(run).dir@,
                    source,
                )
            },
        final(sidebar).tree == old(sidebar).tree,
        final(sidebar).docs == old(sidebar).docs,
        final(sidebar).history == old(sidebar).history,
{
    let sources = crate::path_set::given(old(run).sources@);
    assert(sources.len() == old(run).sources@.len());
    assert forall|k: int| old(run).next <= k < old(run).sources@.len() implies sources[k] == (
    #[trigger] old(run).sources@[k]).text() by {
    }
    if query is Some {
        let at = final(run).next - 1;
        assert(sources[at] == old(run).sources@[at].text());
    }
}

/// A run starts with the entries that were dropped, on the directory that they
/// were dropped on.
pub proof fn law_run_starts_with_everything(
    sidebar: &Sidebar,
    sources: Vec<FilePath>,
    dir: FilePath,
    run: DropRun,
)
    requires
        call_ensures(Sidebar::move_paths_into_dir, (sidebar, sources, dir), run),
    ensures
        run.sources == sources,
        run.dir == dir,
        run.next == 0,
        run.last is None,
{
}

/// What was found for a dropped entry is where it is moved to.
pub proof fn law_drop_moves_what_was_dropped(
    sidebar: &mut Sidebar,
    query: DestinationQuery,
    found: Result<FilePath, String>,
    request: Option<MoveRequest>,
)
    requires
        call_ensures(Sidebar::drop_to, (sidebar, query, found), request),
    ensures
        request is Some == found is Ok,
        request matches Some(asked) ==> asked.source.text() == query.source.text()
            && asked.destination.text() == found->Ok_0.text(),
        found is Err ==> says(final(sidebar).op_error, found->Err_0@),
        final(sidebar).tree == old(sidebar).tree,
        final(sidebar).history == old(sidebar).history,
{
}

/// An entry that was moved by a drop can be taken back to where it lay; one
/// that was not changes nothing but the message.
pub proof fn law_moved_by_drop(
    sidebar: &mut Sidebar,
    run: &mut DropRun,
    request: MoveRequest,
    outcome: Result<(), String>,
    done: OperationOutcome,
)
    requires
        call_ensures(Sidebar::finish_drop, (sidebar, run, request, outcome), done),
    ensures
        outcome is Ok ==> {
            &&& final(run).last matches Some(last) && last.text() == request.destination.text()
            &&& final(sidebar).history.undo_stack@.len()
                == old(sidebar).history.undo_stack@.len() + 1
            &&& final(sidebar).history.undo_stack@.last() matches TreeUndoEntry::Relocate {
                old_path,
                new_path,
            } && old_path.text() == request.source.text() && new_path.text()
                == request.destination.text()
        },
        outcome is Err ==> {
            &&& says(final(sidebar).op_error, outcome->Err_0@)
            &&& final(sidebar).docs == old(sidebar).docs
            &&& final(sidebar).history == old(sidebar).history
            &&& final(sidebar).tree == old(sidebar).tree
            &&& final(run).last == old(run).last
        },
        final(run).next == old(run).next,
        final(run).sources == old(run).sources,
{
    if outcome is Ok {
        crate::laws::lemma_last_undo(
            final(sidebar).history,
            old(sidebar).history.undos(),
            crate::history::UndoView::Relocate {
                old_path: request.source.text(),
                new_path: request.destination.text(),
            },
        );
    }
}

/// After a drop the entry that was moved last is the one selected row; where
/// none was moved, nothing changes.
pub proof fn law_drop_selects_the_last(
    sidebar: &mut Sidebar,
    run: DropRun,
    effects: TreeEffects,
)
    requires
        call_ensures(Sidebar::finish_drops, (sidebar, run), effects),
    ensures
        run.last is None ==> *final(sidebar) == *old(sidebar) && !effects.refresh,
        run.last matches Some(last) ==> {
            &&& effects.refresh
            &&& is_at(final(sidebar).selection.anchor, last.text())
            &&& final(sidebar).selection.additional@ == Set::<PathView>::empty()
            &&& final(sidebar).docs == old(sidebar).docs
            &&& final(sidebar).history == old(sidebar).history
            &&& final(sidebar).clipboard == old(sidebar).clipboard
        },
{
}

/// The text of a whole path is the path as it is shown, and that of a relative
/// one is what is left of it below the root.
pub proof fn law_copied_path_text(sidebar: &Sidebar, path: &FilePath, relative: bool, text: String)
    requires
        call_ensures(Sidebar::path_for_clipboard, (sidebar, path, relative), text),
    ensures
        !relative || !is_under(path@, sidebar.tree.fold.root@) ==> text@ == shown(path.text()),
        relative && is_under(path@, sidebar.tree.fold.root@) ==> exists|rest: PathText|
            text@ == #[trigger] shown(rest) && sidebar.tree.fold.root@ + components(rest) == path@,
{
    if relative && is_under(path@, sidebar.tree.fold.root@) {
        let root = sidebar.tree.fold.root@;
        let rest = crate::path::text_from_root(path.text(), root);
        crate::path::lemma_from_root(path.text(), root);
        assert(root + path@.skip(root.len() as int) =~= path@);
        assert(text@ == shown(rest));
    }
}

/// The file manager is shown a directory: the one that was asked for, or that
/// of a file.
pub proof fn law_file_manager_shows_the_directory(
    sidebar: &Sidebar,
    path: &FilePath,
    is_dir: bool,
    dir: FilePath,
)
    requires
        call_ensures(Sidebar::reveal_in_file_manager, (sidebar, path, is_dir), dir),
    ensures
        is_dir ==> dir.text() == path.text(),
        !is_dir && parent(path@) is Some ==> parent(path@) == Some(dir@),
        !is_dir && parent(path@) is None ==> dir@ == sidebar.tree.fold.root@,
{
    crate::path::lemma_parent_text(path.text());
}

/// An entry of a directory has the directory's path and then its name.
pub proof fn law_path_of_an_entry(dir: &FilePath, name: &str, path: FilePath)
    requires
        call_ensures(crate::moves::entry_path, (dir, name), path),
        crate::path::is_name(crate::spelling::chars(name@)),
    ensures
        path@ == dir@.push(crate::spelling::chars(name@)),
{
    let part = crate::spelling::chars(name@);
    crate::path::lemma_components_of_name(name@);
    crate::path::lemma_joined(dir.text(), crate::path::letters(name@));
    assert(crate::path::all_names(seq![part]));
    crate::laws::lemma_join_names(dir@, seq![part]);
    assert(dir@ + seq![part] =~= dir@.push(part));
}

/// Where a paste would go is where it goes.
pub proof fn law_paste_goes_where_it_would(
    sidebar: &mut Sidebar,
    on_disk: bool,
    step: PasteStep,
    query: DestinationQuery,
    mode: ClipboardMode,
    dir: FilePath,
)
    requires
        call_ensures(Sidebar::paste_into_selection, (sidebar, on_disk), step),
        step == PasteStep::Find(query, mode),
        exists|before: &Sidebar|
            *before == *old(sidebar) && #[trigger] call_ensures(
                Sidebar::paste_destination,
                (before, on_disk),
                dir,
            ),
    ensures
        query.dir.text() == dir.text(),
{
}

/// A drop of an entry into itself or below itself is told of by its path.
pub proof fn law_drop_into_itself_is_told(
    sidebar: &mut Sidebar,
    source: &FilePath,
    dir: &FilePath,
    query: Option<DestinationQuery>,
)
    requires
        call_ensures(Sidebar::plan_drop, (sidebar, source, dir), query),
        file_name(source@) is Some,
        parent(source@) != Some(dir@),
        is_under(dir@, source@),
    ensures
        query is None,
        says(
            final(sidebar).op_error,
            "can't move "@ + shown(source.text()) + " into its own subtree"@,
        ),
{
}

/// A paste by the selection goes into the selected entry where it is a
/// directory, as the tree has it or the disk says, and beside it where not.
pub proof fn law_paste_by_kind(
    sidebar: &mut Sidebar,
    on_disk: bool,
    step: PasteStep,
    query: DestinationQuery,
    mode: ClipboardMode,
    tree: &crate::tree::FileTree,
    path: &FilePath,
    is_dir: bool,
)
    requires
        call_ensures(Sidebar::paste_into_selection, (sidebar, on_disk), step),
        step == PasteStep::Find(query, mode),
        *tree == old(sidebar).tree,
        old(sidebar).selection.anchor == Some(*path),
        is_under(path@, old(sidebar).tree.fold.root@),
        call_ensures(crate::tree::FileTree::is_dir_at, (tree, path, on_disk), is_dir),
    ensures
        is_dir ==> query.dir.text() == path.text(),
        !is_dir && parent(path@) is Some ==> parent(path@) == Some(query.dir@),
{
    crate::path::lemma_parent_text(path.text());
}

/// What a run of drops says is of the last entry that it was asked to drop into
/// itself, among those that it went by; where there was none, it says nothing
/// new.
pub proof fn law_run_tells_of_the_last(
    sidebar: &mut Sidebar,
    run: &mut DropRun,
    query: Option<DestinationQuery>,
    at: int,
)
    requires
        call_ensures(Sidebar::next_drop, (sidebar, run), query),
        old(run).next <= old(run).sources@.len(),
        old(run).next - 1 <= at < final(run).next,
        old(run).next <= at ==> into_itself(old(run).sources@[at]@, old(run).dir@),
        forall|k: int|
            at < k < final(run).next && old(run).next <= k ==> !into_itself(
                (#[trigger] old(run).sources@[k])@,
                old(run).dir@,
            ),
    ensures
        old(run).next <= at ==> says(
            final(sidebar).op_error,
            "can't move "@ + shown(old(run).sources@[at].text()) + " into its own subtree"@,
        ),
        at < old(run).next ==> match (old(sidebar).op_error, final(sidebar).op_error) {
            (Some(before), Some(after)) => before@ == after@,
            (None, None) => true,
            _ => false,
        },
{
    let sources = crate::path_set::given(old(run).sources@);
    let seen = sources.subrange(old(run).next as int, final(run).next as int);
    lemma_told(
        crate::text::option_text(old(sidebar).op_error),
        old(run).sources@,
        old(run).dir,
        old(run).next as int,
        final(run).next as int,
        at,
    );
}

/// Whether an entry would land in itself: it has a name, it does not lie in the
/// directory, and the directory is the entry or lies below it.
pub open spec fn into_itself(source: PathView, dir: PathView) -> bool {
    &&& file_name(source) is Some
    &&& parent(source) != Some(dir)
    &&& is_under(dir, source)
}

proof fn lemma_told(
    error: Option<Seq<char>>,
    sources: Seq<FilePath>,
    dir: FilePath,
    from: int,
    to: int,
    at: int,
)
    requires
        0 <= from <= to <= sources.len(),
        from - 1 <= at < to,
        from <= at ==> into_itself(sources[at]@, dir@),
        forall|k: int| at < k < to && from <= k ==> !into_itself((#[trigger] sources[k])@, dir@),
    ensures
        crate::moves::error_after_drops(
            error,
            crate::path_set::given(sources).subrange(from, to),
            dir.text(),
        ) == if from <= at {
            Some("can't move "@ + shown(sources[at].text()) + " into its own subtree"@)
        } else {
            error
        },
    decreases to - from,
{
    let all = crate::path_set::given(sources);
    let seen = all.subrange(from, to);
    if from < to {
        assert(seen.last() == sources[to - 1].text());
        assert(seen.drop_last() =~= all.subrange(from, to - 1));
        if at < to - 1 {
            assert(!into_itself(sources[to - 1]@, dir@));
            lemma_told(error, sources, dir, from, to - 1, at);
        }
    }
}

/// What is put on the clipboard is there, to be copied or moved as was asked,
/// and nothing else changes.
pub proof fn law_put_on_the_clipboard(sidebar: &mut Sidebar, path: FilePath, mode: ClipboardMode)
    requires
        call_ensures(Sidebar::set_tree_clipboard, (sidebar, path, mode), ()),
    ensures
        final(sidebar).clipboard matches Some(entry) && entry.path.text() == path.text()
            && entry.mode == mode,
        final(sidebar).selection == old(sidebar).selection,
        final(sidebar).tree == old(sidebar).tree,
        final(sidebar).docs == old(sidebar).docs,
        final(sidebar).op_error == old(sidebar).op_error,
{
}

} // verus!
