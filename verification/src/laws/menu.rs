use vstd::prelude::*;

use crate::laws::folding::{lemma_starts_with, starts_with};
use crate::laws::is_at;
use crate::laws::selection::is_selected;
use crate::menu::{MenuAction, MenuWork};
use crate::moves::PasteStep;
use crate::path::{components, file_name, is_under, parent, shown, FilePath, PathText, PathView};
use crate::path_set::{given, PathSet};
use crate::selection::TreeSelection;
use crate::state::{ContextTarget, InlineEditKind, Sidebar};
use crate::undo::ticket_views;

verus! {

/// The entry that a menu is about, where it is about one.
pub open spec fn one_entry(target: ContextTarget) -> Option<FilePath> {
    match target {
        ContextTarget::File(path) => Some(path),
        ContextTarget::Folder(path) => Some(path),
        _ => None,
    }
}

/// Whether `dir` is where a menu about `target` puts things: the directory
/// itself, that of a file, or the root.
pub open spec fn puts_into(target: ContextTarget, root: PathView, dir: PathView) -> bool {
    match target {
        ContextTarget::Folder(path) => dir == path@,
        ContextTarget::File(path) => parent(path@) == Some(dir) || parent(path@) is None && dir
            == root,
        ContextTarget::Empty => dir == root,
        ContextTarget::Multiple(_) => dir == root,
    }
}

proof fn lemma_puts_into(target: ContextTarget, root: FilePath)
    ensures
        puts_into(target, root@, components(target@.landing(root.text()))),
{
    if let ContextTarget::File(path) = target {
        crate::path::lemma_parent_text(path.text());
    }
}

/// New and pasted entries land in the directory that the menu is about, in
/// that of the file, or in the root.
pub proof fn law_destination(target: &ContextTarget, root: &FilePath, dir: FilePath)
    requires
        call_ensures(ContextTarget::destination_dir, (target, root), dir),
    ensures
        puts_into(*target, root@, dir@),
{
    lemma_puts_into(*target, *root);
}

/// A menu opened on a row that is not one of several selected ones is about
/// that row, which is selected alone; on none it is about the empty area and
/// nothing is selected. Whatever was being typed is given up.
pub proof fn law_menu_is_about_its_row(
    sidebar: &mut Sidebar,
    target: ContextTarget,
    several: bool,
    other: PathView,
)
    requires
        call_ensures(Sidebar::open_tree_context_menu, (sidebar, target), ()),
        call_ensures(TreeSelection::several, (&sidebar.selection,), several),
        !(target is Multiple),
        !several || !(one_entry(target) matches Some(path) && is_selected(
            old(sidebar).selection,
            path@,
        )),
    ensures
        final(sidebar).inline_edit is None,
        final(sidebar).op_error is None,
        match one_entry(target) {
            Some(path) => is_at(final(sidebar).selection.anchor, path.text()) && is_selected(
                final(sidebar).selection,
                other,
            ) == (other == path@),
            None => !is_selected(final(sidebar).selection, other),
        },
        match (target, final(sidebar).context_menu) {
            (ContextTarget::File(a), Some(ContextTarget::File(b))) => a.text() == b.text(),
            (ContextTarget::Folder(a), Some(ContextTarget::Folder(b))) => a.text() == b.text(),
            (ContextTarget::Empty, Some(ContextTarget::Empty)) => true,
            _ => false,
        },
        final(sidebar).tree == old(sidebar).tree,
        final(sidebar).docs == old(sidebar).docs,
        final(sidebar).clipboard == old(sidebar).clipboard,
{
}

/// A menu opened on one of several selected rows is about all of them, and
/// they stay selected.
pub proof fn law_menu_is_about_the_selection(
    sidebar: &mut Sidebar,
    target: ContextTarget,
    several: bool,
    paths: Vec<FilePath>,
    path: PathView,
)
    requires
        call_ensures(Sidebar::open_tree_context_menu, (sidebar, target), ()),
        call_ensures(TreeSelection::several, (&sidebar.selection,), several),
        several,
        one_entry(target) matches Some(entry) && is_selected(old(sidebar).selection, entry@),
        final(sidebar).context_menu == Some(ContextTarget::Multiple(paths)),
    ensures
        is_selected(old(sidebar).selection, path) <==> exists|k: int|
            0 <= k < paths@.len() && (#[trigger] paths@[k])@ == path,
        final(sidebar).selection == old(sidebar).selection,
        final(sidebar).inline_edit is None,
{
    let order = given(paths@);
    let read = crate::path_set::read(order);
    assert(read.len() == paths@.len());
    assert forall|k: int| 0 <= k < read.len() implies read[k] == (#[trigger] paths@[k])@ by {
        assert(order[k] == paths@[k].text());
    }
    assert(read.to_set().contains(path) == old(sidebar).selection.selected().contains(path));
    if is_selected(old(sidebar).selection, path) {
        let k = read.index_of(path);
        assert(paths@[k]@ == path);
    }
    if exists|k: int| 0 <= k < paths@.len() && (#[trigger] paths@[k])@ == path {
        let k = choose|k: int| 0 <= k < paths@.len() && (#[trigger] paths@[k])@ == path;
        assert(read.contains(read[k]));
    }
}

/// Several rows make the menu one about several.
pub proof fn law_several_rows_make_one_menu(
    sidebar: &mut Sidebar,
    target: ContextTarget,
    several: bool,
)
    requires
        call_ensures(Sidebar::open_tree_context_menu, (sidebar, target), ()),
        call_ensures(TreeSelection::several, (&sidebar.selection,), several),
        several,
        one_entry(target) matches Some(entry) && is_selected(old(sidebar).selection, entry@),
    ensures
        final(sidebar).context_menu matches Some(ContextTarget::Multiple(_)),
{
}

/// From the keyboard the menu is about the selected row, a directory where the
/// tree has it as one; where nothing of the tree is selected it is about the
/// empty area.
pub proof fn law_menu_from_the_keyboard(sidebar: &mut Sidebar, on_disk: bool)
    requires
        call_ensures(Sidebar::open_tree_context_menu_from_keyboard, (sidebar, on_disk), ()),
        old(sidebar).selection.additional@ == Set::<PathView>::empty(),
    ensures
        (match old(sidebar).selection.anchor {
            Some(path) => if !is_under(path@, old(sidebar).tree.fold.root@) {
                final(sidebar).context_menu matches Some(ContextTarget::Empty)
            } else {
                match final(sidebar).context_menu {
                    Some(ContextTarget::File(shown)) => shown.text() == path.text(),
                    Some(ContextTarget::Folder(shown)) => shown.text() == path.text(),
                    _ => false,
                }
            },
            None => final(sidebar).context_menu matches Some(ContextTarget::Empty),
        }),
        old(sidebar).selection.anchor matches Some(path) && is_under(
            path@,
            old(sidebar).tree.fold.root@,
        ) && (forall|i: int|
            0 <= i < old(sidebar).tree.entries@.len()
                ==> (#[trigger] old(sidebar).tree.entries@[i]).path@ != path@) ==> (if on_disk {
            final(sidebar).context_menu matches Some(ContextTarget::Folder(_))
        } else {
            final(sidebar).context_menu matches Some(ContextTarget::File(_))
        }),
        final(sidebar).tree == old(sidebar).tree,
{
    assert(old(sidebar).selection.additional@.len() == 0);
    if let Some(path) = old(sidebar).selection.anchor {
        crate::laws::lemma_no_entry_at(old(sidebar).tree.entries@, path@);
    }
}

/// Running a row of the menu closes it; without a menu nothing is run.
pub proof fn law_running_closes_the_menu(
    sidebar: &mut Sidebar,
    action: MenuAction,
    dirs: &PathSet,
    work: MenuWork,
)
    requires
        call_ensures(Sidebar::run_tree_menu_action, (sidebar, action, dirs), work),
        old(sidebar).history.backup_counter + old(sidebar).menu_deletes() <= u64::MAX,
    ensures
        final(sidebar).context_menu is None,
        old(sidebar).context_menu is None ==> work is Nothing && *final(sidebar) == *old(sidebar),
        final(sidebar).tree.entries == old(sidebar).tree.entries,
        final(sidebar).docs == old(sidebar).docs,
        final(sidebar).changes == old(sidebar).changes,
        final(sidebar).selection == old(sidebar).selection,
        final(sidebar).history.undo_stack == old(sidebar).history.undo_stack,
        final(sidebar).history.redo_stack == old(sidebar).history.redo_stack,
{
}

/// What the rows for one entry do: Open opens it, Cut and Copy put it on the
/// clipboard, Rename starts from its name, Duplicate asks for a name beside
/// it, and the file manager is shown it, or the directory that it lies in.
pub proof fn law_rows_for_an_entry(
    sidebar: &mut Sidebar,
    action: MenuAction,
    dirs: &PathSet,
    work: MenuWork,
    entry: FilePath,
)
    requires
        call_ensures(Sidebar::run_tree_menu_action, (sidebar, action, dirs), work),
        old(sidebar).history.backup_counter + old(sidebar).menu_deletes() <= u64::MAX,
        old(sidebar).context_menu matches Some(target) && one_entry(target) == Some(entry),
    ensures
        action is Open ==> (work matches MenuWork::OpenFile(opened) && opened.text()
            == entry.text()),
        action is Cut ==> (final(sidebar).clipboard matches Some(held) && held.path.text()
            == entry.text() && held.mode is Cut),
        action is Copy ==> (final(sidebar).clipboard matches Some(held) && held.path.text()
            == entry.text() && held.mode is Copy),
        !(action is Cut || action is Copy || action is Paste) ==> final(sidebar).clipboard
            == old(sidebar).clipboard,
        action is Rename && entry@ != old(sidebar).tree.fold.root@
            ==> (final(sidebar).inline_edit matches Some(edit)
            && (edit.kind matches InlineEditKind::Rename { path, .. }
            && path.text() == entry.text()) && (file_name(entry@) matches Some(name) ==> edit.name@
            == name)),
        action is Duplicate ==> (work matches MenuWork::Duplicate(query) && (
        query matches Some(asked) ==> asked.source.text() == entry.text() && parent(entry@) == Some(
            asked.dir@,
        ) && file_name(entry@) == Some(asked.name@)) && (parent(entry@) is Some && file_name(
            entry@,
        ) is Some ==> query is Some)),
        action is CopyPath ==> (work matches MenuWork::CopyText(text) && text@ == shown(
            entry.text(),
        )),
        action is CopyRelativePath && is_under(entry@, old(sidebar).tree.fold.root@) ==> (
        work matches MenuWork::CopyText(text) && exists|rest: PathText|
            text@ == #[trigger] shown(rest) && old(sidebar).tree.fold.root@ + components(rest)
                == entry@),
        action is Reveal ==> (work matches MenuWork::Reveal(dir) && if dirs@.contains(entry@) {
            dir.text() == entry.text()
        } else {
            parent(entry@) is Some ==> parent(entry@) == Some(dir@)
        }),
{
    crate::path::lemma_parent_text(entry.text());
    let root = old(sidebar).tree.fold.root@;
    if action is CopyRelativePath && is_under(entry@, root) {
        let rest = crate::path::text_from_root(entry.text(), root);
        crate::path::lemma_from_root(entry.text(), root);
        assert(root + entry@.skip(root.len() as int) =~= entry@);
        assert(work->CopyText_0@ == shown(rest));
    }
}

/// New entries are typed, and pasted ones asked for, in the directory that the
/// menu puts things into.
pub proof fn law_rows_for_a_directory(
    sidebar: &mut Sidebar,
    action: MenuAction,
    dirs: &PathSet,
    work: MenuWork,
    target: ContextTarget,
)
    requires
        call_ensures(Sidebar::run_tree_menu_action, (sidebar, action, dirs), work),
        old(sidebar).history.backup_counter + old(sidebar).menu_deletes() <= u64::MAX,
        old(sidebar).context_menu == Some(target),
    ensures
        action is NewFile ==> (final(sidebar).inline_edit matches Some(edit) && edit.name@.len()
            == 0 && (edit.kind matches InlineEditKind::NewFile { parent: dir } && puts_into(
            target,
            old(sidebar).tree.fold.root@,
            dir@,
        ))),
        action is NewFolder ==> (final(sidebar).inline_edit matches Some(edit) && edit.name@.len()
            == 0 && (edit.kind matches InlineEditKind::NewFolder { parent: dir } && puts_into(
            target,
            old(sidebar).tree.fold.root@,
            dir@,
        ))),
        action is Paste ==> (work matches MenuWork::Paste(step) && (
        step matches PasteStep::Find(query, mode) ==> puts_into(
            target,
            old(sidebar).tree.fold.root@,
            query.dir@,
        ) && (old(sidebar).clipboard matches Some(held) && held.path.text() == query.source.text()
            && held.mode == mode))),
        action is Paste && (old(sidebar).clipboard matches Some(held) && held.mode is Copy
            && file_name(held.path@) is Some) ==> (work matches MenuWork::Paste(step)
            && step is Find),
{
    lemma_puts_into(target, old(sidebar).tree.fold.root);
}

/// Collapsing from the menu leaves nothing expanded at the entry or below it,
/// or nothing at all, and nothing else changes.
pub proof fn law_rows_that_collapse(
    sidebar: &mut Sidebar,
    action: MenuAction,
    dirs: &PathSet,
    work: MenuWork,
    target: ContextTarget,
    dir: PathView,
)
    requires
        call_ensures(Sidebar::run_tree_menu_action, (sidebar, action, dirs), work),
        old(sidebar).history.backup_counter + old(sidebar).menu_deletes() <= u64::MAX,
        old(sidebar).context_menu == Some(target),
    ensures
        action is CollapseAll ==> !final(sidebar).tree.fold.expanded@.contains(dir),
        action is CollapseSubtree && one_entry(target) is Some
            ==> (final(sidebar).tree.fold.expanded@.contains(dir) <==> old(sidebar).tree.fold.expanded@.contains(dir)
            && !starts_with(dir, one_entry(target)->0@)),
        !(action is CollapseAll || action is CollapseSubtree || action is NewFile
            || action is NewFolder) ==> final(sidebar).tree == old(sidebar).tree,
{
    if let Some(entry) = one_entry(target) {
        lemma_starts_with(dir, entry@);
    }
}

/// Deleting from the menu is of the entry that it is about, or of those of the
/// several that lie plainly below the root, and of nothing where it is about
/// the empty area.
pub proof fn law_delete_from_the_menu(
    sidebar: &mut Sidebar,
    dirs: &PathSet,
    work: MenuWork,
    target: ContextTarget,
)
    requires
        call_ensures(
            Sidebar::run_tree_menu_action,
            (sidebar, MenuAction::Delete, dirs),
            work,
        ),
        old(sidebar).history.backup_counter + old(sidebar).menu_deletes() <= u64::MAX,
        old(sidebar).context_menu == Some(target),
    ensures
        target is Empty ==> work is Nothing,
        one_entry(target) matches Some(entry) ==> (work matches MenuWork::Delete(tickets)
            && tickets@.len() <= 1 && (tickets@.len() == 1 ==> tickets@[0].path.text()
            == entry.text() && tickets@[0].is_dir == target is Folder) && (tickets@.len() == 1)
            == crate::path::inside(old(sidebar).tree.fold.root@, entry@)),
        target matches ContextTarget::Multiple(paths) ==> (work matches MenuWork::Delete(tickets)
            && forall|k: int|
            0 <= k < tickets@.len() ==> exists|i: int|
                0 <= i < paths@.len() && (#[trigger] paths@[i]).text() == (
                #[trigger] tickets@[k]).path.text()),
        target matches ContextTarget::Multiple(paths) ==> (work matches MenuWork::Delete(tickets)
            && forall|i: int|
            0 <= i < paths@.len() && crate::path::inside(
                old(sidebar).tree.fold.root@,
                (#[trigger] paths@[i])@,
            ) ==> exists|k: int|
                0 <= k < tickets@.len() && (#[trigger] tickets@[k]).path.text()
                    == paths@[i].text()),
{
    if let ContextTarget::Multiple(paths) = target {
        let root = old(sidebar).tree.fold.root@;
        let tickets = work->Delete_0;
        let at = crate::laws::deletion::lemma_deletable(paths@, root);
        let views = ticket_views(tickets@);
        assert(views.len() == tickets@.len());
        assert forall|k: int| 0 <= k < tickets@.len() implies (#[trigger] tickets@[k]).path.text()
            == paths@[at[k]].text() && 0 <= at[k] < paths@.len() by {
            assert(views[k] == tickets@[k]@);
            assert(at[k] == at[k]);
        }
        let kept = |i: int| crate::laws::deletion::plainly_below(paths@[i]@, root);
        assert forall|i: int| 0 <= i < paths@.len() && crate::path::inside(
            root,
            (#[trigger] paths@[i])@,
        ) implies exists|k: int|
            0 <= k < tickets@.len() && (#[trigger] tickets@[k]).path.text() == paths@[i].text() by {
            crate::laws::deletion::lemma_plainly_below(paths@[i]@, root);
            assert(kept(i));
            let k = at.index_of(i);
            assert(at[k] == i);
            assert(tickets@[k].path.text() == paths@[i].text());
        }
    }
}

/// From the keyboard the menu is about a directory where the tree has the
/// selected row as one, or the disk says so, and about a file where not; and
/// Rename takes it as what the menu has it for.
pub proof fn law_menu_knows_the_kind(
    first: &mut Sidebar,
    second: &mut Sidebar,
    on_disk: bool,
    tree: &crate::tree::FileTree,
    path: &FilePath,
    is_dir: bool,
    dirs: &PathSet,
    work: MenuWork,
)
    requires
        call_ensures(Sidebar::open_tree_context_menu_from_keyboard, (first, on_disk), ()),
        old(first).selection.additional@ == Set::<PathView>::empty(),
        old(first).selection.anchor == Some(*path),
        is_under(path@, old(first).tree.fold.root@),
        path@ != old(first).tree.fold.root@,
        *tree == old(first).tree,
        call_ensures(crate::tree::FileTree::is_dir_at, (tree, path, on_disk), is_dir),
        *second == *final(first),
        old(second).history.backup_counter < u64::MAX,
        call_ensures(
            Sidebar::run_tree_menu_action,
            (second, MenuAction::Rename, dirs),
            work,
        ),
    ensures
        is_dir ==> (final(first).context_menu matches Some(ContextTarget::Folder(shown))
            && shown.text() == path.text()),
        !is_dir ==> (final(first).context_menu matches Some(ContextTarget::File(shown))
            && shown.text() == path.text()),
        final(second).inline_edit matches Some(edit) && (edit.kind matches InlineEditKind::Rename {
            path: renamed,
            is_dir: kind,
        } && renamed.text() == path.text() && kind == is_dir),
{
    assert(old(first).selection.additional@.len() == 0);
}

} // verus!
