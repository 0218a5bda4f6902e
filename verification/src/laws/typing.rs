use vstd::prelude::*;
use vstd::string::*;

use crate::inline_edit::{EditStep, FolderOutcome, KeyOutcome, KeyPress};
use crate::laws::{is_at, says};
use crate::moves::{MoveRequest, OperationOutcome};
use crate::path::{
    components, file_name, is_name, is_under, lemma_components_of_name, lemma_joined,
    lemma_name_is_no_root, parent, FilePath,
};
use crate::spelling::chars;
use crate::state::{InlineEditKind, Sidebar, TreeEffects};

verus! {

/// A key that is pressed without Control, Alt or the platform's key.
pub open spec fn is_bare_key(press: KeyPress) -> bool {
    !press.platform && !press.control && !press.alt
}

/// A key that types: it has a text, and is none of the three that act.
pub open spec fn types(press: KeyPress, text: Seq<char>) -> bool {
    &&& is_bare_key(press)
    &&& press.key@ != "escape"@
    &&& press.key@ != "enter"@
    &&& press.key@ != "backspace"@
    &&& text.len() > 0
    &&& press.text matches Some(typed) && typed@ == text
}

proof fn lemma_keys_differ()
    ensures
        "backspace"@ != "escape"@,
        "backspace"@ != "enter"@,
        "enter"@ != "escape"@,
{
    reveal_strlit("backspace");
    reveal_strlit("escape");
    reveal_strlit("enter");
    assert("backspace"@.len() == 9 && "escape"@.len() == 6 && "enter"@.len() == 5);
}

/// Backspace takes the last character off the name, and no other: what is left
/// are the characters before it, in their order. An empty name stays empty.
pub proof fn law_backspace_takes_one_character(
    sidebar: &mut Sidebar,
    press: &KeyPress,
    outcome: KeyOutcome,
)
    requires
        call_ensures(Sidebar::handle_tree_key_down, (sidebar, press), outcome),
        is_bare_key(*press),
        press.key@ == "backspace"@,
        old(sidebar).inline_edit is Some,
    ensures
        outcome is NameChanged,
        final(sidebar).inline_edit is Some,
        ({
            let before = old(sidebar).inline_edit->0.name@;
            let after = final(sidebar).inline_edit->0.name@;
            &&& before.len() == 0 ==> after.len() == 0
            &&& before.len() > 0 ==> after.len() == before.len() - 1
            &&& forall|i: int| 0 <= i < after.len() ==> #[trigger] after[i] == before[i]
        }),
        final(sidebar).inline_edit->0.error is None,
{
    lemma_keys_differ();
}

/// A key with a text puts that text behind the name, and takes the hint about
/// the old name away.
pub proof fn law_typing_goes_behind_the_name(
    sidebar: &mut Sidebar,
    press: &KeyPress,
    outcome: KeyOutcome,
    text: Seq<char>,
)
    requires
        call_ensures(Sidebar::handle_tree_key_down, (sidebar, press), outcome),
        types(*press, text),
        old(sidebar).inline_edit is Some,
    ensures
        outcome is NameChanged,
        final(sidebar).inline_edit is Some,
        final(sidebar).inline_edit->0.name@.len() == old(sidebar).inline_edit->0.name@.len()
            + text.len(),
        final(sidebar).inline_edit->0.name@.take(old(sidebar).inline_edit->0.name@.len() as int)
            == old(sidebar).inline_edit->0.name@,
        final(sidebar).inline_edit->0.name@.skip(old(sidebar).inline_edit->0.name@.len() as int)
            == text,
        final(sidebar).inline_edit->0.error is None,
{
    let before = old(sidebar).inline_edit->0.name@;
    assert((before + text).take(before.len() as int) =~= before);
    assert((before + text).skip(before.len() as int) =~= text);
}

/// Typing one character and taking it back leaves the name as it was.
pub proof fn law_typed_and_taken_back(
    first: &mut Sidebar,
    second: &mut Sidebar,
    press: &KeyPress,
    back: &KeyPress,
    typed: KeyOutcome,
    taken: KeyOutcome,
    text: Seq<char>,
)
    requires
        call_ensures(Sidebar::handle_tree_key_down, (first, press), typed),
        *second == *final(first),
        call_ensures(Sidebar::handle_tree_key_down, (second, back), taken),
        types(*press, text),
        text.len() == 1,
        is_bare_key(*back),
        back.key@ == "backspace"@,
        old(first).inline_edit is Some,
    ensures
        final(second).inline_edit is Some,
        final(second).inline_edit->0.name@ == old(first).inline_edit->0.name@,
{
    law_typing_goes_behind_the_name(first, press, typed, text);
    law_backspace_takes_one_character(second, back, taken);
    let name = old(first).inline_edit->0.name@;
    let longer = final(first).inline_edit->0.name@;
    assert forall|i: int| 0 <= i < name.len() implies longer[i] == name[i] by {
        assert(longer.take(name.len() as int)[i] == longer[i]);
    }
    assert(final(second).inline_edit->0.name@ =~= name);
}

/// Whatever key is pressed, what the name is for stays: the same new entry in
/// the same directory, or the same entry that gets a new name. Nothing outside
/// the field and the menu changes.
pub proof fn law_keys_touch_the_name_alone(
    sidebar: &mut Sidebar,
    press: &KeyPress,
    outcome: KeyOutcome,
)
    requires
        call_ensures(Sidebar::handle_tree_key_down, (sidebar, press), outcome),
    ensures
        final(sidebar).tree == old(sidebar).tree,
        final(sidebar).selection == old(sidebar).selection,
        final(sidebar).clipboard == old(sidebar).clipboard,
        final(sidebar).docs == old(sidebar).docs,
        final(sidebar).changes == old(sidebar).changes,
        final(sidebar).history == old(sidebar).history,
        final(sidebar).op_error == old(sidebar).op_error,
        final(sidebar).inline_edit matches Some(after)
            ==> (old(sidebar).inline_edit matches Some(before) && match (before.kind, after.kind) {
            (InlineEditKind::NewFile { parent: a }, InlineEditKind::NewFile { parent: b }) => {
                a.text() == b.text()
            },
            (InlineEditKind::NewFolder { parent: a }, InlineEditKind::NewFolder { parent: b }) => {
                a.text() == b.text()
            },
            (
                InlineEditKind::Rename { path: a, is_dir: was },
                InlineEditKind::Rename { path: b, is_dir },
            ) => a.text() == b.text() && was == is_dir,
            _ => false,
        }),
{
}

/// Escape gives the name up, Enter asks for it to be used and keeps it as it
/// is, and a key with Control, Alt or the platform's key is somebody else's.
pub proof fn law_escape_enter_and_shortcuts(
    sidebar: &mut Sidebar,
    press: &KeyPress,
    outcome: KeyOutcome,
)
    requires
        call_ensures(Sidebar::handle_tree_key_down, (sidebar, press), outcome),
        old(sidebar).inline_edit is Some,
    ensures
        !is_bare_key(*press) ==> outcome is Ignored && *final(sidebar) == *old(sidebar),
        is_bare_key(*press) && press.key@ == "escape"@ ==> outcome is EditCancelled
            && final(sidebar).inline_edit is None,
        is_bare_key(*press) && press.key@ == "enter"@ ==> outcome is Commit
            && final(sidebar).inline_edit is Some && final(sidebar).inline_edit->0.name@
            == old(sidebar).inline_edit->0.name@,
        outcome is EditCancelled <==> final(sidebar).inline_edit is None,
        final(sidebar).context_menu == old(sidebar).context_menu,
{
    lemma_keys_differ();
}

/// With no name typed, Escape closes an open menu, and no other key does
/// anything.
pub proof fn law_escape_closes_the_menu(
    sidebar: &mut Sidebar,
    press: &KeyPress,
    outcome: KeyOutcome,
)
    requires
        call_ensures(Sidebar::handle_tree_key_down, (sidebar, press), outcome),
        old(sidebar).inline_edit is None,
    ensures
        final(sidebar).inline_edit is None,
        is_bare_key(*press) && press.key@ == "escape"@ ==> final(sidebar).context_menu is None,
        outcome is MenuClosed == (is_bare_key(*press) && press.key@ == "escape"@
            && old(sidebar).context_menu is Some),
        !(is_bare_key(*press) && press.key@ == "escape"@) ==> *final(sidebar) == *old(sidebar)
            && outcome is Ignored,
{
}

/// A new entry is typed from an empty name, in the directory that was asked
/// for, which is expanded, and with it nothing else.
pub proof fn law_new_entry_starts_empty_in_its_directory(
    sidebar: &mut Sidebar,
    dir: FilePath,
    is_dir: bool,
    persist: bool,
)
    requires
        call_ensures(Sidebar::start_tree_new_entry, (sidebar, dir, is_dir), persist),
    ensures
        final(sidebar).inline_edit matches Some(edit) && edit.name@.len() == 0 && edit.error is None
            && match edit.kind {
            InlineEditKind::NewFile { parent } => !is_dir && parent.text() == dir.text(),
            InlineEditKind::NewFolder { parent } => is_dir && parent.text() == dir.text(),
            InlineEditKind::Rename { .. } => false,
        },
        dir@ != old(sidebar).tree.fold.root@ ==> final(sidebar).tree.fold.expanded@.contains(dir@),
        forall|other: crate::path::PathView|
            other != dir@ ==> #[trigger] final(sidebar).tree.fold.expanded@.contains(other)
                == old(sidebar).tree.fold.expanded@.contains(other),
        final(sidebar).tree.entries == old(sidebar).tree.entries,
        final(sidebar).selection == old(sidebar).selection,
        final(sidebar).docs == old(sidebar).docs,
        final(sidebar).changes == old(sidebar).changes,
        final(sidebar).history == old(sidebar).history,
{
}

/// A rename is typed from the name that the entry has. The root gets none.
pub proof fn law_rename_starts_from_the_name(sidebar: &mut Sidebar, path: FilePath, is_dir: bool)
    requires
        call_ensures(Sidebar::start_tree_rename, (sidebar, path, is_dir), ()),
    ensures
        path@ != old(sidebar).tree.fold.root@ ==> (final(sidebar).inline_edit matches Some(edit)
            && edit.error is None && (edit.kind matches InlineEditKind::Rename {
            path: renamed,
            is_dir: kind,
        } && renamed.text() == path.text() && kind == is_dir) && (match file_name(path@) {
            Some(name) => edit.name@ == name,
            None => edit.name@.len() == 0,
        })),
        path@ == old(sidebar).tree.fold.root@ ==> (final(sidebar).inline_edit is Some
            == old(sidebar).inline_edit is Some),
        final(sidebar).tree == old(sidebar).tree,
        final(sidebar).selection == old(sidebar).selection,
        final(sidebar).docs == old(sidebar).docs,
        final(sidebar).history == old(sidebar).history,
{
}

/// The selected row is renamed where it is the only one and lies below the
/// root; several rows are not.
pub proof fn law_rename_needs_one_selected_row(sidebar: &mut Sidebar, on_disk: bool)
    requires
        call_ensures(Sidebar::start_tree_rename_for_selection, (sidebar, on_disk), ()),
    ensures
        old(sidebar).selection.additional@.len() > 0
            && old(sidebar).selection.additional@.finite()
            || old(sidebar).selection.anchor is None ==> (final(sidebar).inline_edit is Some
            == old(sidebar).inline_edit is Some),
        old(sidebar).selection.additional@ == Set::<crate::path::PathView>::empty()
            && (old(sidebar).selection.anchor matches Some(path)
            && is_under(path@, old(sidebar).tree.fold.root@)
            && path@ != old(sidebar).tree.fold.root@)
                ==> (final(sidebar).inline_edit matches Some(edit)
                && (edit.kind matches InlineEditKind::Rename { path, .. }
            && path.text() == old(sidebar).selection.anchor->0.text())),
        final(sidebar).tree == old(sidebar).tree,
        final(sidebar).selection == old(sidebar).selection,
{
}

/// A name that was found bad leaves the field open, with what was typed and
/// why it cannot be used.
pub proof fn law_bad_name_keeps_the_field(
    sidebar: &mut Sidebar,
    checked: Result<String, String>,
    step: EditStep,
)
    requires
        call_ensures(Sidebar::commit_tree_inline_edit, (sidebar, checked), step),
        old(sidebar).inline_edit is Some,
        checked is Err,
    ensures
        step is Refused,
        final(sidebar).inline_edit matches Some(edit) && edit.name@
            == old(sidebar).inline_edit->0.name@ && says(edit.error, checked->Err_0@),
        final(sidebar).tree == old(sidebar).tree,
        final(sidebar).docs == old(sidebar).docs,
{
}

/// A new entry is made in the directory that its field is in, under the name
/// that was found good.
pub proof fn law_new_entry_is_made_where_it_was_typed(
    sidebar: &mut Sidebar,
    checked: Result<String, String>,
    step: EditStep,
)
    requires
        call_ensures(Sidebar::commit_tree_inline_edit, (sidebar, checked), step),
        old(sidebar).inline_edit is Some,
        checked is Ok,
        is_name(chars(checked->Ok_0@)),
    ensures
        old(sidebar).inline_edit->0.kind matches InlineEditKind::NewFile { parent: dir } ==> (
        step matches EditStep::CreateFile { parent: asked, name } && asked.text() == dir.text()
            && name@ == checked->Ok_0@),
        old(sidebar).inline_edit->0.kind matches InlineEditKind::NewFolder { parent: dir } ==> (
        step matches EditStep::CreateFolder { destination, name } && destination@ == dir@.push(
            chars(checked->Ok_0@),
        ) && name@ == checked->Ok_0@),
{
    let name = checked->Ok_0@;
    lemma_components_of_name(name);
    lemma_name_is_no_root(chars(name));
    if let InlineEditKind::NewFolder { parent: dir } = old(sidebar).inline_edit->0.kind {
        lemma_joined(dir.text(), crate::path::letters(name));
        assert(components(dir.text()) + seq![chars(name)] =~= dir@.push(chars(name)));
        assert(crate::path::join(dir@, seq![chars(name)]) =~= dir@.push(chars(name)));
    }
}

/// A rename moves the entry inside its own directory, to the name that was
/// found good; the name that it has already moves nothing and closes the
/// field.
pub proof fn law_rename_stays_in_its_directory(
    sidebar: &mut Sidebar,
    checked: Result<String, String>,
    step: EditStep,
    path: FilePath,
    is_dir: bool,
)
    requires
        call_ensures(Sidebar::commit_tree_inline_edit, (sidebar, checked), step),
        old(sidebar).inline_edit matches Some(edit) && edit.kind == (InlineEditKind::Rename {
            path,
            is_dir,
        }),
        checked is Ok,
        is_name(chars(checked->Ok_0@)),
        parent(path@) is Some,
    ensures
        path@.last() == chars(checked->Ok_0@) ==> step is Closed
            && final(sidebar).inline_edit is None,
        path@.last() != chars(checked->Ok_0@) ==> (step matches EditStep::Move(request)
            && request.source.text() == path.text() && request.destination@
            == path@.drop_last().push(chars(checked->Ok_0@))),
{
    let name = checked->Ok_0@;
    let above = crate::path::text_parent(path.text());
    lemma_components_of_name(name);
    lemma_name_is_no_root(chars(name));
    lemma_joined(above, crate::path::letters(name));
    crate::path::lemma_parent_text(path.text());
    let dir = path@.drop_last();
    assert(crate::path::join(dir, seq![chars(name)]) =~= dir.push(chars(name)));
    assert(path@ =~= dir.push(path@.last()));
    if path@.last() != chars(name) {
        assert(dir.push(chars(name)).last() == chars(name));
    }
}

/// A rename that the disk refused leaves everything as it was but for the
/// hint in the field, and one that it did closes the field and can be taken
/// back.
pub proof fn law_finished_rename(
    sidebar: &mut Sidebar,
    request: MoveRequest,
    outcome: Result<(), String>,
    done: OperationOutcome,
)
    requires
        call_ensures(Sidebar::finish_rename, (sidebar, request, outcome), done),
    ensures
        outcome is Ok ==> final(sidebar).inline_edit is None && done.effects.refresh
            && final(sidebar).history.undo_stack@.len()
            == old(sidebar).history.undo_stack@.len() + 1
            && (final(sidebar).history.undo_stack@.last() matches crate::history::TreeUndoEntry::Relocate {
            old_path,
            new_path,
        } && old_path.text() == request.source.text() && new_path.text()
            == request.destination.text()) && final(sidebar).history.redo_stack@.len() == 0,
        outcome is Err ==> final(sidebar).tree == old(sidebar).tree && final(sidebar).docs
            == old(sidebar).docs && final(sidebar).history == old(sidebar).history
            && final(sidebar).changes == old(sidebar).changes && final(sidebar).selection
            == old(sidebar).selection && !done.effects.refresh
            && (old(sidebar).inline_edit matches Some(edit)
                ==> (final(sidebar).inline_edit matches Some(kept) && kept.name@ == edit.name@
                && says(kept.error, outcome->Err_0@))),
{
    if outcome is Ok {
        crate::laws::lemma_last_undo(
            final(sidebar).history,
            old(sidebar).history.undos(),
            crate::history::UndoView::Relocate {
                old_path: request.source.text(),
                new_path: request.destination.text(),
            },
        );
        assert(final(sidebar).history.redos().len() == final(sidebar).history.redo_stack@.len());
    }
}

/// A folder that was made is selected and shown, and its field is closed; one
/// that was not keeps the field, which says why.
pub proof fn law_finished_folder(
    sidebar: &mut Sidebar,
    destination: &FilePath,
    name: &str,
    outcome: FolderOutcome,
    effects: TreeEffects,
)
    requires
        call_ensures(Sidebar::finish_new_folder, (sidebar, destination, name, outcome), effects),
    ensures
        effects.refresh == outcome is Created,
        outcome is Created ==> final(sidebar).inline_edit is None
            && (is_at(final(sidebar).selection.anchor, destination.text())),
        !(outcome is Created) ==> final(sidebar).tree == old(sidebar).tree
            && final(sidebar).selection == old(sidebar).selection
            && (final(sidebar).inline_edit is Some == old(sidebar).inline_edit is Some),
        outcome matches FolderOutcome::Failed(message)
            ==> (final(sidebar).inline_edit matches Some(kept) ==> says(kept.error, message@)),
        outcome is AlreadyExists ==> (final(sidebar).inline_edit matches Some(kept) ==> says(
            kept.error,
            "\""@ + name@ + "\" already exists"@,
        )),
        final(sidebar).docs == old(sidebar).docs,
        final(sidebar).changes == old(sidebar).changes,
        final(sidebar).history == old(sidebar).history,
{
}

/// A file that was made closes its field; one that was not keeps it, with what
/// was typed and why not.
pub proof fn law_finished_file(
    sidebar: &mut Sidebar,
    outcome: Result<(), String>,
    effects: TreeEffects,
)
    requires
        call_ensures(Sidebar::finish_new_file, (sidebar, outcome), effects),
    ensures
        effects.refresh == outcome is Ok,
        outcome is Ok ==> final(sidebar).inline_edit is None,
        outcome is Err && old(sidebar).inline_edit is Some
            ==> (final(sidebar).inline_edit matches Some(kept) && kept.name@
            == old(sidebar).inline_edit->0.name@ && says(kept.error, outcome->Err_0@)),
        final(sidebar).tree == old(sidebar).tree,
        final(sidebar).selection == old(sidebar).selection,
        final(sidebar).docs == old(sidebar).docs,
        final(sidebar).history == old(sidebar).history,
{
}

/// What the field's own undo and redo leave in it is the name from then on.
pub proof fn law_restored_name(sidebar: &mut Sidebar, restored: Option<String>)
    requires
        call_ensures(Sidebar::replace_inline_name, (sidebar, restored), ()),
        old(sidebar).inline_edit is Some,
    ensures
        final(sidebar).inline_edit is Some,
        restored matches Some(name) ==> final(sidebar).inline_edit->0.name@ == name@
            && final(sidebar).inline_edit->0.error is None,
        restored is None ==> final(sidebar).inline_edit->0.name@
            == old(sidebar).inline_edit->0.name@,
        final(sidebar).tree == old(sidebar).tree,
{
}

/// A key without a text that is none of the three that act leaves the name and
/// its hint as they were.
pub proof fn law_other_keys_do_nothing(
    sidebar: &mut Sidebar,
    press: &KeyPress,
    outcome: KeyOutcome,
)
    requires
        call_ensures(Sidebar::handle_tree_key_down, (sidebar, press), outcome),
        old(sidebar).inline_edit is Some,
        press.key@ != "escape"@,
        press.key@ != "enter"@,
        press.key@ != "backspace"@,
        press.text matches Some(text) ==> text@.len() == 0,
    ensures
        outcome is Ignored,
        final(sidebar).inline_edit is Some,
        final(sidebar).inline_edit->0.name@ == old(sidebar).inline_edit->0.name@,
        match (old(sidebar).inline_edit->0.error, final(sidebar).inline_edit->0.error) {
            (Some(before), Some(after)) => before@ == after@,
            (None, None) => true,
            _ => false,
        },
        final(sidebar).context_menu == old(sidebar).context_menu,
{
}

/// Without a field there is nothing to use; and while the disk is asked the
/// field stays as it is.
pub proof fn law_field_waits_for_the_disk(
    sidebar: &mut Sidebar,
    checked: Result<String, String>,
    step: EditStep,
)
    requires
        call_ensures(Sidebar::commit_tree_inline_edit, (sidebar, checked), step),
    ensures
        old(sidebar).inline_edit is None ==> step is Nothing && *final(sidebar) == *old(sidebar),
        step is CreateFile || step is CreateFolder || step is Move ==> (
        final(sidebar).inline_edit matches Some(kept) && kept.name@
            == old(sidebar).inline_edit->0.name@),
        old(sidebar).inline_edit is Some && checked is Ok ==> !(step is Nothing) && !(
        step is Refused),
        final(sidebar).tree == old(sidebar).tree,
        final(sidebar).selection == old(sidebar).selection,
        final(sidebar).docs == old(sidebar).docs,
        final(sidebar).history == old(sidebar).history,
{
}

/// The selected row is renamed as what it is: a directory where the tree has it
/// as one, or the disk says so.
pub proof fn law_rename_knows_the_kind(
    sidebar: &mut Sidebar,
    on_disk: bool,
    tree: &crate::tree::FileTree,
    path: &FilePath,
    is_dir: bool,
)
    requires
        call_ensures(Sidebar::start_tree_rename_for_selection, (sidebar, on_disk), ()),
        old(sidebar).selection.additional@ == Set::<crate::path::PathView>::empty(),
        old(sidebar).selection.anchor == Some(*path),
        is_under(path@, old(sidebar).tree.fold.root@),
        path@ != old(sidebar).tree.fold.root@,
        *tree == old(sidebar).tree,
        call_ensures(crate::tree::FileTree::is_dir_at, (tree, path, on_disk), is_dir),
    ensures
        final(sidebar).inline_edit matches Some(edit) && (edit.kind matches InlineEditKind::Rename {
            path: renamed,
            is_dir: kind,
        } && renamed.text() == path.text() && kind == is_dir) && (file_name(
            path@,
        ) matches Some(name) ==> edit.name@ == name),
{
}

} // verus!
