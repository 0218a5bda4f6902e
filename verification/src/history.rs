use vstd::prelude::*;
use vstd::string::*;

use crate::path::{
    components, file_name, is_name, lemma_components_of_name, lemma_joined, lemma_name_is_no_root,
    lemma_shown_name, letters, text_joined, FilePath, PathText, PathView,
};
use crate::spelling::{chars, dot_part, dots_part, letter, slash};
use crate::text::{
    concat3, decimal, decimal_text, lemma_decimal_digits, lemma_decimal_injective, texts,
};

verus! {

/// How a deleted entry leaves the disk.
pub enum DeleteMechanism {
    /// A command moves it to the trash.
    Trash { program: String, args: Vec<String> },
    Permanent,
}

pub enum MechanismView {
    Trash { program: Seq<char>, args: Seq<Seq<char>> },
    Permanent,
}

impl View for DeleteMechanism {
    type V = MechanismView;

    open spec fn view(&self) -> MechanismView {
        match self {
            DeleteMechanism::Trash { program, args } => MechanismView::Trash {
                program: program@,
                args: texts(args@),
            },
            DeleteMechanism::Permanent => MechanismView::Permanent,
        }
    }
}

impl DeleteMechanism {
    /// The same way once more.
    pub fn copy(&self) -> (copy: DeleteMechanism)
        ensures
            copy@ == self@,
    {
        match self {
            DeleteMechanism::Trash { program, args } => {
                let mut list: Vec<String> = Vec::new();
                let mut i: usize = 0;
                while i < args.len()
                    invariant
                        i <= args@.len(),
                        texts(list@) == texts(args@).take(i as int),
                    decreases args@.len() - i,
                {
                    let ghost before = texts(list@);
                    list.push(args[i].clone());
                    assert(texts(list@) =~= before.push(args@[i as int]@));
                    assert(texts(list@) =~= texts(args@).take(i + 1));
                    i += 1;
                }
                assert(texts(list@) =~= texts(args@));
                DeleteMechanism::Trash { program: program.clone(), args: list }
            },
            DeleteMechanism::Permanent => DeleteMechanism::Permanent,
        }
    }
}

/// An operation on the tree that can be taken back.
pub enum TreeUndoEntry {
    /// A rename or a move.
    Relocate { old_path: FilePath, new_path: FilePath },
    /// A deletion, where its copy is kept, and how the entry left the disk,
    /// which is how it leaves it when it is deleted again.
    Delete {
        original_path: FilePath,
        is_dir: bool,
        backup_path: FilePath,
        mechanism: DeleteMechanism,
    },
}

pub enum UndoView {
    Relocate { old_path: PathText, new_path: PathText },
    Delete {
        original_path: PathText,
        is_dir: bool,
        backup_path: PathText,
        mechanism: MechanismView,
    },
}

impl View for TreeUndoEntry {
    type V = UndoView;

    open spec fn view(&self) -> UndoView {
        match self {
            TreeUndoEntry::Relocate { old_path, new_path } => UndoView::Relocate {
                old_path: old_path.text(),
                new_path: new_path.text(),
            },
            TreeUndoEntry::Delete { original_path, is_dir, backup_path, mechanism } => {
                UndoView::Delete {
                    original_path: original_path.text(),
                    is_dir: *is_dir,
                    backup_path: backup_path.text(),
                    mechanism: mechanism@,
                }
            },
        }
    }
}

pub open spec fn undo_views(entries: Seq<TreeUndoEntry>) -> Seq<UndoView> {
    entries.map_values(|entry: TreeUndoEntry| entry@)
}

/// A copy of a deleted entry.
pub struct Backup {
    pub path: FilePath,
    pub is_dir: bool,
}

pub type BackupView = (PathText, bool);

pub open spec fn backup_views(backups: Seq<Backup>) -> Seq<BackupView> {
    backups.map_values(|backup: Backup| (backup.path.text(), backup.is_dir))
}

/// The copies that belong to the entries, in their order.
pub open spec fn backups_of(entries: Seq<UndoView>) -> Seq<BackupView>
    decreases entries.len(),
{
    if entries.len() == 0 {
        seq![]
    } else {
        let before = backups_of(entries.drop_last());
        match entries.last() {
            UndoView::Delete { is_dir, backup_path, .. } => before.push((backup_path, is_dir)),
            UndoView::Relocate { .. } => before,
        }
    }
}

/// What can be taken back, and what can be done again, the latest last.
pub struct TreeHistory {
    pub undo_stack: Vec<TreeUndoEntry>,
    pub redo_stack: Vec<TreeUndoEntry>,
    /// The directory that copies of deleted entries are kept in.
    pub backup_root: FilePath,
    /// The number of the next copy.
    pub backup_counter: u64,
}

/// The name of the copy numbered `counter` of the entry at `original`.
pub open spec fn backup_name(counter: nat, original: PathView) -> Seq<char> {
    decimal(counter) + "-"@ + match file_name(original) {
        Some(name) => name,
        None => "entry"@,
    }
}

/// The copy that belongs to an entry; a relocation has none.
pub fn cleanup_tree_undo_backup(entry: &TreeUndoEntry) -> (backup: Option<Backup>)
    ensures
        backup matches Some(copy) ==> entry@ matches UndoView::Delete { is_dir, backup_path, .. }
            && copy.path.text() == backup_path && copy.is_dir == is_dir,
        backup is None ==> entry@ is Relocate,
{
    match entry {
        TreeUndoEntry::Delete { backup_path, is_dir, .. } => Some(
            Backup { path: backup_path.clone(), is_dir: *is_dir },
        ),
        TreeUndoEntry::Relocate { .. } => None,
    }
}

/// The copies that belong to a list of entries.
pub fn collect_backups(entries: &Vec<TreeUndoEntry>) -> (backups: Vec<Backup>)
    ensures
        backup_views(backups@) == backups_of(undo_views(entries@)),
{
    let ghost all = undo_views(entries@);
    let mut backups: Vec<Backup> = Vec::new();
    assert(backup_views(backups@) =~= backups_of(all.take(0)));
    let mut i: usize = 0;
    while i < entries.len()
        invariant
            i <= entries.len(),
            all == undo_views(entries@),
            backup_views(backups@) == backups_of(all.take(i as int)),
        decreases entries.len() - i,
    {
        let ghost before = backup_views(backups@);
        assert(all.take(i + 1).drop_last() =~= all.take(i as int));
        assert(all.take(i + 1).last() == entries@[i as int]@);
        match cleanup_tree_undo_backup(&entries[i]) {
            Some(backup) => {
                backups.push(backup);
                assert(backup_views(backups@) =~= before.push((backup.path.text(), backup.is_dir)));
            },
            None => {},
        }
        i += 1;
    }
    assert(all.take(i as int) =~= all);
    backups
}

impl TreeHistory {
    pub open spec fn undos(self) -> Seq<UndoView> {
        undo_views(self.undo_stack@)
    }

    pub open spec fn redos(self) -> Seq<UndoView> {
        undo_views(self.redo_stack@)
    }

    /// Nothing to take back, with copies to be kept in `backup_root`.
    pub fn new(backup_root: FilePath) -> (history: TreeHistory)
        ensures
            history.undos() == Seq::<UndoView>::empty(),
            history.redos() == Seq::<UndoView>::empty(),
            history.backup_root == backup_root,
            history.backup_counter == 0,
    {
        let history = TreeHistory {
            undo_stack: Vec::new(),
            redo_stack: Vec::new(),
            backup_root,
            backup_counter: 0,
        };
        assert(history.undos() =~= Seq::<UndoView>::empty());
        assert(history.redos() =~= Seq::<UndoView>::empty());
        history
    }

    /// Where the next copy of `original` is kept.
    pub fn next_tree_undo_backup_path(&mut self, original: &FilePath) -> (path: FilePath)
        requires
            old(self).backup_counter < u64::MAX,
        ensures
            *final(self) == (TreeHistory {
                backup_counter: (old(self).backup_counter + 1) as u64,
                ..*old(self)
            }),
            path.text() == text_joined(
                old(self).backup_root.text(),
                letters(backup_name(old(self).backup_counter as nat, original@)),
            ),
    {
        let name = match original.file_name() {
            Some(name) => name,
            None => "entry".to_owned(),
        };
        let counter = self.backup_counter;
        self.backup_counter = counter + 1;
        let text = concat3(decimal_text(counter).as_str(), "-", name.as_str());
        self.backup_root.join(&FilePath::parse(text.as_str()))
    }

    /// Records an operation that was done. What could be done again before
    /// cannot any more; the copies that only it needed are handed back.
    pub fn push_tree_undo_entry(&mut self, entry: TreeUndoEntry) -> (dropped: Vec<Backup>)
        ensures
            final(self).undos() == old(self).undos().push(entry@),
            final(self).redos() == Seq::<UndoView>::empty(),
            final(self).backup_root == old(self).backup_root,
            final(self).backup_counter == old(self).backup_counter,
            backup_views(dropped@) == backups_of(old(self).redos()),
    {
        let ghost before = self.undo_stack@;
        self.undo_stack.push(entry);
        assert(undo_views(self.undo_stack@) =~= undo_views(before).push(entry@));
        self.clear_tree_redo_stack()
    }

    /// Forgets what could be done again, and hands its copies back.
    pub fn clear_tree_redo_stack(&mut self) -> (dropped: Vec<Backup>)
        ensures
            final(self).undo_stack == old(self).undo_stack,
            final(self).redos() == Seq::<UndoView>::empty(),
            final(self).backup_root == old(self).backup_root,
            final(self).backup_counter == old(self).backup_counter,
            backup_views(dropped@) == backups_of(old(self).redos()),
    {
        let dropped = collect_backups(&self.redo_stack);
        self.redo_stack = Vec::new();
        assert(self.redos() =~= Seq::<UndoView>::empty());
        dropped
    }

    /// Forgets everything, and hands all copies back.
    pub fn clear_tree_undo_history(&mut self) -> (dropped: Vec<Backup>)
        ensures
            final(self).undos() == Seq::<UndoView>::empty(),
            final(self).redos() == Seq::<UndoView>::empty(),
            final(self).backup_root == old(self).backup_root,
            final(self).backup_counter == old(self).backup_counter,
            backup_views(dropped@) == backups_of(old(self).undos()) + backups_of(
                old(self).redos(),
            ),
    {
        let mut dropped = collect_backups(&self.undo_stack);
        let ghost first = dropped@;
        let mut rest = self.clear_tree_redo_stack();
        let ghost second = rest@;
        dropped.append(&mut rest);
        assert(dropped@ =~= first + second);
        assert(backup_views(dropped@) =~= backup_views(first) + backup_views(second));
        self.undo_stack = Vec::new();
        assert(self.undos() =~= Seq::<UndoView>::empty());
        dropped
    }

    /// Takes the latest operation off, to take it back.
    pub fn pop_undo(&mut self) -> (entry: Option<TreeUndoEntry>)
        ensures
            final(self).redo_stack == old(self).redo_stack,
            final(self).backup_root == old(self).backup_root,
            final(self).backup_counter == old(self).backup_counter,
            entry is None == (old(self).undos().len() == 0),
            entry is None ==> *final(self) == *old(self),
            entry matches Some(latest) ==> old(self).undos() == final(self).undos().push(latest@),
    {
        if self.undo_stack.len() == 0 {
            return None;
        }
        let ghost before = self.undo_stack@;
        let entry = self.undo_stack.pop();
        assert(undo_views(before) =~= undo_views(self.undo_stack@).push(entry->0@));
        entry
    }

    /// Takes the latest undone operation off, to do it again.
    pub fn pop_redo(&mut self) -> (entry: Option<TreeUndoEntry>)
        ensures
            final(self).undo_stack == old(self).undo_stack,
            final(self).backup_root == old(self).backup_root,
            final(self).backup_counter == old(self).backup_counter,
            entry is None == (old(self).redos().len() == 0),
            entry is None ==> *final(self) == *old(self),
            entry matches Some(latest) ==> old(self).redos() == final(self).redos().push(latest@),
    {
        if self.redo_stack.len() == 0 {
            return None;
        }
        let ghost before = self.redo_stack@;
        let entry = self.redo_stack.pop();
        assert(undo_views(before) =~= undo_views(self.redo_stack@).push(entry->0@));
        entry
    }

    pub fn push_undo(&mut self, entry: TreeUndoEntry)
        ensures
            final(self).redo_stack == old(self).redo_stack,
            final(self).backup_root == old(self).backup_root,
            final(self).backup_counter == old(self).backup_counter,
            final(self).undos() == old(self).undos().push(entry@),
    {
        let ghost before = self.undo_stack@;
        self.undo_stack.push(entry);
        assert(undo_views(self.undo_stack@) =~= undo_views(before).push(entry@));
    }

    pub fn push_redo(&mut self, entry: TreeUndoEntry)
        ensures
            final(self).undo_stack == old(self).undo_stack,
            final(self).backup_root == old(self).backup_root,
            final(self).backup_counter == old(self).backup_counter,
            final(self).redos() == old(self).redos().push(entry@),
    {
        let ghost before = self.redo_stack@;
        self.redo_stack.push(entry);
        assert(undo_views(self.redo_stack@) =~= undo_views(before).push(entry@));
    }
}

/// The copies of two deletions never share a path, whatever was deleted:
/// their numbers differ.
pub proof fn law_backups_never_collide(
    root: PathText,
    first: nat,
    first_original: PathView,
    second: nat,
    second_original: PathView,
)
    requires
        first != second,
    ensures
        components(text_joined(root, letters(backup_name(first, first_original)))) != components(
            text_joined(root, letters(backup_name(second, second_original))),
        ),
{
    let a = backup_name(first, first_original);
    let b = backup_name(second, second_original);
    lemma_last_part(root, first, first_original);
    lemma_last_part(root, second, second_original);
    if chars(a) == chars(b) {
        lemma_letters_injective(a, b);
        lemma_decimal_digits(first);
        lemma_decimal_digits(second);
        reveal_strlit("-");
        let x = decimal(first);
        let y = decimal(second);
        assert(a[x.len() as int] == '-');
        assert(b[y.len() as int] == '-');
        if x.len() < y.len() {
            assert(b[x.len() as int] == y[x.len() as int]);
        } else if y.len() < x.len() {
            assert(a[y.len() as int] == x[y.len() as int]);
        } else {
            assert(a.take(x.len() as int) =~= x);
            assert(b.take(y.len() as int) =~= y);
            lemma_decimal_injective(first, second);
        }
    }
}

/// A copy lies directly in the directory for copies, under its own name.
proof fn lemma_last_part(root: PathText, counter: nat, original: PathView)
    ensures
        components(text_joined(root, letters(backup_name(counter, original)))).last() == chars(
            backup_name(counter, original),
        ),
{
    let name = backup_name(counter, original);
    lemma_backup_name(counter, original);
    lemma_components_of_name(name);
    lemma_joined(root, letters(name));
    lemma_name_is_no_root(chars(name));
    assert(seq![chars(name)].last() == chars(name));
}

proof fn lemma_letters_injective(a: Seq<char>, b: Seq<char>)
    requires
        chars(a) == chars(b),
    ensures
        a == b,
{
    assert(chars(a).len() == a.len());
    assert(chars(b).len() == b.len());
    assert forall|i: int| 0 <= i < a.len() implies a[i] == b[i] by {
        assert(chars(a)[i] == letter(a[i]));
        assert(chars(b)[i] == letter(b[i]));
    }
    assert(a =~= b);
}

/// The name of a copy is a name that a directory entry can have.
pub(crate) proof fn lemma_backup_name(counter: nat, original: PathView)
    ensures
        is_name(chars(backup_name(counter, original))),
{
    let number = decimal(counter);
    let name = match file_name(original) {
        Some(name) => name,
        None => "entry"@,
    };
    let whole = backup_name(counter, original);
    let text = chars(whole);
    lemma_decimal_digits(counter);
    reveal_strlit("-");
    reveal_strlit("entry");
    assert(!name.contains('/')) by {
        if file_name(original) is Some {
            lemma_shown_name(original.last());
        }
    }
    assert(whole =~= number + "-"@ + name);
    assert(forall|k: int| 0 <= k < whole.len() ==> text[k] == letter(whole[k]));
    if text.contains(slash()) {
        let k = choose|k: int| 0 <= k < text.len() && text[k] == slash();
        assert(whole[k] == '/');
        if k < number.len() {
            assert(number[k] == '/');
        } else if k > number.len() {
            assert(name[k - number.len() - 1] == '/');
        }
    }
    assert(whole[0] == number[0]);
    assert(text[0] == letter(number[0]));
    assert(dot_part()[0] == letter('.') && dots_part()[0] == letter('.'));
}

} // verus!
