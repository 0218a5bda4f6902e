//! What the operations are for. Each law speaks of what an operation takes and
//! what comes of it, by the operation's own contract.

use vstd::prelude::*;

use crate::history::{TreeHistory, UndoView};
use crate::path::{all_names, join, lemma_name_is_no_root, FilePath, PathText, PathView};
use crate::spelling::undotted;
use crate::tree::{entry_at, FileTreeEntry};

pub mod changes;
pub mod chrome;
pub mod clipboard;
pub mod commit;
pub mod deletion;
pub mod drawing;
pub mod folding;
pub mod following;
pub mod keeping;
pub mod marks;
pub mod menu;
pub mod moving;
pub mod naming;
pub mod paths;
pub mod record;
pub mod rows;
pub mod sections;
pub mod selection;
pub mod staging;
pub mod texts;
pub mod typing;
pub mod writing;

verus! {

/// There is a message, and it is `text`.
pub open spec fn says(message: Option<String>, text: Seq<char>) -> bool {
    message matches Some(told) && told@ == text
}

/// There is a path, spelled as `text`.
pub open spec fn is_at(path: Option<FilePath>, text: PathText) -> bool {
    path matches Some(there) && there.text() == text
}

/// Whether `at` are the places below `count` that `kept` holds of, all of them
/// and each once, from the first to the last.
pub open spec fn picks(at: Seq<int>, count: int, kept: spec_fn(int) -> bool) -> bool {
    &&& forall|k: int| 0 <= k < at.len() ==> 0 <= #[trigger] at[k] < count && kept(at[k])
    &&& forall|j: int, k: int| 0 <= j < k < at.len() ==> #[trigger] at[j] < #[trigger] at[k]
    &&& forall|i: int| 0 <= i < count && #[trigger] kept(i) ==> at.contains(i)
}

/// One place more: it is picked where `kept` holds of it.
pub(crate) proof fn lemma_picks(
    before: Seq<int>,
    last: int,
    earlier: spec_fn(int) -> bool,
    kept: spec_fn(int) -> bool,
) -> (at: Seq<int>)
    requires
        picks(before, last, earlier),
        0 <= last,
        forall|i: int| 0 <= i < last ==> #[trigger] earlier(i) == #[trigger] kept(i),
    ensures
        picks(at, last + 1, kept),
        at == if kept(last) {
            before.push(last)
        } else {
            before
        },
{
    let at = if kept(last) {
        before.push(last)
    } else {
        before
    };
    assert forall|i: int| 0 <= i < last + 1 && #[trigger] kept(i) implies at.contains(i) by {
        if i < last {
            assert(earlier(i));
            assert(before.contains(i));
            let k = before.index_of(i);
            assert(at[k] == i);
        } else {
            assert(at[before.len() as int] == last);
        }
    }
    assert forall|k: int| 0 <= k < at.len() implies 0 <= #[trigger] at[k] < last + 1 && kept(
        at[k],
    ) by {
        if k < before.len() {
            assert(at[k] == before[k]);
            assert(earlier(before[k]));
        }
    }
    assert forall|j: int, k: int| 0 <= j < k < at.len() implies #[trigger] at[j]
        < #[trigger] at[k] by {
        assert(at[j] == before[j]);
        if k < before.len() {
            assert(at[k] == before[k]);
        }
    }
    at
}

/// A path of names goes behind another part by part.
pub(crate) proof fn lemma_join_names(base: PathView, rest: PathView)
    requires
        all_names(rest),
    ensures
        join(base, rest) == base + rest,
{
    if rest.len() > 0 {
        lemma_name_is_no_root(rest[0]);
    }
    assert(base.len() == 0 ==> base + rest =~= rest);
    assert(rest.len() == 0 ==> base + rest =~= base);
    assert(undotted(rest) =~= rest);
}

/// What was put on the list of what can be taken back is its latest entry.
pub(crate) proof fn lemma_last_undo(history: TreeHistory, before: Seq<UndoView>, entry: UndoView)
    requires
        history.undos() == before.push(entry),
    ensures
        history.undo_stack@.len() == before.len() + 1,
        history.undo_stack@.last()@ == entry,
{
    assert(history.undos().len() == history.undo_stack@.len());
    assert(history.undos().last() == entry);
    assert(history.undos()[history.undo_stack@.len() - 1] == history.undo_stack@.last()@);
}

pub(crate) proof fn lemma_no_entry_at(entries: Seq<FileTreeEntry>, path: PathView)
    ensures
        (forall|i: int| 0 <= i < entries.len() ==> (#[trigger] entries[i]).path@ != path)
            ==> entry_at(entries, path) is None,
    decreases entries.len(),
{
    if entries.len() > 0 {
        let rest = entries.skip(1);
        lemma_no_entry_at(rest, path);
        if forall|i: int| 0 <= i < entries.len() ==> (#[trigger] entries[i]).path@ != path {
            assert(entries[0].path@ != path);
            assert forall|i: int| 0 <= i < rest.len() implies (#[trigger] rest[i]).path@
                != path by {
                assert(rest[i] == entries[i + 1]);
            }
        }
    }
}

} // verus!
