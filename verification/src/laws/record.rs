use vstd::prelude::*;

use crate::fold::{
    between, expanded_under, is_recordable, law_prune_stays_in_step, law_record_stays_in_step,
    law_rename_stays_in_step, relatives, FoldState, SetExpanded, TreeFold,
};
use crate::laws::folding::can_be_recorded;
use crate::path::{FilePath, PathView};
use crate::path_set::{members_outside, PathSet};

verus! {

/// Whether the record says what is on screen: a directory that can be recorded
/// is in it, by its path from the root, exactly where it is expanded.
pub open spec fn record_is_right(fold: TreeFold) -> bool {
    fold.root_key matches Some(key) ==> forall|rest: PathView| #[trigger]
        fold.saved.recorded(key@).contains(rest) <==> can_be_recorded(rest)
            && fold.expanded@.contains(fold.root@ + rest)
}

proof fn lemma_record_is_right(fold: TreeFold)
    ensures
        record_is_right(fold) == fold.in_step(),
{
    if let Some(key) = fold.root_key {
        let told = relatives(fold.expanded@, fold.root@);
        assert forall|rest: PathView| #[trigger] told.contains(rest) <==> can_be_recorded(rest)
            && fold.expanded@.contains(fold.root@ + rest) by {
            assert(is_recordable(rest) == can_be_recorded(rest));
        }
        if record_is_right(fold) {
            assert(fold.saved.recorded(key@) =~= told);
        }
    }
}

/// The record of a tree that is opened is right.
pub proof fn law_record_is_right_at_first(
    root: FilePath,
    root_key: Option<String>,
    saved: FoldState,
    fold: TreeFold,
)
    requires
        call_ensures(TreeFold::restore, (root, root_key, saved), fold),
    ensures
        record_is_right(fold),
{
    lemma_record_is_right(fold);
}

/// Expanding or collapsing a directory leaves a right record right.
pub proof fn law_record_after_expanding(
    fold: &mut TreeFold,
    path: &FilePath,
    expanded: bool,
    persist: bool,
)
    requires
        call_ensures(TreeFold::set_dir_expanded, (fold, path, expanded), persist),
        record_is_right(*old(fold)),
    ensures
        record_is_right(*final(fold)),
{
    lemma_record_is_right(*old(fold));
    lemma_record_is_right(*final(fold));
    let before = old(fold).expanded@;
    assert(before.insert(path@) =~= before.union(set![path@]));
    assert(before.remove(path@) =~= before.difference(set![path@]));
    law_record_stays_in_step(*old(fold), *final(fold), set![path@], expanded, persist);
}

/// Expanding a collapsed directory, or collapsing an expanded one, leaves a
/// right record right.
pub proof fn law_record_after_toggling(fold: &mut TreeFold, path: &FilePath, persist: bool)
    requires
        call_ensures(TreeFold::toggle_dir_expanded, (fold, path), persist),
        record_is_right(*old(fold)),
    ensures
        record_is_right(*final(fold)),
{
    lemma_record_is_right(*old(fold));
    lemma_record_is_right(*final(fold));
    let before = old(fold).expanded@;
    assert(before.insert(path@) =~= before.union(set![path@]));
    assert(before.remove(path@) =~= before.difference(set![path@]));
    law_record_stays_in_step(
        *old(fold),
        *final(fold),
        set![path@],
        !before.contains(path@),
        persist,
    );
}

/// Revealing a path leaves a right record right.
pub proof fn law_record_after_revealing(fold: &mut TreeFold, path: &FilePath, persist: bool)
    requires
        call_ensures(TreeFold::reveal_in_tree, (fold, path), persist),
        record_is_right(*old(fold)),
    ensures
        record_is_right(*final(fold)),
{
    lemma_record_is_right(*old(fold));
    lemma_record_is_right(*final(fold));
    law_record_stays_in_step(
        *old(fold),
        *final(fold),
        between(old(fold).root@, path@),
        true,
        persist,
    );
}

/// Collapsing a directory with all below it leaves a right record right.
pub proof fn law_record_after_collapsing(fold: &mut TreeFold, dir: &FilePath, persist: bool)
    requires
        call_ensures(TreeFold::collapse_subtree, (fold, dir), persist),
        record_is_right(*old(fold)),
    ensures
        record_is_right(*final(fold)),
{
    lemma_record_is_right(*old(fold));
    lemma_record_is_right(*final(fold));
    let before = old(fold).expanded@;
    let under = expanded_under(before, dir@);
    assert(members_outside(before, dir@) =~= before.difference(under));
    law_record_stays_in_step(*old(fold), *final(fold), under, false, persist);
}

/// Collapsing everything leaves a right record.
pub proof fn law_record_after_collapsing_all(fold: &mut TreeFold, persist: bool)
    requires
        call_ensures(TreeFold::collapse_all_dirs, (fold,), persist),
    ensures
        record_is_right(*final(fold)),
{
    lemma_record_is_right(*final(fold));
    assert(relatives(Set::empty(), final(fold).root@) =~= Set::<PathView>::empty());
}

/// A rename leaves a right record right, and asks for it to be written where it
/// changed.
pub proof fn law_record_after_a_rename(
    fold: &mut TreeFold,
    from: &FilePath,
    to: &FilePath,
    persist: bool,
)
    requires
        call_ensures(TreeFold::follow_rename, (fold, from, to), persist),
        record_is_right(*old(fold)),
    ensures
        record_is_right(*final(fold)),
        old(fold).root_key matches Some(key)
            ==> (final(fold).saved.recorded(key@) != old(fold).saved.recorded(key@) ==> persist),
{
    lemma_record_is_right(*old(fold));
    lemma_record_is_right(*final(fold));
    law_rename_stays_in_step(*old(fold), *final(fold), from@, to@, persist);
}

/// Forgetting what is gone leaves a right record right, and asks for it to be
/// written where it changed.
pub proof fn law_record_after_pruning(
    fold: &mut TreeFold,
    dirs: &PathSet,
    complete: bool,
    persist: bool,
)
    requires
        call_ensures(TreeFold::prune_stale_fold_state, (fold, dirs, complete), persist),
        record_is_right(*old(fold)),
    ensures
        record_is_right(*final(fold)),
        old(fold).root_key matches Some(key)
            ==> (final(fold).saved.recorded(key@) != old(fold).saved.recorded(key@) ==> persist),
{
    lemma_record_is_right(*old(fold));
    lemma_record_is_right(*final(fold));
    if complete && old(fold).root_key is Some {
        law_prune_stays_in_step(*old(fold), *final(fold), dirs@, persist);
    }
}

/// A directory that is recorded under one key is told under that key, and the
/// other keys' directories stay as they are. It is refused exactly where it
/// does not go on from the root by names that are text.
pub proof fn law_recorded_under_its_key(
    state: &mut FoldState,
    key: &String,
    root: &FilePath,
    path: &FilePath,
    expanded: bool,
    outcome: SetExpanded,
    rest: PathView,
    other: Seq<char>,
)
    requires
        call_ensures(
            FoldState::set_expanded_with_key,
            (state, key, root, path, expanded),
            outcome,
        ),
        path@ == root@ + rest,
    ensures
        outcome is Refused == !can_be_recorded(rest),
        can_be_recorded(rest) ==> final(state).recorded(key@).contains(rest) == expanded,
        outcome is Changed == (can_be_recorded(rest) && old(state).recorded(key@).contains(rest)
            != expanded),
        forall|left: PathView|
            left != rest ==> #[trigger] final(state).recorded(key@).contains(left)
                == old(state).recorded(key@).contains(left),
        other != key@ ==> final(state).recorded(other) == old(state).recorded(other),
{
    let whole = root@ + rest;
    assert(whole.take(root@.len() as int) =~= root@);
    assert(whole.skip(root@.len() as int) =~= rest);
    assert(is_recordable(rest) == can_be_recorded(rest));
    let one = relatives(set![path@], root@);
    assert forall|left: PathView| #[trigger] one.contains(left) == (left == rest
        && can_be_recorded(rest)) by {
        assert((root@ + left).skip(root@.len() as int) =~= left);
        assert(is_recordable(left) == can_be_recorded(left));
    }
    let before = old(state).recorded(key@);
    let after = final(state).recorded(key@);
    assert(after == crate::fold::recorded_after(before, set![path@], root@, expanded));
    if can_be_recorded(rest) && before.contains(rest) == expanded {
        assert(after =~= before);
    }
    if !can_be_recorded(rest) {
        assert(after =~= before);
    }
    if can_be_recorded(rest) && before.contains(rest) != expanded {
        assert(after.contains(rest) == expanded);
    }
}

/// What is forgotten under one key is forgotten there alone.
pub proof fn law_forgotten_under_its_key(
    state: &mut FoldState,
    key: &String,
    changed: bool,
    other: Seq<char>,
    rest: PathView,
)
    requires
        call_ensures(FoldState::clear_worktree_with_key, (state, key), changed),
    ensures
        !final(state).recorded(key@).contains(rest),
        old(state).recorded(key@).contains(rest) ==> changed,
        other != key@ ==> final(state).recorded(other) == old(state).recorded(other),
{
}

/// The directories of a key are those that were recorded under it.
pub proof fn law_directories_of_a_key(
    state: &FoldState,
    key: &String,
    dirs: PathSet,
    rest: PathView,
)
    requires
        call_ensures(FoldState::expanded_dirs, (state, key), dirs),
    ensures
        dirs@.contains(rest) == state.recorded(key@).contains(rest),
        dirs@.contains(rest) ==> can_be_recorded(rest),
{
    assert(is_recordable(rest) ==> can_be_recorded(rest));
}

/// A directory is expanded on screen alone exactly where it cannot be recorded.
pub proof fn law_on_screen_alone(fold: &TreeFold, path: &FilePath, refused: bool, rest: PathView)
    requires
        call_ensures(TreeFold::refuses, (fold, path), refused),
        path@ == fold.root@ + rest,
    ensures
        refused == (fold.root_key is None || !can_be_recorded(rest)),
{
    let whole = fold.root@ + rest;
    assert(whole.take(fold.root@.len() as int) =~= fold.root@);
    assert(whole.skip(fold.root@.len() as int) =~= rest);
    assert(is_recordable(rest) == can_be_recorded(rest));
}

} // verus!
