use vstd::prelude::*;

use crate::change_set::{
    all_shares, entry_paths, entry_views, paths_by, share_views, Author, ChangeEntry, ChangeSet,
    DiffStat, FileChangeStatus, Share,
};
use crate::laws::{lemma_picks, picks};
use crate::path::FilePath;
use crate::path_set::given;

verus! {

/// One more share adds its lines to those of the file, and to those of its
/// author, and of no other. A file without shares has no lines.
pub proof fn law_share_by_share(
    path: FilePath,
    status: FileChangeStatus,
    shares: Vec<Share>,
    more: Vec<Share>,
    share: Share,
    less: &ChangeEntry,
    entry: &ChangeEntry,
    before: DiffStat,
    after: DiffStat,
    author: &Author,
    own_before: DiffStat,
    own_after: DiffStat,
)
    requires
        call_ensures(ChangeEntry::new, (path, status, shares), Some(*less)),
        call_ensures(ChangeEntry::new, (path, status, more), Some(*entry)),
        more@ == shares@.push(share),
        call_ensures(ChangeEntry::stat, (less,), before),
        call_ensures(ChangeEntry::stat, (entry,), after),
        call_ensures(ChangeEntry::stat_by, (less, author), own_before),
        call_ensures(ChangeEntry::stat_by, (entry, author), own_after),
    ensures
        after.added == before.added + share.stat.added,
        after.removed == before.removed + share.stat.removed,
        share.author@ == author@ ==> own_after.added == own_before.added + share.stat.added
            && own_after.removed == own_before.removed + share.stat.removed,
        share.author@ != author@ ==> own_after == own_before,
        shares@.len() == 0 ==> before.added == 0 && before.removed == 0 && own_before.added == 0
            && own_before.removed == 0,
{
    let all = share_views(more@);
    assert(all.drop_last() =~= share_views(shares@));
    assert(all.last() == (share.author@, share.stat));
    lemma_exact(before);
    lemma_exact(after);
    lemma_exact(own_before);
    lemma_exact(own_after);
    if shares@.len() == 0 {
        assert(share_views(shares@) =~= seq![]);
    }
}

proof fn lemma_exact(stat: DiffStat)
    ensures
        stat.lines() == (stat.added as nat, stat.removed as nat),
{
}

/// What a file is made of is what it tells: its path, what git did to it, and
/// who has a part in it.
pub proof fn law_file_tells_what_it_is(
    path: FilePath,
    status: FileChangeStatus,
    shares: Vec<Share>,
    entry: &ChangeEntry,
    told: &FilePath,
    did: FileChangeStatus,
    author: &Author,
    part: bool,
)
    requires
        call_ensures(ChangeEntry::new, (path, status, shares), Some(*entry)),
        call_ensures(ChangeEntry::path, (entry,), told),
        call_ensures(ChangeEntry::status, (entry,), did),
        call_ensures(ChangeEntry::written_by, (entry, author), part),
    ensures
        told.text() == path.text(),
        did == status,
        part <==> exists|i: int|
            0 <= i < shares@.len() && (#[trigger] shares@[i]).author@ == author@,
{
    let all = share_views(shares@);
    assert(all.len() == shares@.len());
    assert forall|i: int| 0 <= i < all.len() implies (#[trigger] all[i]).0
        == shares@[i].author@ by {
    }
    if part {
        let i = choose|i: int| 0 <= i < all.len() && (#[trigger] all[i]).0 == author@;
        assert(shares@[i].author@ == author@);
    }
    if exists|i: int| 0 <= i < shares@.len() && (#[trigger] shares@[i]).author@ == author@ {
        let i = choose|i: int|
            0 <= i < shares@.len() && (#[trigger] shares@[i]).author@ == author@;
        assert(all[i].0 == author@);
    }
}

/// One more file adds its lines to those of the whole, and its author's to
/// those of the author. No files have no lines.
pub proof fn law_file_by_file(
    entries: Vec<ChangeEntry>,
    more: Vec<ChangeEntry>,
    entry: &ChangeEntry,
    less: &ChangeSet,
    set: &ChangeSet,
    before: DiffStat,
    after: DiffStat,
    stat: DiffStat,
    author: &Author,
    own_before: DiffStat,
    own_after: DiffStat,
    own: DiffStat,
)
    requires
        call_ensures(ChangeSet::from_entries, (entries,), Some(*less)),
        call_ensures(ChangeSet::from_entries, (more,), Some(*set)),
        more@ == entries@.push(*entry),
        call_ensures(ChangeSet::total, (less,), before),
        call_ensures(ChangeSet::total, (set,), after),
        call_ensures(ChangeEntry::stat, (entry,), stat),
        call_ensures(ChangeSet::split_for, (less, author), own_before),
        call_ensures(ChangeSet::split_for, (set, author), own_after),
        call_ensures(ChangeEntry::stat_by, (entry, author), own),
    ensures
        after.added == before.added + stat.added,
        after.removed == before.removed + stat.removed,
        own_after.added == own_before.added + own.added,
        own_after.removed == own_before.removed + own.removed,
        entries@.len() == 0 ==> before.added == 0 && before.removed == 0 && own_before.added == 0
            && own_before.removed == 0,
{
    let all = entry_views(more@);
    assert(all.drop_last() =~= entry_views(entries@));
    assert(all.last() == entry@);
    crate::change_set::lemma_lines_concat(all_shares(less@), entry@.shares);
    crate::change_set::lemma_lines_by_concat(all_shares(less@), entry@.shares, author@);
    lemma_exact(before);
    lemma_exact(after);
    lemma_exact(stat);
    lemma_exact(own_before);
    lemma_exact(own_after);
    lemma_exact(own);
    if entries@.len() == 0 {
        assert(less@ =~= seq![]);
        assert(all_shares(less@) =~= seq![]);
    }
}

/// The files of an author are those that the author has a part in, all of
/// them and each once, in the order of the changes.
pub proof fn law_files_of_an_author(
    set: &ChangeSet,
    entries: &Vec<ChangeEntry>,
    author: &Author,
    paths: Vec<FilePath>,
) -> (at: Seq<int>)
    requires
        call_ensures(ChangeSet::entries, (set,), entries),
        call_ensures(ChangeSet::paths_for, (set, author), paths),
    ensures
        picks(
            at,
            entries@.len() as int,
            |i: int| crate::change_set::wrote(entries@[i]@.shares, author@),
        ),
        at.len() == paths@.len(),
        forall|k: int|
            0 <= k < at.len() ==> paths@[k].text() == entries@[#[trigger] at[k]]@.path,
{
    let at = lemma_paths_by(entries@, author);
    assert(given(paths@).len() == paths@.len());
    assert forall|k: int| 0 <= k < at.len() implies paths@[k].text() == entries@[
        #[trigger] at[k]
    ]@.path by {
        assert(given(paths@)[k] == paths@[k].text());
    }
    at
}

proof fn lemma_paths_by(entries: Seq<ChangeEntry>, author: &Author) -> (at: Seq<int>)
    ensures
        picks(
            at,
            entries.len() as int,
            |i: int| crate::change_set::wrote(entries[i]@.shares, author@),
        ),
        at.len() == paths_by(entry_views(entries), author@).len(),
        forall|k: int|
            0 <= k < at.len() ==> paths_by(entry_views(entries), author@)[k] == entries[
                #[trigger] at[k]
            ]@.path,
    decreases entries.len(),
{
    let all = entry_views(entries);
    assert(all.len() == entries.len());
    if entries.len() == 0 {
        seq![]
    } else {
        let rest = entries.drop_last();
        let before = lemma_paths_by(rest, author);
        assert(all.drop_last() =~= entry_views(rest));
        assert(all.last() == entries.last()@);
        lemma_picks(
            before,
            entries.len() - 1,
            |i: int| crate::change_set::wrote(rest[i]@.shares, author@),
            |i: int| crate::change_set::wrote(entries[i]@.shares, author@),
        )
    }
}

/// A path is found where it stands among the changes, and nowhere where it
/// does not stand.
pub proof fn law_path_is_found(
    set: &ChangeSet,
    entries: &Vec<ChangeEntry>,
    path: &FilePath,
    found: Option<usize>,
)
    requires
        call_ensures(ChangeSet::entries, (set,), entries),
        call_ensures(ChangeSet::find, (set, path), found),
    ensures
        found matches Some(i) ==> i < entries@.len() && entries@[i as int]@.at() == path@,
        found is None ==> forall|i: int|
            0 <= i < entries@.len() ==> (#[trigger] entries@[i])@.at() != path@,
{
    let all = set@;
    assert(all.len() == entries@.len());
    assert forall|i: int| 0 <= i < all.len() implies all[i] == (#[trigger] entries@[i])@ by {
        assert(entry_views(entries@)[i] == entries@[i]@);
    }
    if let Some(i) = found {
        assert(all[i as int] == entries@[i as int]@);
    } else {
        assert forall|i: int| 0 <= i < entries@.len() implies (#[trigger] entries@[i])@.at()
            != path@ by {
            assert(entry_paths(all)[i] == all[i].at());
        }
    }
}

/// A change set holds the files that it was made of, in their order, and their
/// number is their number.
pub proof fn law_files_are_kept(
    entries: Vec<ChangeEntry>,
    set: &ChangeSet,
    kept: &Vec<ChangeEntry>,
    count: usize,
    empty: bool,
)
    requires
        call_ensures(ChangeSet::from_entries, (entries,), Some(*set)),
        call_ensures(ChangeSet::entries, (set,), kept),
        call_ensures(ChangeSet::len, (set,), count),
        call_ensures(ChangeSet::is_empty, (set,), empty),
    ensures
        kept@.len() == entries@.len(),
        forall|i: int| 0 <= i < entries@.len() ==> (#[trigger] kept@[i])@ == entries@[i]@,
        count == entries@.len(),
        empty == (entries@.len() == 0),
        forall|i: int, j: int|
            0 <= i < j < entries@.len() ==> (#[trigger] entries@[i])@.at() != (
            #[trigger] entries@[j])@.at(),
{
    let all = entry_views(entries@);
    assert(all.len() == entries@.len());
    assert(entry_views(kept@).len() == kept@.len());
    assert forall|i: int| 0 <= i < entries@.len() implies (#[trigger] kept@[i])@
        == entries@[i]@ by {
        assert(entry_views(kept@)[i] == kept@[i]@);
        assert(all[i] == entries@[i]@);
    }
    assert forall|i: int, j: int| 0 <= i < j < entries@.len() implies (
    #[trigger] entries@[i])@.at() != (#[trigger] entries@[j])@.at() by {
        assert(entry_paths(all)[i] == entries@[i]@.at());
        assert(entry_paths(all)[j] == entries@[j]@.at());
    }
}

/// Two changes together are as many lines as both; a count that is too large
/// stops at the largest, and is refused where it must be exact.
pub proof fn law_sums_of_lines(
    a: DiffStat,
    b: DiffStat,
    capped: DiffStat,
    checked: Option<DiffStat>,
    empty: bool,
)
    requires
        call_ensures(DiffStat::capped_plus, (a, b), capped),
        call_ensures(DiffStat::checked_plus, (a, b), checked),
        call_ensures(DiffStat::is_empty, (a,), empty),
    ensures
        a.added + b.added <= usize::MAX ==> capped.added == a.added + b.added,
        a.added + b.added > usize::MAX ==> capped.added == usize::MAX,
        a.removed + b.removed <= usize::MAX ==> capped.removed == a.removed + b.removed,
        a.removed + b.removed > usize::MAX ==> capped.removed == usize::MAX,
        checked is Some == (a.added + b.added <= usize::MAX && a.removed + b.removed
            <= usize::MAX),
        checked matches Some(sum) ==> sum.added == a.added + b.added && sum.removed == a.removed
            + b.removed,
        empty == (a.added == 0 && a.removed == 0),
{
    lemma_exact(capped);
    if let Some(sum) = checked {
        lemma_exact(sum);
    }
}

/// Whether a change can be counted is decided share by share: no shares can be,
/// and one more can where the sum still fits.
pub proof fn law_when_a_file_is_counted(
    path: FilePath,
    status: FileChangeStatus,
    shares: Vec<Share>,
    more: Vec<Share>,
    share: Share,
    less: &ChangeEntry,
    entry: Option<ChangeEntry>,
    none: Vec<Share>,
    first: Option<ChangeEntry>,
    stat: DiffStat,
)
    requires
        call_ensures(ChangeEntry::new, (path, status, shares), Some(*less)),
        call_ensures(ChangeEntry::new, (path, status, more), entry),
        more@ == shares@.push(share),
        call_ensures(ChangeEntry::stat, (less,), stat),
        none@.len() == 0,
        call_ensures(ChangeEntry::new, (path, status, none), first),
    ensures
        first is Some,
        entry is Some == (stat.added + share.stat.added <= usize::MAX && stat.removed
            + share.stat.removed <= usize::MAX),
{
    let all = share_views(more@);
    assert(all.drop_last() =~= share_views(shares@));
    assert(all.last() == (share.author@, share.stat));
    assert(share_views(none@) =~= seq![]);
    lemma_exact(stat);
    lemma_exact(share.stat);
}

/// Whether files make a change set is decided file by file: no files do, and
/// one more does where its path is not among the others and the sum still
/// fits.
pub proof fn law_when_files_make_a_set(
    entries: Vec<ChangeEntry>,
    more: Vec<ChangeEntry>,
    entry: &ChangeEntry,
    less: &ChangeSet,
    set: Option<ChangeSet>,
    none: Vec<ChangeEntry>,
    first: Option<ChangeSet>,
    before: DiffStat,
    stat: DiffStat,
)
    requires
        call_ensures(ChangeSet::from_entries, (entries,), Some(*less)),
        call_ensures(ChangeSet::from_entries, (more,), set),
        more@ == entries@.push(*entry),
        call_ensures(ChangeSet::total, (less,), before),
        call_ensures(ChangeEntry::stat, (entry,), stat),
        none@.len() == 0,
        call_ensures(ChangeSet::from_entries, (none,), first),
    ensures
        first is Some,
        set is Some == (before.added + stat.added <= usize::MAX && before.removed + stat.removed
            <= usize::MAX && forall|i: int|
            0 <= i < entries@.len() ==> (#[trigger] entries@[i])@.at() != entry@.at()),
{
    let all = entry_views(more@);
    let rest = entry_views(entries@);
    assert(all.drop_last() =~= rest);
    assert(all.last() == entry@);
    crate::change_set::lemma_lines_concat(all_shares(rest), entry@.shares);
    lemma_exact(before);
    lemma_exact(stat);
    let paths = entry_paths(all);
    let others = entry_paths(rest);
    assert(paths.len() == entries@.len() + 1);
    assert forall|i: int| 0 <= i < entries@.len() implies paths[i] == (
    #[trigger] entries@[i])@.at() && others[i] == paths[i] by {
        assert(all[i] == more@[i]@);
        assert(rest[i] == entries@[i]@);
    }
    assert(paths[entries@.len() as int] == entry@.at());
    if paths.no_duplicates() {
        assert forall|i: int| 0 <= i < entries@.len() implies (#[trigger] entries@[i])@.at()
            != entry@.at() by {
            assert(paths[i] != paths[entries@.len() as int]);
        }
    }
    if forall|i: int| 0 <= i < entries@.len() ==> (#[trigger] entries@[i])@.at() != entry@.at() {
        assert forall|i: int, j: int| 0 <= i < paths.len() && 0 <= j < paths.len() && i
            != j implies paths[i] != paths[j] by {
            if i < entries@.len() {
                assert(entries@[i]@.at() != entry@.at());
            }
            if j < entries@.len() {
                assert(entries@[j]@.at() != entry@.at());
            }
            if i < entries@.len() && j < entries@.len() {
                assert(others[i] != others[j]);
            }
        }
    }
    assert(entry_views(none@) =~= seq![]);
    assert(entry_paths(entry_views(none@)).no_duplicates());
    assert(all_shares(entry_views(none@)) =~= seq![]);
}

} // verus!
