use vstd::prelude::*;

use crate::path::{is_under, law_components_are_well_formed, well_formed, FilePath, PathView};

verus! {

/// What can be the key of a [`Table`]: two keys are one where their views are.
pub trait Key: View + Sized {
    fn same_key(&self, other: &Self) -> (same: bool)
        ensures
            same == (self@ == other@),
    ;
}

impl Key for FilePath {
    fn same_key(&self, other: &FilePath) -> (same: bool) {
        self.same(other)
    }
}

impl Key for String {
    fn same_key(&self, other: &String) -> (same: bool) {
        *self == *other
    }
}

/// A path together with the worktree that it belongs to.
pub struct WorktreePath {
    pub worktree: FilePath,
    pub path: FilePath,
}

impl View for WorktreePath {
    type V = (PathView, PathView);

    open spec fn view(&self) -> (PathView, PathView) {
        (self.worktree@, self.path@)
    }
}

impl Key for WorktreePath {
    fn same_key(&self, other: &WorktreePath) -> (same: bool) {
        self.worktree.same(&other.worktree) && self.path.same(&other.path)
    }
}

/// A table with one value under each of its keys.
pub struct Table<K: Key, V> {
    rows: Vec<(K, V)>,
}

spec fn keys<K: Key, V>(rows: Seq<(K, V)>) -> Seq<K::V> {
    rows.map_values(|row: (K, V)| row.0@)
}

spec fn table<K: Key, V>(rows: Seq<(K, V)>) -> Map<K::V, V> {
    Map::new(|key: K::V| keys(rows).contains(key), |key: K::V| rows[keys(rows).index_of(key)].1)
}

impl<K: Key, V> View for Table<K, V> {
    type V = Map<K::V, V>;

    closed spec fn view(&self) -> Map<K::V, V> {
        table(self.rows@)
    }
}

proof fn lemma_row<K: Key, V>(rows: Seq<(K, V)>, i: int)
    requires
        keys(rows).no_duplicates(),
        0 <= i < rows.len(),
    ensures
        table(rows).contains_key(rows[i].0@),
        table(rows)[rows[i].0@] == rows[i].1,
{
    assert(keys(rows)[i] == rows[i].0@);
    let k = keys(rows).index_of(rows[i].0@);
    assert(keys(rows)[k] == keys(rows)[i]);
}

proof fn lemma_key<K: Key, V>(rows: Seq<(K, V)>, key: K::V) -> (i: int)
    requires
        table(rows).contains_key(key),
    ensures
        0 <= i < rows.len(),
        rows[i].0@ == key,
        table(rows)[key] == rows[i].1,
{
    let i = keys(rows).index_of(key);
    assert(keys(rows)[i] == key);
    i
}

proof fn lemma_push<K: Key, V>(rows: Seq<(K, V)>, row: (K, V))
    requires
        keys(rows).no_duplicates(),
        !table(rows).contains_key(row.0@),
    ensures
        keys(rows.push(row)).no_duplicates(),
        table(rows.push(row)) == table(rows).insert(row.0@, row.1),
{
    let after = rows.push(row);
    assert(keys(after) =~= keys(rows).push(row.0@));
    assert(keys(after).no_duplicates());
    assert forall|key: K::V| table(after).contains_key(key) == table(rows).insert(
        row.0@,
        row.1,
    ).contains_key(key) by {
        if table(rows).contains_key(key) {
            let i = lemma_key(rows, key);
            lemma_row(after, i);
        }
        lemma_row(after, rows.len() as int);
    }
    assert forall|key: K::V| #[trigger] table(after).contains_key(key) implies table(
        after,
    )[key] == table(rows).insert(row.0@, row.1)[key] by {
        let i = lemma_key(after, key);
        if i < rows.len() {
            lemma_row(rows, i);
        }
    }
    assert(table(after) =~= table(rows).insert(row.0@, row.1));
}

proof fn lemma_remove<K: Key, V>(rows: Seq<(K, V)>, i: int)
    requires
        keys(rows).no_duplicates(),
        0 <= i < rows.len(),
    ensures
        keys(rows.remove(i)).no_duplicates(),
        table(rows.remove(i)) == table(rows).remove(rows[i].0@),
{
    let after = rows.remove(i);
    assert(keys(after) =~= keys(rows).remove(i));
    assert(keys(after).no_duplicates());
    assert forall|key: K::V| table(after).contains_key(key) == table(rows).remove(
        rows[i].0@,
    ).contains_key(key) by {
        if table(rows).contains_key(key) && key != rows[i].0@ {
            let k = lemma_key(rows, key);
            if k < i {
                lemma_row(after, k);
            } else {
                lemma_row(after, k - 1);
            }
        }
        if table(after).contains_key(key) {
            let k = lemma_key(after, key);
            let was = if k < i {
                k
            } else {
                k + 1
            };
            lemma_row(rows, was);
            assert(keys(rows)[was] != keys(rows)[i]);
        }
    }
    assert forall|key: K::V| #[trigger] table(after).contains_key(key) implies table(
        after,
    )[key] == table(rows).remove(rows[i].0@)[key] by {
        let k = lemma_key(after, key);
        let was = if k < i {
            k
        } else {
            k + 1
        };
        lemma_row(rows, was);
    }
    assert(table(after) =~= table(rows).remove(rows[i].0@));
}

impl<K: Key, V> Table<K, V> {
    #[verifier::type_invariant]
    spec fn inv(self) -> bool {
        keys(self.rows@).no_duplicates()
    }

    /// The table without rows.
    pub fn new() -> (map: Table<K, V>)
        ensures
            map@ == Map::<K::V, V>::empty(),
    {
        let map = Table { rows: Vec::new() };
        assert(map@ =~= Map::<K::V, V>::empty());
        map
    }

    fn position(&self, key: &K) -> (found: Option<usize>)
        ensures
            found matches Some(i) ==> i < self.rows.len() && self.rows@[i as int].0@ == key@,
            found is Some == self@.contains_key(key@),
    {
        let mut i: usize = 0;
        while i < self.rows.len()
            invariant
                i <= self.rows.len(),
                forall|k: int| 0 <= k < i ==> keys(self.rows@)[k] != key@,
            decreases self.rows.len() - i,
        {
            if self.rows[i].0.same_key(key) {
                assert(keys(self.rows@)[i as int] == key@);
                return Some(i);
            }
            i += 1;
        }
        None
    }

    /// What stands under `key`.
    pub fn get(&self, key: &K) -> (value: Option<&V>)
        ensures
            value matches Some(found) ==> self@.contains_key(key@) && *found == self@[key@],
            value is None ==> !self@.contains_key(key@),
    {
        proof {
            use_type_invariant(self);
        }
        match self.position(key) {
            Some(i) => {
                proof {
                    lemma_row(self.rows@, i as int);
                }
                Some(&self.rows[i].1)
            },
            None => None,
        }
    }

    /// Whether anything stands under `key`.
    pub fn contains_key(&self, key: &K) -> (present: bool)
        ensures
            present == self@.contains_key(key@),
    {
        self.position(key).is_some()
    }

    /// Takes out what stands under `key`, and says whether anything did.
    pub fn remove(&mut self, key: &K) -> (removed: bool)
        ensures
            final(self)@ == old(self)@.remove(key@),
            removed == old(self)@.contains_key(key@),
    {
        proof {
            use_type_invariant(&*self);
        }
        match self.position(key) {
            Some(i) => {
                let mut rows: Vec<(K, V)> = Vec::new();
                std::mem::swap(&mut rows, &mut self.rows);
                proof {
                    lemma_remove(rows@, i as int);
                }
                let _ = rows.remove(i);
                self.rows = rows;
                true
            },
            None => {
                assert(self@ =~= self@.remove(key@));
                false
            },
        }
    }

    /// Puts `value` under `key`, in place of what stood there.
    pub fn insert(&mut self, key: K, value: V)
        ensures
            final(self)@ == old(self)@.insert(key@, value),
    {
        let _ = self.remove(&key);
        proof {
            use_type_invariant(&*self);
        }
        let mut rows: Vec<(K, V)> = Vec::new();
        std::mem::swap(&mut rows, &mut self.rows);
        proof {
            lemma_push(rows@, (key, value));
            assert(old(self)@.remove(key@).insert(key@, value) =~= old(self)@.insert(key@, value));
        }
        rows.push((key, value));
        self.rows = rows;
    }
}

/// Whether `rows` lists every row of `table`, each once.
pub open spec fn lists<K: Key, V>(rows: Seq<(K, V)>, table: Map<K::V, V>) -> bool {
    &&& forall|i: int, k: int|
        0 <= i < k < rows.len() ==> (#[trigger] rows[i]).0@ != (#[trigger] rows[k]).0@
    &&& forall|i: int|
        0 <= i < rows.len() ==> table.contains_key((#[trigger] rows[i]).0@) && table[rows[i].0@]
            == rows[i].1
    &&& forall|key: K::V| #[trigger]
        table.contains_key(key) ==> exists|i: int|
            0 <= i < rows.len() && (#[trigger] rows[i]).0@ == key
}

impl<K: Key, V> Table<K, V> {
    /// Takes every row out.
    pub fn drain(&mut self) -> (rows: Vec<(K, V)>)
        ensures
            lists(rows@, old(self)@),
            final(self)@ == Map::<K::V, V>::empty(),
    {
        proof {
            use_type_invariant(&*self);
        }
        let mut rows: Vec<(K, V)> = Vec::new();
        std::mem::swap(&mut rows, &mut self.rows);
        proof {
            assert(self@ =~= Map::<K::V, V>::empty());
            let all = rows@;
            assert forall|i: int, k: int| 0 <= i < k < all.len() implies (#[trigger] all[i]).0@ != (
            #[trigger] all[k]).0@ by {
                assert(keys(all)[i] != keys(all)[k]);
            }
            assert forall|i: int| 0 <= i < all.len() implies table(all).contains_key(
                (#[trigger] all[i]).0@,
            ) && table(all)[all[i].0@] == all[i].1 by {
                lemma_row(all, i);
            }
            assert forall|key: K::V| #[trigger] table(all).contains_key(key) implies exists|i: int|
                0 <= i < all.len() && (#[trigger] all[i]).0@ == key by {
                let i = lemma_key(all, key);
                assert(all[i].0@ == key);
            }
        }
        rows
    }
}

impl<V> Table<WorktreePath, V> {
    /// Every key has the components that paths can have.
    pub proof fn law_keys_are_paths(&self)
        ensures
            forall|key: (PathView, PathView)| #[trigger]
                self@.contains_key(key) ==> well_formed(key.0) && well_formed(key.1),
    {
        assert forall|key: (PathView, PathView)| #[trigger] self@.contains_key(key) implies
            well_formed(key.0) && well_formed(key.1) by {
            let i = lemma_key(self.rows@, key);
            let row = self.rows@[i].0;
            law_components_are_well_formed(row.worktree.text());
            law_components_are_well_formed(row.path.text());
        }
    }
}

/// The rows of `table` whose keys lie neither at `base` nor below it.
pub open spec fn rows_outside<V>(table: Map<PathView, V>, base: PathView) -> Map<PathView, V> {
    table.remove_keys(table.dom().filter(|key: PathView| is_under(key, base)))
}

impl<V> Table<FilePath, V> {
    /// Drops every row whose key is `base` or lies below it.
    pub fn remove_under(&mut self, base: &FilePath)
        ensures
            final(self)@ == rows_outside(old(self)@, base@),
    {
        proof {
            use_type_invariant(&*self);
        }
        let mut rows: Vec<(FilePath, V)> = Vec::new();
        std::mem::swap(&mut rows, &mut self.rows);
        let ghost start = rows@;
        let ghost start_table = table(start);
        let mut i: usize = rows.len();
        while i > 0
            invariant
                i <= rows.len(),
                keys(rows@).no_duplicates(),
                forall|key: PathView| #[trigger]
                    table(rows@).contains_key(key) ==> start_table.contains_key(key) && table(
                        rows@,
                    )[key] == start_table[key],
                forall|key: PathView| #[trigger]
                    start_table.contains_key(key) && !is_under(key, base@) ==> table(
                        rows@,
                    ).contains_key(key),
                forall|k: int| i <= k < rows@.len() ==> !is_under(#[trigger] rows@[k].0@, base@),
            decreases i,
        {
            i -= 1;
            if rows[i].0.starts_with(base) {
                proof {
                    lemma_remove(rows@, i as int);
                }
                let ghost before = rows@;
                let _ = rows.remove(i);
                assert(forall|k: int| i <= k < rows@.len() ==> rows@[k] == before[k + 1]);
            }
        }
        proof {
            let gone = start_table.dom().filter(|key: PathView| is_under(key, base@));
            let after = table(rows@);
            assert forall|key: PathView| after.contains_key(key) == start_table.remove_keys(
                gone,
            ).contains_key(key) by {
                if after.contains_key(key) {
                    let k = lemma_key(rows@, key);
                    assert(!is_under(rows@[k].0@, base@));
                }
            }
            assert(after =~= start_table.remove_keys(gone));
        }
        self.rows = rows;
    }
}

} // verus!
