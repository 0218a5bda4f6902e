use vstd::prelude::*;

use crate::path::{components, FilePath, PathText, PathView};
use crate::path_set::given;

verus! {

/// How many lines a change adds and removes.
#[derive(Clone, Copy, Debug, PartialEq, Eq, Structural)]
pub struct DiffStat {
    pub added: usize,
    pub removed: usize,
}

/// Added and removed lines, counted without a limit.
pub type Lines = (nat, nat);

pub open spec fn plus_lines(a: Lines, b: Lines) -> Lines {
    (a.0 + b.0, a.1 + b.1)
}

/// Whether a count can be kept in a [`DiffStat`].
pub open spec fn fits(lines: Lines) -> bool {
    lines.0 <= usize::MAX && lines.1 <= usize::MAX
}

/// A count as far as it can be kept: one that is too large stops at the
/// largest.
pub open spec fn capped(lines: Lines) -> Lines {
    let most = usize::MAX as nat;
    (
        if lines.0 <= most {
            lines.0
        } else {
            most
        },
        if lines.1 <= most {
            lines.1
        } else {
            most
        },
    )
}

fn capped_sum(a: usize, b: usize) -> (sum: usize)
    ensures
        sum == if a + b <= usize::MAX {
            a + b
        } else {
            usize::MAX as int
        },
{
    if a <= usize::MAX - b {
        a + b
    } else {
        usize::MAX
    }
}

impl Default for DiffStat {
    fn default() -> (stat: DiffStat)
        ensures
            stat == (DiffStat { added: 0, removed: 0 }),
    {
        DiffStat { added: 0, removed: 0 }
    }
}

impl DiffStat {
    pub open spec fn lines(self) -> Lines {
        (self.added as nat, self.removed as nat)
    }

    pub fn new(added: usize, removed: usize) -> (stat: DiffStat)
        ensures
            stat == (DiffStat { added, removed }),
    {
        DiffStat { added, removed }
    }

    /// Whether nothing was added and nothing removed.
    pub fn is_empty(self) -> (empty: bool)
        ensures
            empty == (self.added == 0 && self.removed == 0),
    {
        self.added == 0 && self.removed == 0
    }

    /// Both changes together.
    pub fn plus(self, other: DiffStat) -> (sum: DiffStat)
        requires
            fits(plus_lines(self.lines(), other.lines())),
        ensures
            sum.lines() == plus_lines(self.lines(), other.lines()),
    {
        DiffStat { added: self.added + other.added, removed: self.removed + other.removed }
    }

    /// Both changes together, as far as the counts can be kept.
    pub fn capped_plus(self, other: DiffStat) -> (sum: DiffStat)
        ensures
            sum.lines() == capped(plus_lines(self.lines(), other.lines())),
    {
        DiffStat {
            added: capped_sum(self.added, other.added),
            removed: capped_sum(self.removed, other.removed),
        }
    }

    /// Both changes together, where the counts can be kept.
    pub fn checked_plus(self, other: DiffStat) -> (sum: Option<DiffStat>)
        ensures
            sum matches Some(stat) ==> stat.lines() == plus_lines(self.lines(), other.lines()),
            sum is Some == fits(plus_lines(self.lines(), other.lines())),
    {
        if self.added <= usize::MAX - other.added && self.removed <= usize::MAX - other.removed {
            Some(self.plus(other))
        } else {
            None
        }
    }
}

/// The lasting identity under which an agent's lines are filed.
#[derive(Debug)]
pub struct AgentKey {
    pub key: String,
}

impl AgentKey {
    pub fn new(key: &str) -> (agent: AgentKey)
        ensures
            agent.key@ == key@,
    {
        AgentKey { key: key.to_owned() }
    }
}

/// Who wrote a line.
#[derive(Debug)]
pub enum Author {
    You,
    Agent(AgentKey),
}

/// Who wrote a line, an agent given by its key.
pub enum AuthorView {
    You,
    Agent(Seq<char>),
}

impl View for Author {
    type V = AuthorView;

    open spec fn view(&self) -> AuthorView {
        match self {
            Author::You => AuthorView::You,
            Author::Agent(agent) => AuthorView::Agent(agent.key@),
        }
    }
}

impl Author {
    pub fn same(&self, other: &Author) -> (same: bool)
        ensures
            same == (self@ == other@),
    {
        match (self, other) {
            (Author::You, Author::You) => true,
            (Author::Agent(a), Author::Agent(b)) => a.key == b.key,
            (Author::You, Author::Agent(_)) => false,
            (Author::Agent(_), Author::You) => false,
        }
    }
}

/// One author's part in the change of one file.
#[derive(Debug)]
pub struct Share {
    pub author: Author,
    pub stat: DiffStat,
}

pub type ShareView = (AuthorView, DiffStat);

pub open spec fn share_views(shares: Seq<Share>) -> Seq<ShareView> {
    shares.map_values(|share: Share| (share.author@, share.stat))
}

/// What git did to a file.
#[derive(Clone, Copy, Debug, PartialEq, Eq, Structural)]
pub enum FileChangeStatus {
    Added,
    Modified,
    Deleted,
    Renamed,
}

/// All lines of `shares`.
pub open spec fn lines_of(shares: Seq<ShareView>) -> Lines
    decreases shares.len(),
{
    if shares.len() == 0 {
        (0, 0)
    } else {
        plus_lines(lines_of(shares.drop_last()), shares.last().1.lines())
    }
}

/// The lines of `shares` that `author` wrote.
pub open spec fn lines_by(shares: Seq<ShareView>, author: AuthorView) -> Lines
    decreases shares.len(),
{
    if shares.len() == 0 {
        (0, 0)
    } else if shares.last().0 == author {
        plus_lines(lines_by(shares.drop_last(), author), shares.last().1.lines())
    } else {
        lines_by(shares.drop_last(), author)
    }
}

/// Whether `author` has a part in `shares`.
pub open spec fn wrote(shares: Seq<ShareView>, author: AuthorView) -> bool {
    exists|i: int| 0 <= i < shares.len() && (#[trigger] shares[i]).0 == author
}

/// One changed file.
pub struct EntryView {
    pub path: PathText,
    pub status: FileChangeStatus,
    pub shares: Seq<ShareView>,
}

impl EntryView {
    /// The components of the entry's path.
    pub open spec fn at(self) -> PathView {
        components(self.path)
    }
}

/// The shares of all entries, one after the other.
pub open spec fn all_shares(entries: Seq<EntryView>) -> Seq<ShareView>
    decreases entries.len(),
{
    if entries.len() == 0 {
        seq![]
    } else {
        all_shares(entries.drop_last()) + entries.last().shares
    }
}

/// The paths of the entries in which `author` has a part, in their order.
pub open spec fn paths_by(entries: Seq<EntryView>, author: AuthorView) -> Seq<PathText>
    decreases entries.len(),
{
    if entries.len() == 0 {
        seq![]
    } else if wrote(entries.last().shares, author) {
        paths_by(entries.drop_last(), author).push(entries.last().path)
    } else {
        paths_by(entries.drop_last(), author)
    }
}

pub open spec fn entry_paths(entries: Seq<EntryView>) -> Seq<PathView> {
    entries.map_values(|entry: EntryView| entry.at())
}

/// A file that changed, with every author's part in it.
pub struct ChangeEntry {
    path: FilePath,
    status: FileChangeStatus,
    shares: Vec<Share>,
    stat: DiffStat,
}

impl View for ChangeEntry {
    type V = EntryView;

    closed spec fn view(&self) -> EntryView {
        EntryView { path: self.path.text(), status: self.status, shares: share_views(self.shares@) }
    }
}

pub(crate) proof fn lemma_lines_concat(a: Seq<ShareView>, b: Seq<ShareView>)
    ensures
        lines_of(a + b) == plus_lines(lines_of(a), lines_of(b)),
    decreases b.len(),
{
    if b.len() == 0 {
        assert(a + b =~= a);
    } else {
        assert((a + b).drop_last() =~= a + b.drop_last());
        lemma_lines_concat(a, b.drop_last());
    }
}

pub(crate) proof fn lemma_lines_by_concat(a: Seq<ShareView>, b: Seq<ShareView>, author: AuthorView)
    ensures
        lines_by(a + b, author) == plus_lines(lines_by(a, author), lines_by(b, author)),
    decreases b.len(),
{
    if b.len() == 0 {
        assert(a + b =~= a);
    } else {
        assert((a + b).drop_last() =~= a + b.drop_last());
        lemma_lines_by_concat(a, b.drop_last(), author);
    }
}

/// What one author wrote is never more than what was written.
proof fn lemma_lines_by_at_most(shares: Seq<ShareView>, author: AuthorView)
    ensures
        lines_by(shares, author).0 <= lines_of(shares).0,
        lines_by(shares, author).1 <= lines_of(shares).1,
    decreases shares.len(),
{
    if shares.len() > 0 {
        lemma_lines_by_at_most(shares.drop_last(), author);
    }
}

proof fn lemma_all_shares_prefix(entries: Seq<EntryView>, n: int)
    requires
        0 <= n <= entries.len(),
    ensures
        lines_of(all_shares(entries.take(n))).0 <= lines_of(all_shares(entries)).0,
        lines_of(all_shares(entries.take(n))).1 <= lines_of(all_shares(entries)).1,
    decreases entries.len(),
{
    if n == entries.len() {
        assert(entries.take(n) =~= entries);
    } else {
        lemma_all_shares_prefix(entries.drop_last(), n);
        assert(entries.drop_last().take(n) =~= entries.take(n));
        lemma_lines_concat(all_shares(entries.drop_last()), entries.last().shares);
    }
}

impl ChangeEntry {
    #[verifier::type_invariant]
    spec fn inv(self) -> bool {
        self.stat.lines() == lines_of(share_views(self.shares@))
    }

    /// The change of one file, or `None` where its lines are too many to
    /// count.
    pub fn new(path: FilePath, status: FileChangeStatus, shares: Vec<Share>) -> (entry: Option<
        ChangeEntry,
    >)
        ensures
            entry matches Some(made) ==> made@ == (EntryView {
                path: path.text(),
                status,
                shares: share_views(shares@),
            }),
            entry is Some == fits(lines_of(share_views(shares@))),
    {
        let ghost all = share_views(shares@);
        let mut stat = DiffStat::new(0, 0);
        let mut i: usize = 0;
        while i < shares.len()
            invariant
                i <= shares.len(),
                all == share_views(shares@),
                stat.lines() == lines_of(all.take(i as int)),
            decreases shares.len() - i,
        {
            proof {
                assert(all.take(i + 1).drop_last() =~= all.take(i as int));
                let rest = all.skip(i + 1);
                assert(all =~= all.take(i + 1) + rest);
                lemma_lines_concat(all.take(i + 1), rest);
            }
            match stat.checked_plus(shares[i].stat) {
                Some(sum) => {
                    stat = sum;
                },
                None => {
                    return None;
                },
            }
            i += 1;
        }
        assert(all.take(i as int) =~= all);
        Some(ChangeEntry { path, status, shares, stat })
    }

    pub fn path(&self) -> (path: &FilePath)
        ensures
            path.text() == self@.path,
    {
        &self.path
    }

    pub fn status(&self) -> (status: FileChangeStatus)
        ensures
            status == self@.status,
    {
        self.status
    }

    /// All lines that the file's authors added and removed.
    pub fn stat(&self) -> (stat: DiffStat)
        ensures
            stat.lines() == lines_of(self@.shares),
    {
        proof {
            use_type_invariant(self);
        }
        self.stat
    }

    /// Whether `author` has a part in the change.
    pub fn written_by(&self, author: &Author) -> (part: bool)
        ensures
            part == wrote(self@.shares, author@),
    {
        let mut i: usize = 0;
        while i < self.shares.len()
            invariant
                i <= self.shares.len(),
                forall|k: int| 0 <= k < i ==> (#[trigger] share_views(self.shares@)[k]).0 != author@,
            decreases self.shares.len() - i,
        {
            if self.shares[i].author.same(author) {
                assert(share_views(self.shares@)[i as int].0 == author@);
                return true;
            }
            i += 1;
        }
        false
    }

    /// The lines that `author` added and removed in the file.
    pub fn stat_by(&self, author: &Author) -> (stat: DiffStat)
        ensures
            stat.lines() == lines_by(self@.shares, author@),
    {
        proof {
            use_type_invariant(self);
        }
        let ghost all = share_views(self.shares@);
        let mut stat = DiffStat::new(0, 0);
        let mut i: usize = 0;
        while i < self.shares.len()
            invariant
                i <= self.shares.len(),
                all == share_views(self.shares@),
                fits(lines_of(all)),
                stat.lines() == lines_by(all.take(i as int), author@),
            decreases self.shares.len() - i,
        {
            proof {
                assert(all.take(i + 1).drop_last() =~= all.take(i as int));
                let rest = all.skip(i + 1);
                assert(all =~= all.take(i + 1) + rest);
                lemma_lines_concat(all.take(i + 1), rest);
                lemma_lines_by_at_most(all.take(i + 1), author@);
            }
            if self.shares[i].author.same(author) {
                stat = stat.plus(self.shares[i].stat);
            }
            i += 1;
        }
        assert(all.take(i as int) =~= all);
        stat
    }
}

pub open spec fn entry_views(entries: Seq<ChangeEntry>) -> Seq<EntryView> {
    entries.map_values(|entry: ChangeEntry| entry@)
}

/// The changed files of one worktree: each path once, with the lines of each
/// author.
pub struct ChangeSet {
    entries: Vec<ChangeEntry>,
    total: DiffStat,
}

impl View for ChangeSet {
    type V = Seq<EntryView>;

    closed spec fn view(&self) -> Seq<EntryView> {
        entry_views(self.entries@)
    }
}

impl ChangeSet {
    #[verifier::type_invariant]
    spec fn inv(self) -> bool {
        &&& entry_paths(self@).no_duplicates()
        &&& self.total.lines() == lines_of(all_shares(self@))
    }

    /// No changes.
    pub fn empty() -> (set: ChangeSet)
        ensures
            set@ == Seq::<EntryView>::empty(),
    {
        let set = ChangeSet { entries: Vec::new(), total: DiffStat::new(0, 0) };
        assert(set@ =~= Seq::<EntryView>::empty());
        set
    }

    /// The changes given, or `None` where a path occurs twice or the lines
    /// are too many to count.
    pub fn from_entries(entries: Vec<ChangeEntry>) -> (set: Option<ChangeSet>)
        ensures
            set matches Some(made) ==> made@ == entry_views(entries@),
            set is Some == (entry_paths(entry_views(entries@)).no_duplicates() && fits(
                lines_of(all_shares(entry_views(entries@))),
            )),
    {
        let ghost all = entry_views(entries@);
        let mut total = DiffStat::new(0, 0);
        let mut i: usize = 0;
        while i < entries.len()
            invariant
                i <= entries.len(),
                all == entry_views(entries@),
                total.lines() == lines_of(all_shares(all.take(i as int))),
                entry_paths(all.take(i as int)).no_duplicates(),
            decreases entries.len() - i,
        {
            proof {
                assert(all.take(i + 1).drop_last() =~= all.take(i as int));
                lemma_lines_concat(all_shares(all.take(i as int)), all[i as int].shares);
                lemma_all_shares_prefix(all, i + 1);
            }
            let mut k: usize = 0;
            while k < i
                invariant
                    k <= i < entries.len(),
                    all == entry_views(entries@),
                    forall|m: int| 0 <= m < k ==> (#[trigger] all[m]).at() != all[i as int].at(),
                decreases i - k,
            {
                if entries[k].path.same(&entries[i].path) {
                    assert(entry_paths(all)[k as int] == entry_paths(all)[i as int]);
                    return None;
                }
                assert(all[k as int].at() != all[i as int].at());
                k += 1;
            }
            proof {
                let before = entry_paths(all.take(i as int));
                let after = entry_paths(all.take(i + 1));
                assert(after =~= before.push(all[i as int].at()));
                assert(forall|m: int| 0 <= m < i ==> before[m] == all[m].at());
            }
            match total.checked_plus(entries[i].stat()) {
                Some(sum) => {
                    total = sum;
                },
                None => {
                    return None;
                },
            }
            i += 1;
        }
        assert(all.take(i as int) =~= all);
        Some(ChangeSet { entries, total })
    }

    pub fn entries(&self) -> (entries: &Vec<ChangeEntry>)
        ensures
            entry_views(entries@) == self@,
            entry_paths(self@).no_duplicates(),
    {
        proof {
            use_type_invariant(self);
        }
        &self.entries
    }

    pub fn len(&self) -> (count: usize)
        ensures
            count == self@.len(),
    {
        self.entries.len()
    }

    pub fn is_empty(&self) -> (empty: bool)
        ensures
            empty == (self@.len() == 0),
    {
        self.entries.len() == 0
    }

    /// All lines of all files.
    pub fn total(&self) -> (stat: DiffStat)
        ensures
            stat.lines() == lines_of(all_shares(self@)),
    {
        proof {
            use_type_invariant(self);
        }
        self.total
    }

    /// All lines that `author` added and removed.
    pub fn split_for(&self, author: &Author) -> (stat: DiffStat)
        ensures
            stat.lines() == lines_by(all_shares(self@), author@),
            lines_by(all_shares(self@), author@).0 <= lines_of(all_shares(self@)).0,
            lines_by(all_shares(self@), author@).1 <= lines_of(all_shares(self@)).1,
    {
        proof {
            use_type_invariant(self);
            lemma_lines_by_at_most(all_shares(self@), author@);
        }
        let ghost all = self@;
        let mut stat = DiffStat::new(0, 0);
        let mut i: usize = 0;
        while i < self.entries.len()
            invariant
                i <= self.entries.len(),
                all == self@,
                fits(lines_of(all_shares(all))),
                stat.lines() == lines_by(all_shares(all.take(i as int)), author@),
            decreases self.entries.len() - i,
        {
            proof {
                assert(all.take(i + 1).drop_last() =~= all.take(i as int));
                assert(all[i as int] == self.entries@[i as int]@);
                lemma_lines_by_concat(
                    all_shares(all.take(i as int)),
                    all[i as int].shares,
                    author@,
                );
                lemma_all_shares_prefix(all, i + 1);
                lemma_lines_by_at_most(all_shares(all.take(i + 1)), author@);
            }
            stat = stat.plus(self.entries[i].stat_by(author));
            i += 1;
        }
        assert(all.take(i as int) =~= all);
        stat
    }

    /// The files in which `author` has a part, in the order of the changes.
    pub fn paths_for(&self, author: &Author) -> (paths: Vec<FilePath>)
        ensures
            given(paths@) == paths_by(self@, author@),
    {
        let ghost all = self@;
        let mut paths: Vec<FilePath> = Vec::new();
        assert(given(paths@) =~= paths_by(all.take(0), author@));
        let mut i: usize = 0;
        while i < self.entries.len()
            invariant
                i <= self.entries.len(),
                all == self@,
                given(paths@) == paths_by(all.take(i as int), author@),
            decreases self.entries.len() - i,
        {
            let ghost before = given(paths@);
            proof {
                assert(all.take(i + 1).drop_last() =~= all.take(i as int));
                assert(all[i as int] == self.entries@[i as int]@);
            }
            if self.entries[i].written_by(author) {
                paths.push(self.entries[i].path.clone());
                assert(given(paths@) =~= before.push(all[i as int].path));
            }
            i += 1;
        }
        assert(all.take(i as int) =~= all);
        paths
    }

    /// Where `path` stands among the changes.
    pub fn find(&self, path: &FilePath) -> (found: Option<usize>)
        ensures
            found matches Some(i) ==> i < self@.len() && self@[i as int].at() == path@,
            found is Some == entry_paths(self@).contains(path@),
    {
        let mut i: usize = 0;
        while i < self.entries.len()
            invariant
                i <= self.entries.len(),
                forall|k: int| 0 <= k < i ==> entry_paths(self@)[k] != path@,
            decreases self.entries.len() - i,
        {
            if self.entries[i].path.same(path) {
                assert(entry_paths(self@)[i as int] == path@);
                return Some(i);
            }
            i += 1;
        }
        None
    }
}

/// What a list of authors wrote, all together.
pub open spec fn lines_by_all(shares: Seq<ShareView>, authors: Seq<AuthorView>) -> Lines
    decreases authors.len(),
{
    if authors.len() == 0 {
        (0, 0)
    } else {
        plus_lines(lines_by_all(shares, authors.drop_last()), lines_by(shares, authors.last()))
    }
}

proof fn lemma_one_more_share(
    shares: Seq<ShareView>,
    authors: Seq<AuthorView>,
)
    requires
        shares.len() > 0,
        authors.no_duplicates(),
    ensures
        lines_by_all(shares, authors) == if authors.contains(shares.last().0) {
            plus_lines(lines_by_all(shares.drop_last(), authors), shares.last().1.lines())
        } else {
            lines_by_all(shares.drop_last(), authors)
        },
    decreases authors.len(),
{
    if authors.len() > 0 {
        let rest = authors.drop_last();
        let author = shares.last().0;
        lemma_one_more_share(shares, rest);
        if rest.contains(author) {
            let i = choose|i: int| 0 <= i < rest.len() && rest[i] == author;
            assert(authors[i] == author);
            assert(authors[i] != authors[authors.len() - 1]);
        } else if authors.contains(author) {
            let i = choose|i: int| 0 <= i < authors.len() && authors[i] == author;
            if i < rest.len() {
                assert(rest[i] == author);
            }
        } else {
            assert(authors[authors.len() - 1] == authors.last());
        }
    }
}

/// The lines of a change set are split among its authors: where every share
/// belongs to one of `authors`, each of them named once, their lines together
/// are all lines.
pub proof fn law_split_is_a_partition(shares: Seq<ShareView>, authors: Seq<AuthorView>)
    requires
        authors.no_duplicates(),
        forall|i: int| 0 <= i < shares.len() ==> authors.contains((#[trigger] shares[i]).0),
    ensures
        lines_by_all(shares, authors) == lines_of(shares),
    decreases shares.len(),
{
    if shares.len() == 0 {
        assert(shares =~= seq![]);
        lemma_nothing_written(authors);
    } else {
        assert forall|i: int| 0 <= i < shares.drop_last().len() implies authors.contains(
            (#[trigger] shares.drop_last()[i]).0,
        ) by {
            assert(shares.drop_last()[i] == shares[i]);
        }
        law_split_is_a_partition(shares.drop_last(), authors);
        lemma_one_more_share(shares, authors);
        assert(authors.contains(shares[shares.len() - 1].0));
    }
}

proof fn lemma_nothing_written(authors: Seq<AuthorView>)
    ensures
        lines_by_all(seq![], authors) == (0nat, 0nat),
    decreases authors.len(),
{
    if authors.len() > 0 {
        lemma_nothing_written(authors.drop_last());
    }
}

/// Authors named once each never have more lines together than there are.
pub proof fn law_split_at_most_total(shares: Seq<ShareView>, authors: Seq<AuthorView>)
    requires
        authors.no_duplicates(),
    ensures
        lines_by_all(shares, authors).0 <= lines_of(shares).0,
        lines_by_all(shares, authors).1 <= lines_of(shares).1,
    decreases shares.len(),
{
    if shares.len() == 0 {
        assert(shares =~= seq![]);
        lemma_nothing_written(authors);
    } else {
        law_split_at_most_total(shares.drop_last(), authors);
        lemma_one_more_share(shares, authors);
    }
}

} // verus!
