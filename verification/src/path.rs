use vstd::prelude::*;
use vstd::string::*;

use crate::spelling::{
    all_cuts, behind_of, chars, closed_cuts, cuts_of, dot_part, dots_part, front_of, is_part,
    is_rooted, is_separator, is_text, lemma_behind_of, lemma_front_of, lemma_goes_on,
    lemma_one_part, lemma_parts, lemma_separator_behind, letter, parts_of, piece_start, plain,
    root_part, shown_letters, slash, undotted, Letter, Letters,
};

verus! {

/// A path as it was given: what stands before its root, such as a drive, where
/// the platform has that, and the rest.
#[verifier::ext_equal]
pub struct PathText {
    pub prefix: Seq<char>,
    pub body: Letters,
}

/// What a path is: its components from left to right. What stands before a
/// root is a component of its own, the root is one, and so is a leading `.` of
/// a relative path.
pub type PathView = Seq<Letters>;

/// A path. Two paths are the same where they have the same components, however
/// their separators are written.
pub struct FilePath {
    /// What stands before the root.
    before: Vec<char>,
    letters: Vec<Letter>,
    /// Where each component of the letters starts and ends.
    cuts: Vec<(usize, usize)>,
}

impl View for FilePath {
    type V = PathView;

    open spec fn view(&self) -> PathView {
        components(self.text())
    }
}

/// A path's text as it is shown.
pub open spec fn shown(text: PathText) -> Seq<char> {
    text.prefix + shown_letters(text.body)
}

/// Characters as the text of a path.
pub open spec fn letters(text: Seq<char>) -> PathText {
    PathText { prefix: seq![], body: chars(text) }
}

/// The path with no components.
pub open spec fn no_text() -> PathText {
    PathText { prefix: seq![], body: seq![] }
}

/// Whether every component is nothing but characters.
pub open spec fn all_text(path: PathView) -> bool {
    forall|i: int| 0 <= i < path.len() ==> is_text(#[trigger] path[i])
}

/// A drive: one letter and a colon.
pub open spec fn is_drive(prefix: Seq<char>) -> bool {
    prefix.len() == 2 && prefix[1] == ':'
}

/// A letter of a prefix as a component has it: a drive is the same in small
/// letters and in capitals.
pub open spec fn prefix_letter(prefix: Seq<char>, i: int) -> Letter {
    let code = prefix[i] as u32;
    if is_drive(prefix) && i == 0 && 0x61 <= code <= 0x7a {
        Letter::Prefix((code - 0x20) as u32)
    } else {
        Letter::Prefix(code)
    }
}

/// What stands before a root, as a component.
pub open spec fn prefix_part(prefix: Seq<char>) -> Letters {
    Seq::new(prefix.len(), |i: int| prefix_letter(prefix, i))
}

pub open spec fn prefix_parts(prefix: Seq<char>) -> PathView {
    if prefix.len() == 0 {
        seq![]
    } else {
        seq![prefix_part(prefix)]
    }
}

/// The components of a path's text.
pub open spec fn components(text: PathText) -> PathView {
    prefix_parts(text.prefix) + parts_of(text.body)
}

pub open spec fn is_prefix(part: Letters) -> bool {
    part.len() > 0 && part[0] is Prefix
}

/// A component that names an entry of a directory.
pub open spec fn is_name(part: Letters) -> bool {
    &&& part.len() > 0
    &&& !part.contains(slash())
    &&& part != dot_part()
    &&& part != dots_part()
    &&& !is_prefix(part)
}

/// How many components stand before the root.
pub open spec fn lead(path: PathView) -> nat {
    if path.len() > 0 && is_prefix(path[0]) {
        1
    } else {
        0
    }
}

/// Whether a path is empty, or nothing but what stands before a root.
pub open spec fn is_bare(path: PathView) -> bool {
    path.len() == lead(path)
}

/// The components that a path can have.
pub open spec fn well_formed(path: PathView) -> bool {
    forall|i: int|
        0 <= i < path.len() ==> {
            ||| is_name(#[trigger] path[i])
            ||| path[i] == dots_part()
            ||| i == lead(path) && (path[i] == root_part() || path[i] == dot_part())
            ||| i < lead(path)
        }
}

/// Whether `path` is `base` or lies below it, component by component.
pub open spec fn is_under(path: PathView, base: PathView) -> bool {
    base.len() <= path.len() && path.take(base.len() as int) == base
}

/// What is left of `path` behind `base`.
pub open spec fn relative_to(path: PathView, base: PathView) -> Option<PathView> {
    if is_under(path, base) {
        Some(path.skip(base.len() as int))
    } else {
        None
    }
}

/// `base` with `rest` below it. A `rest` that starts at a root, or at what
/// stands before one, stands for itself, on the drive of `base` where it names
/// none.
pub open spec fn join(base: PathView, rest: PathView) -> PathView {
    if base.len() == 0 || lead(rest) > 0 {
        rest
    } else if is_rooted(rest) {
        base.take(lead(base) as int) + rest
    } else if is_bare(base) {
        base + rest
    } else {
        base + undotted(rest)
    }
}

/// The path without its last component; a root, what stands before one, and
/// the empty path have none.
pub open spec fn parent(path: PathView) -> Option<PathView> {
    if is_bare(path) || path.last() == root_part() {
        None
    } else {
        Some(path.drop_last())
    }
}

/// The last component as it is shown, where it is a name.
pub open spec fn file_name(path: PathView) -> Option<Seq<char>> {
    if path.len() > 0 && is_name(path.last()) {
        Some(shown_letters(path.last()))
    } else {
        None
    }
}

/// Whether every component is a name.
pub open spec fn all_names(path: PathView) -> bool {
    forall|i: int| 0 <= i < path.len() ==> is_name(#[trigger] path[i])
}

/// `path` with a leading `from` replaced by `to`, where it has one.
pub open spec fn remapped(path: PathView, from: PathView, to: PathView) -> Option<PathView> {
    if path == from {
        Some(to)
    } else if is_under(path, from) {
        Some(join(to, path.skip(from.len() as int)))
    } else {
        None
    }
}

/// `path` after `from` has become `to`.
pub open spec fn moved(path: PathView, from: PathView, to: PathView) -> PathView {
    match remapped(path, from, to) {
        Some(there) => there,
        None => path,
    }
}

/// Whether `path` lies below `root` with nothing but names behind it.
pub open spec fn inside(root: PathView, path: PathView) -> bool {
    &&& is_under(path, root)
    &&& path.len() > root.len()
    &&& all_names(path.skip(root.len() as int))
}

/// `path` seen from `root`, or `path` itself where it lies elsewhere.
pub open spec fn from_root(path: PathView, root: PathView) -> PathView {
    match relative_to(path, root) {
        Some(rest) => rest,
        None => path,
    }
}

/// The text of the first `count` components: what `text` starts with, up to
/// the end of the last of them.
pub open spec fn text_front(text: PathText, count: nat) -> PathText {
    let before = prefix_parts(text.prefix).len();
    if count < before {
        no_text()
    } else {
        PathText { prefix: text.prefix, body: front_of(text.body, (count - before) as nat) }
    }
}

/// The text of the components behind the first `count`: what `text` holds from
/// the start of the next to the end of the last.
pub open spec fn text_behind(text: PathText, count: nat) -> PathText {
    let before = prefix_parts(text.prefix).len();
    if count < before {
        PathText { prefix: text.prefix, body: behind_of(text.body, 0) }
    } else {
        PathText { prefix: seq![], body: behind_of(text.body, (count - before) as nat) }
    }
}

/// How a path goes on: with a slash, or with a `\` where the path is written
/// with those or has a prefix.
pub open spec fn joint(base: PathText) -> Letter {
    if base.prefix.len() > 0 || base.body.contains(Letter::Back) {
        Letter::Back
    } else {
        slash()
    }
}

/// The text of `rest` below `base`, with a separator between them where `base`
/// does not end in one.
pub open spec fn text_joined(base: PathText, rest: PathText) -> PathText {
    if rest.prefix.len() > 0 || base == no_text() {
        rest
    } else if rest.body.len() > 0 && is_separator(rest.body[0]) {
        PathText { prefix: base.prefix, body: rest.body }
    } else if base.body.len() == 0 || is_separator(base.body.last()) {
        PathText { prefix: base.prefix, body: base.body + rest.body }
    } else {
        PathText { prefix: base.prefix, body: base.body.push(joint(base)) + rest.body }
    }
}

/// The text of the directory that a path lies in.
pub open spec fn text_parent(text: PathText) -> PathText {
    text_front(text, (components(text).len() - 1) as nat)
}

/// The text of `path` after `from` has become `to`.
pub open spec fn text_moved(path: PathText, from: PathView, to: PathText) -> PathText {
    if components(path) == from {
        to
    } else if is_under(components(path), from) {
        text_joined(to, text_behind(path, from.len()))
    } else {
        path
    }
}

/// The text of `path` seen from `root`.
pub open spec fn text_from_root(path: PathText, root: PathView) -> PathText {
    if is_under(components(path), root) {
        text_behind(path, root.len())
    } else {
        path
    }
}

proof fn lemma_prefix_part(prefix: Seq<char>)
    requires
        prefix.len() > 0,
    ensures
        prefix_part(prefix).len() == prefix.len(),
        is_prefix(prefix_part(prefix)),
        !is_name(prefix_part(prefix)),
        prefix_part(prefix) != root_part(),
{
    assert(prefix_part(prefix)[0] == prefix_letter(prefix, 0));
    assert(root_part()[0] is Char);
}

/// Every component of a text is one that a path can have.
pub proof fn law_components_are_well_formed(text: PathText)
    ensures
        well_formed(components(text)),
        lead(components(text)) == prefix_parts(text.prefix).len(),
        components(text).len() == prefix_parts(text.prefix).len() + parts_of(text.body).len(),
        components(text).len() == 0 <==> text == no_text(),
{
    let path = components(text);
    let before = prefix_parts(text.prefix).len() as int;
    let parts = parts_of(text.body);
    lemma_parts(text.body);
    if text.prefix.len() > 0 {
        lemma_prefix_part(text.prefix);
        assert(path[0] == prefix_part(text.prefix));
    } else if parts.len() > 0 {
        assert(path[0] == parts[0]);
    }
    assert forall|i: int| 0 <= i < path.len() implies {
        ||| is_name(#[trigger] path[i])
        ||| path[i] == dots_part()
        ||| i == lead(path) && (path[i] == root_part() || path[i] == dot_part())
        ||| i < lead(path)
    } by {
        if i >= before {
            let part = parts[i - before];
            assert(path[i] == part);
            assert(part == root_part() ==> i == before);
        }
    }
    if path.len() == 0 {
        assert(text =~= no_text());
    }
}

proof fn lemma_front(text: PathText, count: nat)
    requires
        count <= components(text).len(),
    ensures
        components(text_front(text, count)) == components(text).take(count as int),
{
    let before = prefix_parts(text.prefix).len();
    law_components_are_well_formed(text);
    if count < before {
        lemma_parts(no_text().body);
        assert(components(no_text()) =~= seq![]);
        assert(components(text).take(count as int) =~= seq![]);
    } else {
        lemma_front_of(text.body, (count - before) as nat);
        assert(components(text_front(text, count)) =~= components(text).take(count as int));
    }
}

/// What is left of a text behind some of its components has the others.
proof fn lemma_behind(text: PathText, count: nat)
    requires
        count <= components(text).len(),
    ensures
        components(text_behind(text, count)) == components(text).skip(count as int),
{
    let before = prefix_parts(text.prefix).len();
    law_components_are_well_formed(text);
    if count < before {
        lemma_behind_of(text.body, 0);
        assert(parts_of(text.body).skip(0) =~= parts_of(text.body));
        assert(components(text).skip(0) =~= components(text));
    } else {
        lemma_behind_of(text.body, (count - before) as nat);
        assert(components(text_behind(text, count)) =~= components(text).skip(count as int));
    }
}

/// The text of the directory that a path lies in reads as that directory.
pub(crate) proof fn lemma_parent_text(text: PathText)
    ensures
        parent(components(text)) is Some ==> parent(components(text)) == Some(
            components(text_parent(text)),
        ),
{
    let path = components(text);
    if parent(path) is Some {
        lemma_front(text, (path.len() - 1) as nat);
        assert(path.take(path.len() - 1) =~= path.drop_last());
    }
}

/// Joined texts read as joined components.
pub(crate) proof fn lemma_joined(base: PathText, rest: PathText)
    ensures
        components(text_joined(base, rest)) == join(components(base), components(rest)),
{
    law_components_are_well_formed(base);
    law_components_are_well_formed(rest);
    lemma_parts(base.body);
    lemma_parts(rest.body);
    let whole = components(base);
    let more = components(rest);
    if !(rest.prefix.len() > 0 || base == no_text()) {
        assert(more =~= parts_of(rest.body));
        assert(whole.take(lead(whole) as int) =~= prefix_parts(base.prefix));
        if rest.body.len() > 0 && is_separator(rest.body[0]) {
            assert(components(text_joined(base, rest)) =~= join(whole, more));
        } else if base.body.len() == 0 {
            assert(base.body + rest.body =~= rest.body);
            assert(whole =~= prefix_parts(base.prefix));
            assert(components(text_joined(base, rest)) =~= join(whole, more));
        } else {
            if is_separator(base.body.last()) {
                lemma_goes_on(base.body, rest.body);
            } else {
                let longer = base.body.push(joint(base));
                lemma_separator_behind(base.body, joint(base));
                lemma_goes_on(longer, rest.body);
            }
            assert(components(text_joined(base, rest)) =~= join(whole, more));
        }
    }
}

/// A name, written as text, is a path of that one component.
pub(crate) proof fn lemma_components_of_name(name: Seq<char>)
    requires
        is_name(chars(name)),
    ensures
        components(letters(name)) == seq![chars(name)],
{
    assert(chars(name).len() == name.len());
    assert(!name.contains('/')) by {
        if name.contains('/') {
            let k = choose|k: int| 0 <= k < name.len() && name[k] == '/';
            assert(chars(name)[k] == letter(name[k]));
            assert(chars(name).contains(slash()));
        }
    }
    lemma_one_part(name);
    assert(components(letters(name)) =~= seq![chars(name)]);
}

impl FilePath {
    /// The path as it was given.
    pub closed spec fn text(self) -> PathText {
        PathText { prefix: self.before@, body: self.letters@ }
    }

    spec fn cut_pairs(self) -> Seq<(int, int)> {
        pairs(self.cuts@)
    }

    #[verifier::type_invariant]
    spec fn inv(self) -> bool {
        self.cut_pairs() == cuts_of(self.letters@)
    }

    /// The path that is given by `letters`, with `before` before its root.
    fn from_parts(before: Vec<char>, letters: Vec<Letter>) -> (path: FilePath)
        ensures
            path.text() == (PathText { prefix: before@, body: letters@ }),
    {
        let ghost whole = plain(letters@);
        let length = letters.len();
        let mut cuts: Vec<(usize, usize)> = Vec::new();
        let mut start: usize = 0;
        let mut i: usize = 0;
        assert(pairs(cuts@) =~= closed_cuts(whole.take(0)));
        while i < length
            invariant
                length == letters@.len(),
                whole == plain(letters@),
                start <= i <= length,
                start == piece_start(whole.take(i as int)),
                pairs(cuts@) == closed_cuts(whole.take(i as int)),
            decreases length - i,
        {
            let ghost now = whole.take(i as int);
            let ghost next = whole.take(i + 1);
            let ghost before = pairs(cuts@);
            assert(next.drop_last() =~= now);
            assert(next.last() == letters@[i as int].plain());
            if separates(letters[i]) {
                if i == 0 {
                    cuts.push((0, 1));
                    assert(pairs(cuts@) =~= before.push((0, 1)));
                    assert(now =~= seq![]);
                    assert(before =~= seq![]);
                    assert(pairs(cuts@) =~= closed_cuts(next));
                } else {
                    push_cut(&letters, &mut cuts, start, i);
                    assert(pairs(cuts@) =~= all_cuts(now));
                }
                start = i + 1;
            }
            i += 1;
        }
        assert(whole.take(i as int) =~= whole);
        push_cut(&letters, &mut cuts, start, length);
        assert(pairs(cuts@) =~= all_cuts(whole));
        FilePath { before, letters, cuts }
    }

    /// The path that is given by `letters`.
    pub fn from_letters(letters: Vec<Letter>) -> (path: FilePath)
        ensures
            path.text() == (PathText { prefix: seq![], body: letters@ }),
    {
        let before: Vec<char> = Vec::new();
        assert(before@ =~= seq![]);
        FilePath::from_parts(before, letters)
    }

    /// The path that is given by `letters`, with `prefix` before its root: a
    /// drive, or what else a platform has there.
    pub fn with_prefix(prefix: &str, letters: Vec<Letter>) -> (path: FilePath)
        ensures
            path.text() == (PathText { prefix: prefix@, body: letters@ }),
    {
        let mut before: Vec<char> = Vec::new();
        for c in it: prefix.chars()
            invariant
                it.seq() == prefix@,
                before@ == prefix@.take(it.index() as int),
        {
            before.push(c);
            assert(before@ =~= prefix@.take(it.index() as int + 1));
        }
        assert(before@ =~= prefix@);
        FilePath::from_parts(before, letters)
    }

    /// The path with no components.
    pub fn empty() -> (path: FilePath)
        ensures
            path.text() == no_text(),
    {
        let path = FilePath::from_letters(Vec::new());
        assert(path.text() =~= no_text());
        path
    }

    /// The path that is written as `text`, with slashes.
    pub fn parse(text: &str) -> (path: FilePath)
        ensures
            path.text() == letters(text@),
    {
        let mut list: Vec<Letter> = Vec::new();
        for c in it: text.chars()
            invariant
                it.seq() == text@,
                list@ == chars(text@).take(it.index() as int),
        {
            list.push(Letter::Char(c));
            assert(list@.last() == letter(text@[it.index() as int]));
            assert(list@ =~= chars(text@).take(it.index() as int + 1));
        }
        assert(list@ =~= chars(text@));
        FilePath::from_letters(list)
    }

    /// What was given behind the prefix.
    pub fn as_letters(&self) -> (letters: &[Letter])
        ensures
            letters@ == self.text().body,
    {
        self.letters.as_slice()
    }

    /// What was given before the root.
    pub fn prefix_chars(&self) -> (prefix: &[char])
        ensures
            prefix@ == self.text().prefix,
    {
        self.before.as_slice()
    }

    /// How many components stand before the root.
    fn lead_count(&self) -> (count: usize)
        ensures
            count == prefix_parts(self.text().prefix).len(),
            count == lead(self@),
            count <= 1,
    {
        proof {
            law_components_are_well_formed(self.text());
        }
        if self.before.len() > 0 {
            1
        } else {
            0
        }
    }

    /// How many components the path has.
    pub fn part_count(&self) -> (count: usize)
        ensures
            count == self@.len(),
            count >= lead(self@),
    {
        proof {
            use_type_invariant(self);
            lemma_parts(self.letters@);
            law_components_are_well_formed(self.text());
            assert(self.cuts@.len() == self.cut_pairs().len());
            assert(self.letters.len() <= usize::MAX);
        }
        self.lead_count() + self.cuts.len()
    }

    /// Where the component at `index`, behind the prefix, stands.
    fn cut_at(&self, index: usize) -> (cut: (usize, usize))
        requires
            lead(self@) <= index < self@.len(),
        ensures
            cut.0 < cut.1 <= self.letters@.len(),
            self@[index as int] == plain(self.letters@.subrange(cut.0 as int, cut.1 as int)),
            cut == self.cuts@[index - lead(self@)],
            lead(self@) + self.cuts@.len() == self@.len(),
    {
        let first = self.lead_count();
        proof {
            use_type_invariant(self);
            lemma_parts(self.letters@);
            law_components_are_well_formed(self.text());
            assert(self.cuts@.len() == self.cut_pairs().len());
            let k = index - first;
            assert(self.cut_pairs()[k] == cuts_of(self.letters@)[k]);
            assert(self@[index as int] == parts_of(self.letters@)[k]);
        }
        self.cuts[index - first]
    }

    /// Whether the two prefixes are one component.
    fn same_prefix(&self, other: &FilePath) -> (same: bool)
        ensures
            same == (prefix_part(self.before@) == prefix_part(other.before@)),
    {
        let ghost mine = prefix_part(self.before@);
        let ghost theirs = prefix_part(other.before@);
        let length = self.before.len();
        if length != other.before.len() {
            assert(mine.len() != theirs.len());
            return false;
        }
        let mut i: usize = 0;
        while i < length
            invariant
                i <= length,
                length == self.before@.len(),
                length == other.before@.len(),
                mine == prefix_part(self.before@),
                theirs == prefix_part(other.before@),
                forall|k: int| 0 <= k < i ==> mine[k] == theirs[k],
            decreases length - i,
        {
            let a = prefix_code(&self.before, i);
            let b = prefix_code(&other.before, i);
            assert(mine[i as int] == prefix_letter(self.before@, i as int));
            assert(theirs[i as int] == prefix_letter(other.before@, i as int));
            if a != b {
                assert(mine[i as int] != theirs[i as int]);
                return false;
            }
            i += 1;
        }
        assert(mine =~= theirs);
        true
    }

    /// Whether the component at `index` is that of `other` there.
    fn same_part(&self, other: &FilePath, index: usize) -> (same: bool)
        requires
            index < self@.len(),
            index < other@.len(),
        ensures
            same == (self@[index as int] == other@[index as int]),
    {
        let first = self.lead_count();
        let second = other.lead_count();
        if index < first || index < second {
            proof {
                law_components_are_well_formed(self.text());
                law_components_are_well_formed(other.text());
                assert(index == 0);
                assert(is_prefix(self@[0]) == (first == 1));
                assert(is_prefix(other@[0]) == (second == 1));
                if first == 1 {
                    assert(self@[0] == prefix_part(self.before@));
                }
                if second == 1 {
                    assert(other@[0] == prefix_part(other.before@));
                }
            }
            return first == second && self.same_prefix(other);
        }
        let (start, end) = self.cut_at(index);
        let (from, to) = other.cut_at(index);
        let ghost mine = self@[index as int];
        let ghost theirs = other@[index as int];
        if end - start != to - from {
            assert(mine.len() != theirs.len());
            return false;
        }
        let length: usize = end - start;
        let mut i: usize = 0;
        while i < length
            invariant
                i <= length,
                length == end - start,
                length == to - from,
                end <= self.letters@.len(),
                to <= other.letters@.len(),
                mine == self@[index as int],
                theirs == other@[index as int],
                mine == plain(self.letters@.subrange(start as int, end as int)),
                theirs == plain(other.letters@.subrange(from as int, to as int)),
                forall|k: int| 0 <= k < i ==> mine[k] == theirs[k],
            decreases length - i,
        {
            assert(mine[i as int] == self.letters@[start + i].plain());
            assert(theirs[i as int] == other.letters@[from + i].plain());
            if plain_letter(self.letters[start + i]) != plain_letter(other.letters[from + i]) {
                return false;
            }
            i += 1;
        }
        assert(mine =~= theirs);
        true
    }

    /// Whether the path is `base` or lies below it.
    pub fn starts_with(&self, base: &FilePath) -> (under: bool)
        ensures
            under == is_under(self@, base@),
    {
        let count = base.part_count();
        if count > self.part_count() {
            return false;
        }
        let mut i: usize = 0;
        while i < count
            invariant
                i <= count,
                count == base@.len(),
                count <= self@.len(),
                forall|k: int| 0 <= k < i ==> self@[k] == base@[k],
            decreases count - i,
        {
            if !self.same_part(base, i) {
                assert(self@.take(count as int)[i as int] != base@[i as int]);
                return false;
            }
            i += 1;
        }
        assert(self@.take(count as int) =~= base@);
        true
    }

    /// Whether the two paths have the same components.
    pub fn same(&self, other: &FilePath) -> (same: bool)
        ensures
            same == (self@ == other@),
    {
        let same = self.part_count() == other.part_count() && self.starts_with(other);
        proof {
            if self@.len() == other@.len() {
                assert(self@.take(other@.len() as int) =~= self@);
            }
        }
        same
    }

    /// What is left of the path behind `base`, where it lies below `base`.
    pub fn strip_prefix(&self, base: &FilePath) -> (rest: Option<FilePath>)
        ensures
            rest is Some == is_under(self@, base@),
            rest matches Some(path) ==> path.text() == text_behind(self.text(), base@.len()),
            path_view(rest) == relative_to(self@, base@),
    {
        if !self.starts_with(base) {
            return None;
        }
        let count = base.part_count();
        let first = self.lead_count();
        let total = self.part_count();
        proof {
            use_type_invariant(self);
            lemma_behind(self.text(), count as nat);
            law_components_are_well_formed(self.text());
            lemma_parts(self.letters@);
            assert(self.cuts@.len() == self.cut_pairs().len());
        }
        let mut before: Vec<char> = Vec::new();
        if count < first {
            before = copy_chars(&self.before);
        } else {
            assert(before@ =~= seq![]);
        }
        let from: usize = if count < first {
            first
        } else {
            count
        };
        if from == total {
            let rest = FilePath::from_parts(before, Vec::new());
            assert(rest.text() =~= text_behind(self.text(), count as nat));
            return Some(rest);
        }
        let start = self.cut_at(from).0;
        let end = self.cut_at(total - 1).1;
        proof {
            assert(self.cut_pairs()[from - first] == cuts_of(self.letters@)[from - first]);
            assert(self.cut_pairs().last() == cuts_of(self.letters@).last());
        }
        let rest = FilePath::from_parts(before, copy_letters(&self.letters, start, end));
        assert(rest.text() =~= text_behind(self.text(), count as nat));
        Some(rest)
    }

    /// The first `count` components.
    pub fn prefix(&self, count: usize) -> (path: FilePath)
        requires
            count <= self@.len(),
        ensures
            path.text() == text_front(self.text(), count as nat),
            path@ == self@.take(count as int),
    {
        let first = self.lead_count();
        proof {
            use_type_invariant(self);
            lemma_front(self.text(), count as nat);
            law_components_are_well_formed(self.text());
            lemma_parts(self.letters@);
            assert(self.cuts@.len() == self.cut_pairs().len());
        }
        if count < first {
            return FilePath::empty();
        }
        let before = copy_chars(&self.before);
        if count == first {
            let path = FilePath::from_parts(before, Vec::new());
            assert(path.text() =~= text_front(self.text(), count as nat));
            return path;
        }
        let end = self.cut_at(count - 1).1;
        assert(self.cut_pairs()[count - 1 - first] == cuts_of(self.letters@)[count - 1 - first]);
        assert(self.letters@.subrange(0, end as int) =~= self.letters@.take(end as int));
        FilePath::from_parts(before, copy_letters(&self.letters, 0, end))
    }

    /// The path of `rest` seen from here. A `rest` that starts at a root is its
    /// own path.
    pub fn join(&self, rest: &FilePath) -> (path: FilePath)
        ensures
            path.text() == text_joined(self.text(), rest.text()),
            path@ == join(self@, rest@),
    {
        proof {
            lemma_joined(self.text(), rest.text());
        }
        let length = self.letters.len();
        let bare = length == 0 && self.before.len() == 0;
        proof {
            if bare {
                assert(self.text() =~= no_text());
            }
        }
        if rest.before.len() > 0 || bare {
            return rest.clone();
        }
        let before = copy_chars(&self.before);
        let mut behind = copy_letters(&rest.letters, 0, rest.letters.len());
        assert(behind@ =~= rest.letters@);
        if rest.letters.len() > 0 && separates(rest.letters[0]) {
            return FilePath::from_parts(before, behind);
        }
        let mut whole = copy_letters(&self.letters, 0, length);
        assert(whole@ =~= self.letters@);
        if length > 0 && !separates(self.letters[length - 1]) {
            whole.push(self.separator());
        }
        whole.append(&mut behind);
        FilePath::from_parts(before, whole)
    }

    /// How the path goes on.
    fn separator(&self) -> (separator: Letter)
        ensures
            separator == joint(self.text()),
    {
        if self.before.len() > 0 {
            return Letter::Back;
        }
        let mut i: usize = 0;
        while i < self.letters.len()
            invariant
                i <= self.letters@.len(),
                forall|k: int| 0 <= k < i ==> self.letters@[k] != Letter::Back,
            decreases self.letters@.len() - i,
        {
            if self.letters[i] == Letter::Back {
                assert(self.letters@.contains(self.letters@[i as int]));
                return Letter::Back;
            }
            i += 1;
        }
        Letter::Char('/')
    }

    /// The path without its last component.
    pub fn parent(&self) -> (path: Option<FilePath>)
        ensures
            path_view(path) == parent(self@),
            path matches Some(above) ==> above.text() == text_parent(self.text()),
    {
        let first = self.lead_count();
        let count = self.part_count();
        proof {
            law_components_are_well_formed(self.text());
            lemma_parts(self.letters@);
        }
        if count == first {
            return None;
        }
        let ghost last = self@[count - 1];
        assert(last == parts_of(self.letters@)[count - 1 - first]);
        if count - first == 1 && separates(self.letters[0]) {
            assert(last == root_part());
            return None;
        }
        assert(last != root_part());
        assert(self@.take(count - 1) =~= self@.drop_last());
        Some(self.prefix(count - 1))
    }

    /// The name of the entry that the path leads to, as it is shown.
    pub fn file_name(&self) -> (name: Option<String>)
        ensures
            name matches Some(text) ==> file_name(self@) == Some(text@),
            name is None ==> file_name(self@) is None,
    {
        let count = self.part_count();
        if count == 0 || !self.is_name_at(count - 1) {
            return None;
        }
        proof {
            law_components_are_well_formed(self.text());
            if lead(self@) == count {
                lemma_prefix_part(self.before@);
                assert(self@[0] == prefix_part(self.before@));
            }
        }
        let (start, end) = self.cut_at(count - 1);
        Some(plain_text(&self.letters, start, end))
    }

    /// Whether the component at `index` is a name.
    fn is_name_at(&self, index: usize) -> (named: bool)
        requires
            index < self@.len(),
        ensures
            named == is_name(self@[index as int]),
    {
        let first = self.lead_count();
        proof {
            law_components_are_well_formed(self.text());
            lemma_parts(self.letters@);
        }
        if index < first {
            assert(is_prefix(self@[0]));
            return false;
        }
        let (start, end) = self.cut_at(index);
        let length: usize = end - start;
        let ghost part = self@[index as int];
        assert(part == parts_of(self.letters@)[index - first]);
        assert(part[0] == self.letters@[start as int].plain());
        let dot = Letter::Char('.');
        let lone = plain_letter(self.letters[start]);
        if length == 1 {
            proof {
                if part[0] == dot {
                    assert(part =~= dot_part());
                } else if part[0] == slash() {
                    assert(part.contains(part[0]));
                } else {
                    assert(root_part()[0] == slash());
                    assert(dot_part()[0] == dot);
                    assert(dots_part().len() == 2);
                }
            }
            lone != dot && lone != Letter::Char('/')
        } else {
            assert(root_part().len() == 1 && dot_part().len() == 1);
            if length == 2 {
                let other = plain_letter(self.letters[start + 1]);
                assert(part[1] == self.letters@[start + 1].plain());
                proof {
                    if part[0] == dot && part[1] == dot {
                        assert(part =~= dots_part());
                    } else {
                        assert(dots_part()[0] == dot && dots_part()[1] == dot);
                    }
                }
                !(lone == dot && other == dot)
            } else {
                assert(dots_part().len() == 2);
                true
            }
        }
    }

    /// Whether every component from the one at `start` on is a name.
    fn names_from(&self, start: usize) -> (plain: bool)
        requires
            start <= self@.len(),
        ensures
            plain == all_names(self@.skip(start as int)),
    {
        let count = self.part_count();
        let mut i: usize = start;
        while i < count
            invariant
                start <= i <= count,
                count == self@.len(),
                forall|k: int| start <= k < i ==> is_name(#[trigger] self@[k]),
            decreases count - i,
        {
            if !self.is_name_at(i) {
                assert(!is_name(self@.skip(start as int)[i - start]));
                return false;
            }
            i += 1;
        }
        assert forall|k: int| 0 <= k < self@.skip(start as int).len() implies is_name(
            #[trigger] self@.skip(start as int)[k],
        ) by {
            assert(self@.skip(start as int)[k] == self@[k + start]);
        }
        true
    }

    /// Whether every component from the one at `start` on is nothing but
    /// characters.
    fn text_from(&self, start: usize) -> (plain_text: bool)
        requires
            start <= self@.len(),
        ensures
            plain_text == all_text(self@.skip(start as int)),
    {
        let first = self.lead_count();
        let count = self.part_count();
        let ghost rest = self@.skip(start as int);
        proof {
            law_components_are_well_formed(self.text());
        }
        if start < first {
            assert(is_prefix(rest[0]));
            assert(!(rest[0][0] is Char));
            return false;
        }
        let mut i: usize = start;
        while i < count
            invariant
                first == lead(self@),
                first <= start <= i <= count,
                count == self@.len(),
                rest == self@.skip(start as int),
                forall|k: int| 0 <= k < i - start ==> is_text(#[trigger] rest[k]),
            decreases count - i,
        {
            let (from, to) = self.cut_at(i);
            let ghost part = plain(self.letters@.subrange(from as int, to as int));
            assert(rest[i - start] == part);
            let mut k: usize = from;
            while k < to
                invariant
                    from <= k <= to <= self.letters@.len(),
                    part == plain(self.letters@.subrange(from as int, to as int)),
                    start <= i,
                    i - start < rest.len(),
                    rest == self@.skip(start as int),
                    rest[i - start] == part,
                    forall|m: int| 0 <= m < k - from ==> (#[trigger] part[m]) is Char,
                decreases to - k,
            {
                assert(part[k - from] == self.letters@[k as int].plain());
                if let Letter::Stray(_) = plain_letter(self.letters[k]) {
                    assert(!is_text(rest[i - start]));
                    return false;
                }
                k += 1;
            }
            i += 1;
        }
        true
    }

    /// The path as it is shown: as it was given, with a sign for what is no
    /// character.
    pub fn display(&self) -> (text: String)
        ensures
            text@ == shown(self.text()),
    {
        let mut text = String::new();
        let mut i: usize = 0;
        while i < self.before.len()
            invariant
                i <= self.before@.len(),
                text@ == self.before@.take(i as int),
            decreases self.before@.len() - i,
        {
            text.push(self.before[i]);
            assert(text@ =~= self.before@.take(i + 1));
            i += 1;
        }
        assert(text@ =~= self.before@);
        let ghost body = shown_letters(self.letters@);
        i = 0;
        while i < self.letters.len()
            invariant
                i <= self.letters@.len(),
                body == shown_letters(self.letters@),
                text@ == self.before@ + body.take(i as int),
            decreases self.letters@.len() - i,
        {
            text.push(shown_char(self.letters[i]));
            assert(text@ =~= self.before@ + body.take(i + 1));
            i += 1;
        }
        assert(body.take(i as int) =~= body);
        text
    }
}

/// `String::push` puts one character behind the text.
pub assume_specification[ String::push ](text: &mut String, c: char)
    ensures
        final(text)@ == old(text)@.push(c),
;

spec fn pairs(cuts: Seq<(usize, usize)>) -> Seq<(int, int)> {
    cuts.map_values(|cut: (usize, usize)| (cut.0 as int, cut.1 as int))
}

fn plain_letter(letter: Letter) -> (flat: Letter)
    ensures
        flat == letter.plain(),
{
    match letter {
        Letter::Back => Letter::Char('/'),
        Letter::Prefix(code) => Letter::Stray(code),
        other => other,
    }
}

fn separates(letter: Letter) -> (separator: bool)
    ensures
        separator == is_separator(letter),
{
    plain_letter(letter) == Letter::Char('/')
}

fn shown_char(letter: Letter) -> (c: char)
    ensures
        c == letter.shown(),
{
    match letter {
        Letter::Char(c) => c,
        Letter::Back => '\\',
        Letter::Stray(_) => '\u{fffd}',
        Letter::Prefix(_) => '\u{fffd}',
    }
}

fn prefix_code(prefix: &Vec<char>, i: usize) -> (code: u32)
    requires
        i < prefix@.len(),
    ensures
        prefix_letter(prefix@, i as int) == Letter::Prefix(code),
{
    let code: u32 = prefix[i] as u32;
    if prefix.len() == 2 && prefix[1] == ':' && i == 0 && 0x61 <= code && code <= 0x7a {
        code - 0x20
    } else {
        code
    }
}

/// Adds the piece from `start` to `end`, where it is a component.
fn push_cut(letters: &Vec<Letter>, cuts: &mut Vec<(usize, usize)>, start: usize, end: usize)
    requires
        start <= end <= letters@.len(),
    ensures
        pairs(final(cuts)@) == pairs(old(cuts)@) + (if is_part(
            plain(letters@).take(end as int),
            start as int,
            end as int,
        ) {
            seq![(start as int, end as int)]
        } else {
            seq![]
        }),
{
    if start < end && !(start > 0 && end - start == 1 && letters[start] == Letter::Char('.')) {
        cuts.push((start, end));
    }
    assert(start < end ==> plain(letters@).take(end as int)[start as int]
        == letters@[start as int].plain());
    assert(pairs(cuts@) =~= pairs(old(cuts)@) + (if is_part(
        plain(letters@).take(end as int),
        start as int,
        end as int,
    ) {
        seq![(start as int, end as int)]
    } else {
        seq![]
    }));
}

fn copy_letters(letters: &Vec<Letter>, start: usize, end: usize) -> (copy: Vec<Letter>)
    requires
        start <= end <= letters@.len(),
    ensures
        copy@ == letters@.subrange(start as int, end as int),
{
    let mut copy: Vec<Letter> = Vec::new();
    let mut i: usize = start;
    while i < end
        invariant
            start <= i <= end <= letters@.len(),
            copy@ == letters@.subrange(start as int, i as int),
        decreases end - i,
    {
        copy.push(letters[i]);
        assert(copy@ =~= letters@.subrange(start as int, i + 1));
        i += 1;
    }
    copy
}

fn copy_chars(chars: &Vec<char>) -> (copy: Vec<char>)
    ensures
        copy@ == chars@,
{
    let mut copy: Vec<char> = Vec::new();
    let mut i: usize = 0;
    while i < chars.len()
        invariant
            i <= chars@.len(),
            copy@ == chars@.take(i as int),
        decreases chars@.len() - i,
    {
        copy.push(chars[i]);
        assert(copy@ =~= chars@.take(i + 1));
        i += 1;
    }
    assert(copy@ =~= chars@);
    copy
}

/// A component as it is shown.
fn plain_text(letters: &Vec<Letter>, start: usize, end: usize) -> (text: String)
    requires
        start <= end <= letters@.len(),
    ensures
        text@ == shown_letters(plain(letters@.subrange(start as int, end as int))),
{
    let ghost whole = plain(letters@.subrange(start as int, end as int));
    let mut text = String::new();
    let mut i: usize = start;
    while i < end
        invariant
            start <= i <= end <= letters@.len(),
            whole == plain(letters@.subrange(start as int, end as int)),
            text@ == shown_letters(whole).take(i - start),
        decreases end - i,
    {
        text.push(shown_char(plain_letter(letters[i])));
        assert(whole[i - start] == letters@[i as int].plain());
        assert(text@ =~= shown_letters(whole).take(i - start + 1));
        i += 1;
    }
    assert(text@ =~= shown_letters(whole));
    text
}

/// A path that may be missing, by its view.
pub open spec fn path_view(path: Option<FilePath>) -> Option<PathView> {
    match path {
        Some(inner) => Some(inner@),
        None => None,
    }
}

/// A path that may be missing, as it was given.
pub open spec fn path_text(path: Option<FilePath>) -> Option<PathText> {
    match path {
        Some(inner) => Some(inner.text()),
        None => None,
    }
}

/// A message about a path, by its view.
pub open spec fn message_view(message: Option<(FilePath, String)>) -> Option<
    (PathText, Seq<char>),
> {
    match message {
        Some((path, text)) => Some((path.text(), text@)),
        None => None,
    }
}

/// Whether `slot` holds `path`.
pub fn holds(slot: &Option<FilePath>, path: &FilePath) -> (same: bool)
    ensures
        same == (path_view(*slot) == Some(path@)),
{
    match slot {
        Some(inner) => inner.same(path),
        None => false,
    }
}

/// Copies a path that may be missing.
pub fn clone_slot(slot: &Option<FilePath>) -> (copy: Option<FilePath>)
    ensures
        path_text(copy) == path_text(*slot),
{
    match slot {
        Some(inner) => Some(inner.clone()),
        None => None,
    }
}

/// `path` with a leading `old` replaced by `new`; `None` where `path` has
/// nothing to do with `old`.
pub fn remap_path(path: &FilePath, old: &FilePath, new: &FilePath) -> (there: Option<FilePath>)
    ensures
        path_view(there) == remapped(path@, old@, new@),
        there matches Some(target) ==> target.text() == text_moved(
            path.text(),
            old@,
            new.text(),
        ),
{
    if path.same(old) {
        return Some(new.clone());
    }
    match path.strip_prefix(old) {
        Some(rest) => Some(new.join(&rest)),
        None => None,
    }
}

/// Whether `path` is a plain path inside `root`: below it, with no component
/// that leads elsewhere.
pub fn is_inside_worktree(root: &FilePath, path: &FilePath) -> (plain: bool)
    ensures
        plain == inside(root@, path@),
{
    if !path.starts_with(root) {
        return false;
    }
    let start = root.part_count();
    path.part_count() > start && path.names_from(start)
}

/// Whether what lies behind `root` in `path` is nothing but characters, where
/// `path` is a plain path inside `root`.
pub fn is_text_inside(root: &FilePath, path: &FilePath) -> (plain: bool)
    ensures
        plain == (inside(root@, path@) && all_text(path@.skip(root@.len() as int))),
{
    is_inside_worktree(root, path) && path.text_from(root.part_count())
}

/// `path` relative to `root`, or `path` itself where it lies elsewhere.
pub fn worktree_relative(root: &FilePath, path: &FilePath) -> (relative: FilePath)
    ensures
        relative@ == from_root(path@, root@),
        relative.text() == text_from_root(path.text(), root@),
{
    match path.strip_prefix(root) {
        Some(rest) => rest,
        None => path.clone(),
    }
}

impl Clone for FilePath {
    fn clone(&self) -> (copy: FilePath)
        ensures
            copy.text() == self.text(),
    {
        assert(self.letters@.subrange(0, self.letters@.len() as int) =~= self.letters@);
        let letters = copy_letters(&self.letters, 0, self.letters.len());
        FilePath::from_parts(copy_chars(&self.before), letters)
    }
}

/// What is left of a path behind the root reads as what is left of its
/// components.
pub(crate) proof fn lemma_from_root(path: PathText, root: PathView)
    ensures
        components(text_from_root(path, root)) == from_root(components(path), root),
{
    if is_under(components(path), root) {
        lemma_behind(path, root.len());
    }
}

/// The text of a path that followed a rename reads as its components that did.
pub(crate) proof fn lemma_text_moved(path: PathText, from: PathView, to: PathText)
    ensures
        components(text_moved(path, from, to)) == moved(components(path), from, components(to)),
{
    if components(path) != from && is_under(components(path), from) {
        lemma_behind(path, from.len());
        lemma_joined(to, text_behind(path, from.len()));
    }
}

/// Whatever a rename carries along, the rename back brings home: a path that
/// follows `old` to `new` follows `new` back to where it was.
pub proof fn law_remap_back(path: PathText, old_path: PathView, new_path: PathView)
    requires
        !is_bare(old_path),
        remapped(components(path), old_path, new_path) is Some,
    ensures
        remapped(remapped(components(path), old_path, new_path)->0, new_path, old_path) == Some(
            components(path),
        ),
{
    law_components_are_well_formed(path);
    lemma_remap_back(components(path), old_path, new_path);
}

pub(crate) proof fn lemma_remap_back(path: PathView, old_path: PathView, new_path: PathView)
    requires
        well_formed(path),
        !is_bare(old_path),
        remapped(path, old_path, new_path) is Some,
    ensures
        remapped(remapped(path, old_path, new_path)->0, new_path, old_path) == Some(path),
{
    let rest = path.skip(old_path.len() as int);
    if path != old_path {
        assert(path =~= old_path + rest);
        if rest.len() == 0 {
            assert(path =~= old_path);
        }
        assert(rest[0] == path[old_path.len() as int]);
        lemma_inner_part(path, old_path.len() as int);
        let there = join(new_path, rest);
        assert(there =~= new_path + rest);
        assert(there.take(new_path.len() as int) =~= new_path);
        assert(there.skip(new_path.len() as int) =~= rest);
    } else {
        assert(new_path.take(new_path.len() as int) =~= new_path);
    }
}

/// A name shows no slash.
pub(crate) proof fn lemma_shown_name(name: Letters)
    requires
        is_name(name),
    ensures
        !shown_letters(name).contains('/'),
{
    if shown_letters(name).contains('/') {
        let text = shown_letters(name);
        let k = choose|k: int| 0 <= k < text.len() && text[k] == '/';
        assert(text[k] == name[k].shown());
        assert(name[k] == slash());
        assert(name.contains(slash()));
    }
}

/// A name is neither the root nor anything before it.
pub(crate) proof fn lemma_name_is_no_root(name: Letters)
    requires
        is_name(name),
    ensures
        name != root_part(),
        !is_prefix(name),
{
    if name == root_part() {
        assert(name[0] == slash());
        assert(name.contains(slash()));
    }
}

proof fn lemma_inner_part(path: PathView, index: int)
    requires
        well_formed(path),
        lead(path) < index < path.len(),
    ensures
        path[index] != root_part(),
        path[index] != dot_part(),
        !is_prefix(path[index]),
{
    if path[index] == root_part() {
        assert(path[index][0] == slash());
        assert(path[index].contains(slash()));
    }
    assert(dots_part().len() == 2 && dot_part().len() == 1 && root_part().len() == 1);
    assert(dots_part()[0] is Char);
}

/// A path that is given as characters is shown as it was given.
pub proof fn law_shown_as_given(text: Seq<char>)
    ensures
        shown(letters(text)) == text,
{
    assert forall|i: int| 0 <= i < text.len() implies #[trigger] shown(letters(text))[i]
        == text[i] by {
        assert(chars(text)[i] == letter(text[i]));
    }
    assert(chars(text).len() == text.len());
    assert(shown(letters(text)) =~= text);
}

/// A path that is nothing but characters, read again as it is shown, is the
/// same path.
pub proof fn law_text_reads_back(text: PathText)
    requires
        text.prefix.len() == 0,
        is_text(text.body),
    ensures
        letters(shown(text)) == text,
{
    let body = text.body;
    assert(shown(text) =~= shown_letters(body));
    lemma_chars_of_shown(body);
    assert(letters(shown(text)) =~= text);
}

pub(crate) proof fn lemma_chars_of_shown(body: Letters)
    requires
        is_text(body),
    ensures
        chars(shown_letters(body)) == body,
{
    assert forall|i: int| 0 <= i < body.len() implies #[trigger] chars(shown_letters(body))[i]
        == body[i] by {
        assert(body[i] is Char);
        assert(chars(shown_letters(body))[i] == letter(body[i].shown()));
    }
    assert(chars(shown_letters(body)) =~= body);
}

} // verus!
