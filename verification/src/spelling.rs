use vstd::prelude::*;

verus! {

/// A letter of a path's text.
#[derive(Clone, Copy, Debug, PartialEq, Eq, Structural)]
pub enum Letter {
    Char(char),
    /// A run of bytes that is no character, packed into a number.
    Stray(u32),
    /// A `\` that separates, as it does on some platforms. Where it does not it
    /// is a character.
    Back,
    /// A character of what stands before a root, such as a drive, by its code.
    /// It is a letter of components alone.
    Prefix(u32),
}

pub type Letters = Seq<Letter>;

impl Letter {
    /// How a letter is shown: what is no character gets a sign of its own.
    pub open spec fn shown(self) -> char {
        match self {
            Letter::Char(c) => c,
            Letter::Back => '\\',
            Letter::Stray(_) => '\u{fffd}',
            Letter::Prefix(_) => '\u{fffd}',
        }
    }

    /// A letter as components have it: however a separator is written, it is
    /// a slash.
    pub open spec fn plain(self) -> Letter {
        match self {
            Letter::Back => Letter::Char('/'),
            Letter::Prefix(code) => Letter::Stray(code),
            other => other,
        }
    }
}

/// Letters as they are shown.
pub open spec fn shown_letters(text: Letters) -> Seq<char> {
    text.map_values(|letter: Letter| letter.shown())
}

/// Letters as components have them.
pub open spec fn plain(text: Letters) -> Letters {
    text.map_values(|letter: Letter| letter.plain())
}

/// A character as a letter.
pub open spec fn letter(c: char) -> Letter {
    Letter::Char(c)
}

/// Characters as letters.
pub open spec fn chars(text: Seq<char>) -> Letters {
    text.map_values(|c: char| letter(c))
}

/// Whether letters are nothing but characters.
pub open spec fn is_text(text: Letters) -> bool {
    forall|i: int| 0 <= i < text.len() ==> (#[trigger] text[i]) is Char
}

pub open spec fn slash() -> Letter {
    Letter::Char('/')
}

pub open spec fn is_separator(letter: Letter) -> bool {
    letter.plain() == slash()
}

/// The component that leads to the root.
pub open spec fn root_part() -> Letters {
    seq![Letter::Char('/')]
}

/// The component for the directory itself.
pub open spec fn dot_part() -> Letters {
    seq![Letter::Char('.')]
}

/// The component for the directory above.
pub open spec fn dots_part() -> Letters {
    seq![Letter::Char('.'), Letter::Char('.')]
}

/// A component between slashes, other than the two for directories.
spec fn is_piece(part: Letters) -> bool {
    &&& part.len() > 0
    &&& !part.contains(slash())
    &&& part != dot_part()
    &&& part != dots_part()
}

spec fn slash_formed(path: Seq<Letters>) -> bool {
    forall|i: int|
        0 <= i < path.len() ==> {
            ||| is_piece(#[trigger] path[i])
            ||| path[i] == dots_part()
            ||| i == 0 && (path[i] == root_part() || path[i] == dot_part())
        }
}

pub open spec fn is_rooted(path: Seq<Letters>) -> bool {
    path.len() > 0 && path[0] == root_part()
}

/// Components without a `.` in front.
pub open spec fn undotted(path: Seq<Letters>) -> Seq<Letters> {
    if path.len() > 0 && path[0] == dot_part() {
        path.skip(1)
    } else {
        path
    }
}

spec fn slash_join(base: Seq<Letters>, rest: Seq<Letters>) -> Seq<Letters> {
    if is_rooted(rest) || base.len() == 0 {
        rest
    } else {
        base + undotted(rest)
    }
}

/// Where the last piece of `text` starts: behind its last slash.
pub open spec fn piece_start(text: Letters) -> int
    decreases text.len(),
{
    if text.len() == 0 {
        0
    } else if text.last() == slash() {
        text.len() as int
    } else {
        piece_start(text.drop_last())
    }
}

/// Whether the piece of `text` from `start` to `end` is a component: it is not
/// empty, and a `.` only where it opens the path.
pub open spec fn is_part(text: Letters, start: int, end: int) -> bool {
    start < end && !(start > 0 && end == start + 1 && text[start] == Letter::Char('.'))
}

/// The components of `text` that a slash follows, and the root's own slash, by
/// where they start and end.
pub open spec fn closed_cuts(text: Letters) -> Seq<(int, int)>
    decreases text.len(), 0int,
{
    if text.len() == 0 {
        seq![]
    } else {
        let front = text.drop_last();
        if text.last() != slash() {
            closed_cuts(front)
        } else if front.len() == 0 {
            seq![(0, 1)]
        } else {
            all_cuts(front)
        }
    }
}

/// The last piece of `text`, where it is a component.
pub open spec fn open_cut(text: Letters) -> Seq<(int, int)> {
    if is_part(text, piece_start(text), text.len() as int) {
        seq![(piece_start(text), text.len() as int)]
    } else {
        seq![]
    }
}

/// Where the components of `text` start and end.
pub open spec fn all_cuts(text: Letters) -> Seq<(int, int)>
    decreases text.len(), 1int,
{
    closed_cuts(text) + open_cut(text)
}

/// The components of letters in which slashes separate: what stands between
/// them, without what is empty and without an inner `.`.
pub open spec fn slash_parts(text: Letters) -> Seq<Letters> {
    all_cuts(text).map_values(|cut: (int, int)| text.subrange(cut.0, cut.1))
}

spec fn slash_front(text: Letters, count: nat) -> Letters {
    if count == 0 {
        seq![]
    } else {
        text.take(all_cuts(text)[count - 1].1)
    }
}

spec fn slash_behind(text: Letters, count: nat) -> Letters {
    if count < all_cuts(text).len() {
        text.subrange(all_cuts(text)[count as int].0, all_cuts(text).last().1)
    } else {
        seq![]
    }
}

/// Where the components of letters start and end, however separators are
/// written.
pub open spec fn cuts_of(text: Letters) -> Seq<(int, int)> {
    all_cuts(plain(text))
}

/// The components of letters, however separators are written.
pub open spec fn parts_of(text: Letters) -> Seq<Letters> {
    slash_parts(plain(text))
}

/// The letters of the first `count` components: what `text` starts with, up to
/// the end of the last of them.
pub open spec fn front_of(text: Letters, count: nat) -> Letters {
    if count == 0 {
        seq![]
    } else {
        text.take(cuts_of(text)[count - 1].1)
    }
}

/// The letters of the components behind the first `count`: what `text` holds
/// from the start of the next to the end of the last.
pub open spec fn behind_of(text: Letters, count: nat) -> Letters {
    if count < cuts_of(text).len() {
        text.subrange(cuts_of(text)[count as int].0, cuts_of(text).last().1)
    } else {
        seq![]
    }
}

proof fn lemma_piece_start(text: Letters)
    ensures
        0 <= piece_start(text) <= text.len(),
        forall|k: int| piece_start(text) <= k < text.len() ==> text[k] != slash(),
        piece_start(text) > 0 ==> text[piece_start(text) - 1] == slash(),
        piece_start(text) == 0 ==> closed_cuts(text).len() == 0,
    decreases text.len(),
{
    if text.len() > 0 {
        let front = text.drop_last();
        lemma_piece_start(front);
        assert(forall|k: int| 0 <= k < front.len() ==> text[k] == front[k]);
    }
}

/// Whether `cuts` are apart from each other, in order, and each is a component
/// of `text` that ends by `end`.
spec fn cut_well(text: Letters, cuts: Seq<(int, int)>, end: int) -> bool {
    &&& forall|i: int|
        0 <= i < cuts.len() ==> {
            let cut = #[trigger] cuts[i];
            &&& 0 <= cut.0 < cut.1 <= end
            &&& i > 0 ==> cut.0 > 0 && text[cut.0 - 1] == slash()
            &&& cut.1 <= cuts.last().1
            &&& cut.0 <= cuts.last().0
            &&& {
                ||| i == 0 && cut == (0int, 1int) && text[0] == slash()
                ||| is_part(text, cut.0, cut.1) && forall|k: int|
                    cut.0 <= k < cut.1 ==> text[k] != slash()
            }
        }
    &&& cuts.len() > 0 && text[0] == slash() ==> cuts[0] == (0int, 1int)
    &&& cuts.len() > 0 ==> cuts[0].0 == 0
}

proof fn lemma_closed_cuts(text: Letters)
    ensures
        cut_well(text, closed_cuts(text), piece_start(text)),
        text.len() > 0 && closed_cuts(text).len() == 0 ==> piece_start(text) == 0,
    decreases text.len(), 0int,
{
    lemma_piece_start(text);
    if text.len() > 0 {
        let front = text.drop_last();
        assert(forall|k: int| 0 <= k < front.len() ==> text[k] == front[k]);
        if text.last() != slash() {
            lemma_closed_cuts(front);
            lemma_piece_start(front);
            let cuts = closed_cuts(front);
            assert forall|i: int| 0 <= i < cuts.len() implies {
                let cut = #[trigger] cuts[i];
                ||| i == 0 && cut == (0int, 1int) && text[0] == slash()
                ||| is_part(text, cut.0, cut.1) && forall|k: int|
                    cut.0 <= k < cut.1 ==> text[k] != slash()
            } by {
                let cut = cuts[i];
                assert(is_part(front, cut.0, cut.1) ==> is_part(text, cut.0, cut.1));
            }
        } else if front.len() > 0 {
            lemma_all_cuts(front);
            let cuts = all_cuts(front);
            assert forall|i: int| 0 <= i < cuts.len() implies {
                let cut = #[trigger] cuts[i];
                ||| i == 0 && cut == (0int, 1int) && text[0] == slash()
                ||| is_part(text, cut.0, cut.1) && forall|k: int|
                    cut.0 <= k < cut.1 ==> text[k] != slash()
            } by {
                let cut = cuts[i];
                assert(is_part(front, cut.0, cut.1) ==> is_part(text, cut.0, cut.1));
            }
        } else {
            assert(text[0] == text.last());
        }
    }
}

/// The components of a text are in order, and every text but the empty one has
/// some.
proof fn lemma_all_cuts(text: Letters)
    ensures
        cut_well(text, all_cuts(text), text.len() as int),
        text.len() > 0 ==> all_cuts(text).len() > 0,
    decreases text.len(), 1int,
{
    lemma_closed_cuts(text);
    lemma_piece_start(text);
    let closed = closed_cuts(text);
    let cuts = all_cuts(text);
    if cuts.len() > closed.len() {
        assert(cuts.last() == (piece_start(text), text.len() as int));
        assert forall|i: int| 0 <= i < cuts.len() implies {
            let cut = #[trigger] cuts[i];
            &&& 0 <= cut.0 < cut.1 <= text.len()
            &&& i > 0 ==> cut.0 > 0 && text[cut.0 - 1] == slash()
            &&& cut.1 <= cuts.last().1
            &&& cut.0 <= cuts.last().0
            &&& {
                ||| i == 0 && cut == (0int, 1int) && text[0] == slash()
                ||| is_part(text, cut.0, cut.1) && forall|k: int|
                    cut.0 <= k < cut.1 ==> text[k] != slash()
            }
        } by {
            if i < closed.len() {
                assert(cuts[i] == closed[i]);
                assert(closed[i].1 <= piece_start(text));
            } else if i > 0 {
                assert(closed[0].1 <= piece_start(text));
            }
        }
        if closed.len() > 0 {
            assert(cuts[0] == closed[0]);
        }
    } else {
        assert(cuts =~= closed);
    }
}

/// Every component of a text is one that a path can have. A text that starts
/// with a slash has the root, and every text but the empty one has components.
proof fn lemma_slash_parts(text: Letters)
    ensures
        slash_formed(slash_parts(text)),
        slash_parts(text).len() == all_cuts(text).len(),
        is_rooted(slash_parts(text)) == (text.len() > 0 && text[0] == slash()),
        text.len() > 0 ==> slash_parts(text).len() > 0,
{
    lemma_all_cuts(text);
    let cuts = all_cuts(text);
    let parts = slash_parts(text);
    assert forall|i: int| 0 <= i < parts.len() implies {
        ||| is_piece(#[trigger] parts[i])
        ||| parts[i] == dots_part()
        ||| i == 0 && (parts[i] == root_part() || parts[i] == dot_part())
    } by {
        let cut = cuts[i];
        let part = text.subrange(cut.0, cut.1);
        assert(parts[i] == part);
        assert(forall|k: int| 0 <= k < part.len() ==> part[k] == text[cut.0 + k]);
        if i == 0 && cut == (0int, 1int) && text[0] == slash() {
            assert(part =~= root_part());
        } else {
            assert(!part.contains(slash()));
            if part == dot_part() {
                assert(part[0] == text[cut.0]);
                assert(cut.0 == 0);
            }
        }
    }
    if text.len() > 0 {
        let cut = cuts[0];
        assert(parts[0] == text.subrange(cut.0, cut.1));
        assert(parts[0][0] == text[cut.0]);
        if text[0] == slash() {
            assert(parts[0] =~= root_part());
        } else {
            assert(root_part()[0] == slash());
        }
    }
}

/// A slash behind a text that is not empty changes no component.
proof fn lemma_slash_behind(text: Letters)
    requires
        text.len() > 0,
    ensures
        all_cuts(text.push(slash())) == all_cuts(text),
        slash_parts(text.push(slash())) == slash_parts(text),
{
    let longer = text.push(slash());
    assert(longer.drop_last() =~= text);
    assert(all_cuts(longer) =~= all_cuts(text));
    lemma_all_cuts(text);
    assert(slash_parts(longer) =~= slash_parts(text)) by {
        assert forall|i: int| 0 <= i < all_cuts(text).len() implies slash_parts(longer)[i]
            == slash_parts(text)[i] by {
            let cut = all_cuts(text)[i];
            assert(longer.subrange(cut.0, cut.1) =~= text.subrange(cut.0, cut.1));
        }
    }
}

/// What a text starts with, up to the end of a component, has the components
/// up to that one.
proof fn lemma_front_cuts(text: Letters, count: nat)
    requires
        0 < count <= all_cuts(text).len(),
    ensures
        0 < all_cuts(text)[count - 1].1 <= text.len(),
        all_cuts(text.take(all_cuts(text)[count - 1].1)) == all_cuts(text).take(count as int),
    decreases text.len(),
{
    lemma_all_cuts(text);
    let cuts = all_cuts(text);
    let end = cuts[count - 1].1;
    if text.len() > 0 {
        let front = text.drop_last();
        if text.last() == slash() {
            if front.len() == 0 {
                assert(text.take(1) =~= text);
                assert(cuts =~= seq![(0int, 1int)]);
                assert(cuts.take(count as int) =~= cuts);
            } else {
                assert(cuts =~= all_cuts(front));
                lemma_front_cuts(front, count);
                assert(front.take(end) =~= text.take(end));
            }
        } else if count <= closed_cuts(front).len() {
            assert(cuts[count - 1] == all_cuts(front)[count - 1]);
            lemma_front_cuts(front, count);
            assert(front.take(end) =~= text.take(end));
            assert(cuts.take(count as int) =~= all_cuts(front).take(count as int));
        } else {
            assert(end == text.len());
            assert(text.take(end) =~= text);
            assert(cuts.take(count as int) =~= cuts);
        }
    }
}

proof fn lemma_front(text: Letters, count: nat)
    requires
        count <= slash_parts(text).len(),
    ensures
        slash_parts(slash_front(text, count)) == slash_parts(text).take(count as int),
{
    lemma_all_cuts(text);
    let cuts = all_cuts(text);
    if count == 0 {
        assert(slash_parts(seq![]) =~= seq![]);
        assert(slash_parts(text).take(0) =~= seq![]);
    } else {
        lemma_front_cuts(text, count);
        let end = cuts[count - 1].1;
        let front = text.take(end);
        lemma_all_cuts(front);
        assert forall|i: int| 0 <= i < count implies #[trigger] slash_parts(front)[i]
            == slash_parts(text)[i] by {
            let cut = all_cuts(front)[i];
            assert(cut == cuts[i]);
            assert(front.subrange(cut.0, cut.1) =~= text.subrange(cut.0, cut.1));
        }
        assert(slash_parts(front) =~= slash_parts(text).take(count as int));
    }
}

/// `cuts` without a leading `.` of `text`.
spec fn without_dot(text: Letters, cuts: Seq<(int, int)>) -> Seq<(int, int)> {
    if cuts.len() > 0 && cuts[0] == (0int, 1int) && text[0] == Letter::Char('.') {
        cuts.skip(1)
    } else {
        cuts
    }
}

spec fn later(cuts: Seq<(int, int)>, by: int) -> Seq<(int, int)> {
    cuts.map_values(|cut: (int, int)| (cut.0 + by, cut.1 + by))
}

/// The cuts of a text that goes on behind a slash.
proof fn lemma_cuts_behind_slash(base: Letters, rest: Letters)
    requires
        base.len() > 0,
        base.last() == slash(),
        rest.len() > 0 ==> rest[0] != slash(),
    ensures
        piece_start(base + rest) == base.len() + piece_start(rest),
        closed_cuts(base + rest) == all_cuts(base) + later(
            without_dot(rest, closed_cuts(rest)),
            base.len() as int,
        ),
        all_cuts(base + rest) == all_cuts(base) + later(
            without_dot(rest, all_cuts(rest)),
            base.len() as int,
        ),
    decreases rest.len(),
{
    let whole = base + rest;
    let by = base.len() as int;
    lemma_piece_start(rest);
    lemma_piece_start(base);
    if rest.len() == 0 {
        assert(whole =~= base);
        assert(piece_start(rest) == 0);
        assert(closed_cuts(rest) =~= seq![]);
        assert(all_cuts(rest) =~= seq![]);
        assert(later(without_dot(rest, closed_cuts(rest)), by) =~= seq![]);
        assert(all_cuts(base) =~= closed_cuts(base));
        assert(all_cuts(base) + later(without_dot(rest, closed_cuts(rest)), by) =~= all_cuts(base));
    } else {
        let front = rest.drop_last();
        if front.len() > 0 {
            assert(front[0] == rest[0]);
        }
        lemma_cuts_behind_slash(base, front);
        lemma_piece_start(front);
        assert(whole.drop_last() =~= base + front);
        assert(whole.last() == rest.last());
        if rest.last() == slash() {
            assert(front.len() > 0);
            assert(closed_cuts(whole) == all_cuts(base + front));
            assert(closed_cuts(rest) == all_cuts(front));
            assert(without_dot(rest, closed_cuts(rest)) == without_dot(front, all_cuts(front)));
        } else {
            assert(closed_cuts(whole) == closed_cuts(base + front));
            assert(closed_cuts(rest) == closed_cuts(front));
            assert(without_dot(rest, closed_cuts(rest)) == without_dot(
                front,
                closed_cuts(front),
            )) by {
                if front.len() == 0 {
                    assert(closed_cuts(front) =~= seq![]);
                }
            }
        }
        lemma_open_behind_slash(base, rest);
    }
}

proof fn lemma_open_behind_slash(base: Letters, rest: Letters)
    requires
        base.len() > 0,
        base.last() == slash(),
        rest.len() > 0 && rest[0] != slash(),
        piece_start(base + rest) == base.len() + piece_start(rest),
        closed_cuts(base + rest) == all_cuts(base) + later(
            without_dot(rest, closed_cuts(rest)),
            base.len() as int,
        ),
    ensures
        all_cuts(base + rest) == all_cuts(base) + later(
            without_dot(rest, all_cuts(rest)),
            base.len() as int,
        ),
{
    let whole = base + rest;
    let by = base.len() as int;
    let start = piece_start(rest);
    let closed = closed_cuts(rest);
    lemma_piece_start(rest);
    lemma_closed_cuts(rest);
    if start < rest.len() {
        assert(whole[start + by] == rest[start]);
    }
    if start == 0 {
        assert(closed =~= seq![]);
        assert(all_cuts(rest) =~= seq![(0int, rest.len() as int)]);
        if rest.len() == 1 && rest[0] == Letter::Char('.') {
            assert(without_dot(rest, all_cuts(rest)) =~= seq![]);
            assert(open_cut(whole) =~= seq![]);
        } else {
            assert(open_cut(whole) =~= seq![(by, by + rest.len())]);
        }
        assert(all_cuts(whole) =~= all_cuts(base) + later(without_dot(rest, all_cuts(rest)), by));
    } else {
        assert(closed.len() > 0);
        assert(all_cuts(rest)[0] == closed[0]);
        let last = open_cut(rest);
        assert(without_dot(rest, all_cuts(rest)) =~= without_dot(rest, closed) + last);
        assert(open_cut(whole) =~= later(last, by));
        assert(later(without_dot(rest, all_cuts(rest)), by) =~= later(
            without_dot(rest, closed),
            by,
        ) + later(last, by));
        assert(all_cuts(whole) =~= all_cuts(base) + later(without_dot(rest, all_cuts(rest)), by));
    }
}

/// The components of a text that goes on behind a slash.
proof fn lemma_behind_slash(base: Letters, rest: Letters)
    requires
        base.len() > 0,
        base.last() == slash(),
        rest.len() > 0 ==> rest[0] != slash(),
    ensures
        slash_parts(base + rest) == slash_join(slash_parts(base), slash_parts(rest)),
{
    let whole = base + rest;
    let by = base.len() as int;
    lemma_cuts_behind_slash(base, rest);
    lemma_all_cuts(base);
    lemma_all_cuts(rest);
    lemma_slash_parts(base);
    lemma_slash_parts(rest);
    let front = all_cuts(base);
    let cuts = all_cuts(rest);
    let kept = without_dot(rest, cuts);
    let skipped = cuts.len() - kept.len();
    let parts = slash_parts(rest);
    if cuts.len() > 0 {
        assert(parts[0] == rest.subrange(cuts[0].0, cuts[0].1));
        if cuts[0] == (0int, 1int) && rest[0] == Letter::Char('.') {
            assert(parts[0] =~= dot_part());
        } else if parts[0] == dot_part() {
            assert(parts[0].len() == 1);
            assert(parts[0][0] == rest[cuts[0].0]);
            assert(false);
        }
    }
    let wanted = slash_join(slash_parts(base), parts);
    assert(wanted.len() == front.len() + kept.len());
    assert forall|i: int| 0 <= i < wanted.len() implies slash_parts(whole)[i] == wanted[i] by {
        if i < front.len() {
            let cut = front[i];
            assert(all_cuts(whole)[i] == cut);
            assert(whole.subrange(cut.0, cut.1) =~= base.subrange(cut.0, cut.1));
        } else {
            let j = i - front.len();
            let cut = cuts[j + skipped];
            assert(kept[j] == cut);
            assert(later(kept, by)[j] == (cut.0 + by, cut.1 + by));
            assert(all_cuts(whole)[i] == (cut.0 + by, cut.1 + by));
            assert(whole.subrange(cut.0 + by, cut.1 + by) =~= rest.subrange(cut.0, cut.1));
            assert(wanted[i] == parts[j + skipped]);
        }
    }
    assert(slash_parts(whole) =~= wanted);
}

/// What is left of a text behind some of its components has the others.
proof fn lemma_behind(text: Letters, count: nat)
    requires
        count <= slash_parts(text).len(),
    ensures
        slash_parts(slash_behind(text, count)) == slash_parts(text).skip(count as int),
{
    lemma_all_cuts(text);
    let cuts = all_cuts(text);
    let total = cuts.len();
    if count == total {
        assert(slash_parts(seq![]) =~= seq![]);
        assert(slash_parts(text).skip(count as int) =~= seq![]);
    } else {
        lemma_front(text, total);
        lemma_front_cuts(text, total);
        let whole = slash_front(text, total);
        assert(slash_parts(text).take(total as int) =~= slash_parts(text));
        assert(cuts.take(total as int) =~= cuts);
        let start = cuts[count as int].0;
        let rest = whole.skip(start);
        assert(rest =~= slash_behind(text, count));
        if count == 0 {
            assert(rest =~= whole);
            assert(slash_parts(text).skip(0) =~= slash_parts(text));
        } else {
            let base = whole.take(start);
            assert(whole =~= base + rest);
            assert(base.last() == slash());
            assert(rest[0] == whole[start]);
            lemma_behind_slash(base, rest);
            lemma_cuts_behind_slash(base, rest);
            lemma_skipped(text, count, base, rest);
        }
    }
}

proof fn lemma_skipped(text: Letters, count: nat, base: Letters, rest: Letters)
    requires
        0 < count < slash_parts(text).len(),
        base.len() == all_cuts(text)[count as int].0,
        base.last() == slash(),
        rest.len() > 0,
        rest[0] != slash(),
        all_cuts(base + rest) == all_cuts(text),
        base + rest == text.take(all_cuts(text).last().1),
        all_cuts(base + rest) == all_cuts(base) + later(
            without_dot(rest, all_cuts(rest)),
            base.len() as int,
        ),
        slash_parts(base + rest) == slash_join(slash_parts(base), slash_parts(rest)),
        slash_parts(base + rest) == slash_parts(text),
    ensures
        slash_parts(rest) == slash_parts(text).skip(count as int),
{
    let cuts = all_cuts(text);
    let by = base.len() as int;
    lemma_all_cuts(text);
    lemma_all_cuts(base);
    lemma_all_cuts(rest);
    lemma_slash_parts(base);
    lemma_slash_parts(rest);
    let front = all_cuts(base);
    let kept = without_dot(rest, all_cuts(rest));
    let whole = base + rest;
    let cut = cuts[count as int];
    assert(forall|k: int| 0 <= k < rest.len() ==> rest[k] == whole[by + k]);
    assert(is_part(text, cut.0, cut.1));
    assert(front.len() == count) by {
        if front.len() > count {
            assert(front[count as int] == cut);
        } else if front.len() < count {
            let i = count - 1;
            assert(cuts[i] == later(kept, by)[i - front.len()]);
            assert(cuts[i].0 >= by);
            lemma_cuts_rise(text, i, count as int);
        }
    }
    assert(later(kept, by)[0] == cut);
    assert(kept[0] == (0int, cut.1 - by));
    let first = all_cuts(rest)[0];
    if kept.len() < all_cuts(rest).len() {
        assert(kept[0] == all_cuts(rest)[1]);
        assert(false);
    }
    let parts = slash_parts(rest);
    assert(parts[0] == rest.subrange(first.0, first.1));
    if parts[0] == dot_part() {
        assert(parts[0][0] == rest[0]);
        assert(false);
    }
    assert(slash_parts(text) =~= slash_parts(base) + parts);
    assert(parts =~= slash_parts(text).skip(count as int));
}

proof fn lemma_cuts_rise(text: Letters, i: int, j: int)
    requires
        0 <= i < j < all_cuts(text).len(),
    ensures
        all_cuts(text)[i].0 < all_cuts(text)[j].0,
{
    lemma_all_cuts(text);
    lemma_front_cuts(text, (j + 1) as nat);
    let front = text.take(all_cuts(text)[j].1);
    lemma_all_cuts(front);
    assert(all_cuts(front).last() == all_cuts(text)[j]);
    assert(all_cuts(front)[i] == all_cuts(text)[i]);
    lemma_closed_cuts(front);
    lemma_piece_start(front);
    if all_cuts(front).len() > closed_cuts(front).len() {
        assert(closed_cuts(front)[i] == all_cuts(front)[i]);
    } else {
        assert(front.len() == all_cuts(front).last().1);
        assert(closed_cuts(front).last().1 <= piece_start(front));
    }
}

proof fn lemma_letters_without_slash(name: Seq<char>)
    requires
        !name.contains('/'),
    ensures
        !chars(name).contains(slash()),
        piece_start(chars(name)) == 0,
        closed_cuts(chars(name)).len() == 0,
{
    let text = chars(name);
    assert(!text.contains(slash())) by {
        if text.contains(slash()) {
            let k = choose|k: int| 0 <= k < text.len() && text[k] == slash();
            assert(name[k] == '/');
        }
    }
    lemma_piece_start(text);
    if piece_start(text) > 0 {
        assert(text.contains(text[piece_start(text) - 1]));
    }
}

/// There are at most about half as many components as letters.
proof fn lemma_few_cuts(text: Letters)
    ensures
        2 * closed_cuts(text).len() <= text.len() + 1,
        2 * all_cuts(text).len() <= text.len() + 2,
    decreases text.len(),
{
    if text.len() > 0 {
        lemma_few_cuts(text.drop_last());
    }
}

/// Facts about the components of letters that hold of all of them.
pub(crate) proof fn lemma_parts(text: Letters)
    ensures
        parts_of(text).len() == cuts_of(text).len(),
        is_rooted(parts_of(text)) == (text.len() > 0 && is_separator(text[0])),
        text.len() == 0 <==> parts_of(text).len() == 0,
        forall|i: int|
            0 <= i < parts_of(text).len() ==> {
                let part = #[trigger] parts_of(text)[i];
                &&& part.len() > 0
                &&& !(part[0] is Prefix)
                &&& part == root_part() ==> i == 0
                &&& part == dot_part() ==> i == 0
                &&& part.contains(slash()) ==> part == root_part()
            },
        forall|i: int|
            0 <= i < cuts_of(text).len() ==> 0 <= (#[trigger] cuts_of(text)[i]).0
                < cuts_of(text)[i].1 <= cuts_of(text).last().1 <= text.len(),
        2 * parts_of(text).len() <= text.len() + 2,
        forall|i: int|
            0 <= i < parts_of(text).len() ==> (#[trigger] parts_of(text)[i]) == plain(
                text.subrange(cuts_of(text)[i].0, cuts_of(text)[i].1),
            ),
{
    let flat = plain(text);
    lemma_slash_parts(flat);
    lemma_all_cuts(flat);
    lemma_few_cuts(flat);
    let cuts = cuts_of(text);
    let parts = parts_of(text);
    if text.len() > 0 {
        assert(flat[0] == text[0].plain());
    }
    assert forall|i: int| 0 <= i < parts.len() implies {
        let part = #[trigger] parts[i];
        &&& part.len() > 0
        &&& !(part[0] is Prefix)
        &&& part == root_part() ==> i == 0
        &&& part == dot_part() ==> i == 0
        &&& part.contains(slash()) ==> part == root_part()
        &&& part == plain(text.subrange(cuts[i].0, cuts[i].1))
    } by {
        let cut = cuts[i];
        let part = parts[i];
        assert(part == flat.subrange(cut.0, cut.1));
        assert(part =~= plain(text.subrange(cut.0, cut.1)));
        assert(part[0] == text[cut.0].plain());
        assert(is_piece(part) || part == dots_part() || i == 0 && (part == root_part() || part
            == dot_part()));
        assert(root_part()[0] == slash() && dot_part()[0] != slash());
        assert(dots_part().len() == 2 && dot_part().len() == 1);
        if part == root_part() {
            assert(part.contains(part[0]));
        }
        if part == dots_part() && part.contains(slash()) {
            let k = choose|k: int| 0 <= k < part.len() && part[k] == slash();
            assert(dots_part()[k] == slash());
        }
        if part == dot_part() && part.contains(slash()) {
            let k = choose|k: int| 0 <= k < part.len() && part[k] == slash();
            assert(dot_part()[k] == slash());
        }
    }
    if text.len() == 0 {
        assert(all_cuts(flat) =~= seq![]);
    }
}

pub(crate) proof fn lemma_front_of(text: Letters, count: nat)
    requires
        count <= parts_of(text).len(),
    ensures
        parts_of(front_of(text, count)) == parts_of(text).take(count as int),
{
    let flat = plain(text);
    lemma_slash_parts(flat);
    lemma_front(flat, count);
    if count > 0 {
        lemma_front_cuts(flat, count);
    }
    assert(plain(front_of(text, count)) =~= slash_front(flat, count));
}

pub(crate) proof fn lemma_behind_of(text: Letters, count: nat)
    requires
        count <= parts_of(text).len(),
    ensures
        parts_of(behind_of(text, count)) == parts_of(text).skip(count as int),
{
    let flat = plain(text);
    lemma_slash_parts(flat);
    lemma_all_cuts(flat);
    lemma_behind(flat, count);
    assert(plain(behind_of(text, count)) =~= slash_behind(flat, count));
}

/// What goes on behind a separator has the components of both, without a `.`
/// between them.
pub(crate) proof fn lemma_goes_on(base: Letters, rest: Letters)
    requires
        base.len() > 0,
        is_separator(base.last()),
        rest.len() > 0 ==> !is_separator(rest[0]),
    ensures
        parts_of(base + rest) == parts_of(base) + undotted(parts_of(rest)),
{
    let flat = plain(base);
    let more = plain(rest);
    assert(plain(base + rest) =~= flat + more);
    assert(flat.last() == base.last().plain());
    if rest.len() > 0 {
        assert(more[0] == rest[0].plain());
    }
    lemma_slash_parts(flat);
    lemma_slash_parts(more);
    lemma_behind_slash(flat, more);
}

/// A separator behind letters changes no component.
pub(crate) proof fn lemma_separator_behind(text: Letters, separator: Letter)
    requires
        text.len() > 0,
        is_separator(separator),
    ensures
        parts_of(text.push(separator)) == parts_of(text),
{
    assert(plain(text.push(separator)) =~= plain(text).push(slash()));
    lemma_slash_behind(plain(text));
}

/// Characters without a slash are one component, where they are any.
pub(crate) proof fn lemma_one_part(name: Seq<char>)
    requires
        name.len() > 0,
        !name.contains('/'),
    ensures
        parts_of(chars(name)) == seq![chars(name)],
{
    let text = chars(name);
    assert(text.len() == name.len());
    assert forall|k: int| 0 <= k < text.len() implies plain(text)[k] == text[k] by {
        assert(text[k] == letter(name[k]));
    }
    assert(plain(text) =~= text);
    lemma_letters_without_slash(name);
    assert(all_cuts(text) =~= seq![(0int, text.len() as int)]);
    assert(text.subrange(0, text.len() as int) =~= text);
    assert(slash_parts(text) =~= seq![text]);
}

/// A component starts and ends inside its letters, and neither with a
/// separator, unless it is the root.
pub(crate) proof fn lemma_cut(text: Letters, i: int)
    requires
        0 <= i < cuts_of(text).len(),
    ensures
        ({
            let cut = cuts_of(text)[i];
            &&& 0 <= cut.0 < cut.1 <= text.len()
            &&& cut.0 <= cuts_of(text).last().0
            &&& cut.1 <= cuts_of(text).last().1
            &&& cut != (0int, 1int) ==> !is_separator(text[cut.0]) && !is_separator(
                text[cut.1 - 1],
            )
            &&& i > 0 ==> cut.0 > 0
        }),
{
    let flat = plain(text);
    lemma_all_cuts(flat);
    let cut = all_cuts(flat)[i];
    assert(flat.len() == text.len());
    assert(flat[cut.0] == text[cut.0].plain());
    assert(flat[cut.1 - 1] == text[cut.1 - 1].plain());
}

} // verus!
