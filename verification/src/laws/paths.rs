use vstd::prelude::*;
use vstd::string::*;

use crate::laws::deletion::{lemma_plainly_below, plainly_below};
use crate::laws::folding::{lemma_starts_with, starts_with};
use crate::laws::following::{follows, lemma_follows};
use crate::laws::lemma_join_names;
use crate::path::{
    all_names, components, is_inside_worktree, is_name, law_shown_as_given,
    lemma_components_of_name, lemma_joined, letters, remap_path, text_joined, worktree_relative,
    FilePath, PathView,
};
use crate::spelling::{chars, is_separator, letter, root_part, slash};
use crate::text::joined;

verus! {

/// Names as components.
pub open spec fn as_parts(names: Seq<Seq<char>>) -> PathView {
    names.map_values(|name: Seq<char>| chars(name))
}

/// A path that is written as names with slashes between them has those names
/// as its components, in that order.
pub proof fn law_names_with_slashes(text: &str, path: FilePath, names: Seq<Seq<char>>)
    requires
        call_ensures(FilePath::parse, (text,), path),
        names.len() > 0,
        forall|i: int| 0 <= i < names.len() ==> is_name(chars(#[trigger] names[i])),
        text@ == joined(names, "/"@),
    ensures
        path@ == as_parts(names),
{
    lemma_names_with_slashes(names);
}

proof fn lemma_names_with_slashes(names: Seq<Seq<char>>)
    requires
        names.len() > 0,
        forall|i: int| 0 <= i < names.len() ==> is_name(chars(#[trigger] names[i])),
    ensures
        components(letters(joined(names, "/"@))) == as_parts(names),
        joined(names, "/"@).len() > 0,
        joined(names, "/"@).last() != '/',
    decreases names.len(),
{
    reveal_strlit("/");
    let last = names.last();
    assert(is_name(chars(names[names.len() - 1])));
    assert(chars(last).len() == last.len());
    assert(chars(last)[last.len() - 1] == letter(last.last()));
    if last.last() == '/' {
        assert(chars(last).contains(slash()));
    }
    if last[0] == '/' {
        assert(chars(last)[0] == letter(last[0]));
        assert(chars(last).contains(slash()));
    }
    lemma_components_of_name(last);
    if names.len() == 1 {
        assert(as_parts(names) =~= seq![chars(last)]);
    } else {
        let rest = names.drop_last();
        assert forall|i: int| 0 <= i < rest.len() implies is_name(chars(#[trigger] rest[i])) by {
            assert(rest[i] == names[i]);
        }
        lemma_names_with_slashes(rest);
        let front = joined(rest, "/"@);
        let whole = joined(names, "/"@);
        assert(whole == front + "/"@ + last);
        let base = letters(front);
        let name = letters(last);
        assert(chars(front).len() == front.len());
        assert(chars(front)[front.len() - 1] == letter(front.last()));
        assert(!is_separator(base.body.last()));
        assert(name.body[0] == letter(last[0]));
        assert(!is_separator(name.body[0]));
        assert(!base.body.contains(crate::spelling::Letter::Back)) by {
            if base.body.contains(crate::spelling::Letter::Back) {
                let k = base.body.index_of(crate::spelling::Letter::Back);
                assert(chars(front)[k] == letter(front[k]));
            }
        }
        let longer = text_joined(base, name);
        assert(longer.body == base.body.push(slash()) + name.body);
        assert(longer.body =~= chars(whole)) by {
            assert(chars(whole).len() == whole.len());
            assert forall|i: int| 0 <= i < whole.len() implies longer.body[i] == chars(
                whole,
            )[i] by {
                assert(chars(whole)[i] == letter(whole[i]));
                if i < front.len() {
                    assert(chars(front)[i] == letter(front[i]));
                } else if i == front.len() {
                    assert(whole[i] == '/');
                } else {
                    assert(whole[i] == last[i - front.len() - 1]);
                    assert(chars(last)[i - front.len() - 1] == letter(last[i - front.len() - 1]));
                }
            }
        }
        assert(letters(whole) == longer);
        lemma_joined(base, name);
        assert(all_names(seq![chars(last)]));
        lemma_join_names(as_parts(rest), seq![chars(last)]);
        assert(as_parts(names) =~= as_parts(rest) + seq![chars(last)]);
        assert(whole.last() == last.last());
    }
}

/// A path that is written is shown as it was written.
pub proof fn law_written_is_shown(text: &str, path: &FilePath, told: String)
    requires
        call_ensures(FilePath::parse, (text,), *path),
        call_ensures(FilePath::display, (path,), told),
    ensures
        told@ == text@,
{
    law_shown_as_given(text@);
}

/// A path of names put behind another is that other and then the names; it
/// lies below it, and what is left of it behind the other are the names.
pub proof fn law_put_behind_and_taken_off(
    base: &FilePath,
    rest: &FilePath,
    whole: &FilePath,
    below: bool,
    left: Option<FilePath>,
)
    requires
        call_ensures(FilePath::join, (base, rest), *whole),
        call_ensures(FilePath::starts_with, (whole, base), below),
        call_ensures(FilePath::strip_prefix, (whole, base), left),
        all_names(rest@),
    ensures
        whole@ == base@ + rest@,
        below,
        left matches Some(names) && names@ == rest@,
{
    lemma_join_names(base@, rest@);
    assert((base@ + rest@).take(base@.len() as int) =~= base@);
    assert((base@ + rest@).skip(base@.len() as int) =~= rest@);
}

/// The directory of an entry put into a directory is that directory, and its
/// name there is the name that it was put under.
pub proof fn law_entry_of_a_directory(
    dir: &FilePath,
    name: &str,
    part: &FilePath,
    entry: &FilePath,
    above: Option<FilePath>,
    told: Option<String>,
)
    requires
        call_ensures(FilePath::parse, (name,), *part),
        call_ensures(FilePath::join, (dir, part), *entry),
        call_ensures(FilePath::parent, (entry,), above),
        call_ensures(FilePath::file_name, (entry,), told),
        is_name(chars(name@)),
    ensures
        entry@ == dir@.push(chars(name@)),
        above matches Some(directory) && directory@ == dir@,
        told matches Some(text) && text@ == name@,
{
    lemma_components_of_name(name@);
    crate::path::lemma_name_is_no_root(chars(name@));
    assert(all_names(seq![chars(name@)]));
    lemma_join_names(dir@, seq![chars(name@)]);
    assert(entry@ =~= dir@.push(chars(name@)));
    assert(entry@.drop_last() =~= dir@);
    assert(entry@.last() == chars(name@));
    if crate::path::is_bare(entry@) {
        assert(entry@[0] == entry@.last());
    }
    law_shown_as_given(name@);
    assert(crate::path::shown(letters(name@)) =~= crate::spelling::shown_letters(chars(name@)));
}

/// Whether a path starts with another is told part by part, and two paths are
/// the same where their parts are, however they are written.
pub proof fn law_paths_by_their_parts(
    path: &FilePath,
    other: &FilePath,
    below: bool,
    above: bool,
    same: bool,
)
    requires
        call_ensures(FilePath::starts_with, (path, other), below),
        call_ensures(FilePath::starts_with, (other, path), above),
        call_ensures(FilePath::same, (path, other), same),
    ensures
        below == starts_with(path@, other@),
        same == (path@ == other@),
        same == (below && above),
{
    lemma_starts_with(path@, other@);
    if below && above {
        assert(path@.take(other@.len() as int) == other@);
        assert(path@ =~= path@.take(other@.len() as int));
    }
    if same {
        assert(path@.take(path@.len() as int) =~= path@);
    }
}

/// The first parts of a path are those that it starts with.
pub proof fn law_first_parts(path: &FilePath, count: usize, front: FilePath)
    requires
        call_ensures(FilePath::prefix, (path, count), front),
        count <= path@.len(),
    ensures
        front@.len() == count,
        starts_with(path@, front@),
{
    assert forall|i: int| 0 <= i < front@.len() implies #[trigger] path@[i] == front@[i] by {
    }
}

/// A path follows a rename exactly where it starts with the old path; it then
/// goes on from the new one as it went on from the old.
pub proof fn law_path_follows_a_rename(
    path: &FilePath,
    from: &FilePath,
    to: &FilePath,
    there: Option<FilePath>,
)
    requires
        call_ensures(remap_path, (path, from, to), there),
    ensures
        there is Some == starts_with(path@, from@),
        there matches Some(target) ==> follows(target@, path@, from@, to@),
{
    lemma_starts_with(path@, from@);
    lemma_follows(path@, from@, to@);
}

/// A path lies inside a worktree where it goes on from the root by one name or
/// more, and its path inside is what it goes on by.
pub proof fn law_inside_a_worktree(
    root: &FilePath,
    path: &FilePath,
    plain: bool,
    relative: FilePath,
)
    requires
        call_ensures(is_inside_worktree, (root, path), plain),
        call_ensures(worktree_relative, (root, path), relative),
    ensures
        plain == plainly_below(path@, root@),
        starts_with(path@, root@) ==> root@ + relative@ == path@,
        !starts_with(path@, root@) ==> relative.text() == path.text(),
{
    lemma_plainly_below(path@, root@);
    lemma_starts_with(path@, root@);
    if starts_with(path@, root@) {
        assert(root@ + path@.skip(root@.len() as int) =~= path@);
    }
}

/// A path that starts with a slash and then has names starts at the root.
pub proof fn law_names_below_the_root(text: &str, path: FilePath, names: Seq<Seq<char>>)
    requires
        call_ensures(FilePath::parse, (text,), path),
        names.len() > 0,
        forall|i: int| 0 <= i < names.len() ==> is_name(chars(#[trigger] names[i])),
        text@ == "/"@ + joined(names, "/"@),
    ensures
        path@ == seq![root_part()] + as_parts(names),
{
    reveal_strlit("/");
    lemma_names_with_slashes(names);
    let rest = joined(names, "/"@);
    let base = letters("/"@);
    assert(chars("/"@) =~= seq![slash()]);
    lemma_root();
    let whole = text_joined(base, letters(rest));
    assert(chars(rest).len() == rest.len());
    assert(rest[0] != '/') by {
        lemma_first_letter(names);
    }
    assert(chars(rest)[0] == letter(rest[0]));
    assert(!is_separator(letters(rest).body[0]));
    assert(whole.body == base.body + chars(rest));
    assert(whole.body =~= chars(text@)) by {
        assert(chars(text@).len() == text@.len());
        assert forall|i: int| 0 <= i < text@.len() implies whole.body[i] == chars(text@)[i] by {
            assert(chars(text@)[i] == letter(text@[i]));
            if i > 0 {
                assert(chars(rest)[i - 1] == letter(rest[i - 1]));
            }
        }
    }
    lemma_joined(base, letters(rest));
    assert(all_names(as_parts(names))) by {
        assert forall|i: int| 0 <= i < as_parts(names).len() implies is_name(
            #[trigger] as_parts(names)[i],
        ) by {
            assert(as_parts(names)[i] == chars(names[i]));
        }
    }
    lemma_join_names(seq![root_part()], as_parts(names));
}

proof fn lemma_first_letter(names: Seq<Seq<char>>)
    requires
        names.len() > 0,
        forall|i: int| 0 <= i < names.len() ==> is_name(chars(#[trigger] names[i])),
    ensures
        joined(names, "/"@).len() > 0,
        joined(names, "/"@)[0] != '/',
    decreases names.len(),
{
    if names.len() == 1 {
        assert(is_name(chars(names[0])));
        assert(chars(names[0]).len() == names[0].len());
        assert(chars(names[0])[0] == letter(names[0][0]));
        if names[0][0] == '/' {
            assert(chars(names[0]).contains(slash()));
        }
    } else {
        let rest = names.drop_last();
        assert forall|i: int| 0 <= i < rest.len() implies is_name(chars(#[trigger] rest[i])) by {
            assert(rest[i] == names[i]);
        }
        lemma_first_letter(rest);
    }
}

/// A slash alone is the root.
proof fn lemma_root()
    ensures
        components(letters("/"@)) == seq![root_part()],
{
    reveal_strlit("/");
    let body = chars("/"@);
    assert(body =~= seq![slash()]);
    let plain = crate::spelling::plain(body);
    assert(plain =~= seq![slash()]);
    assert(plain.drop_last() =~= Seq::<crate::spelling::Letter>::empty());
    assert(crate::spelling::closed_cuts(plain) == seq![(0int, 1int)]);
    assert(crate::spelling::piece_start(plain) == 1);
    assert(crate::spelling::open_cut(plain) =~= Seq::<(int, int)>::empty());
    assert(crate::spelling::all_cuts(plain) =~= seq![(0int, 1int)]);
    assert(plain.subrange(0, 1) =~= root_part());
    assert(crate::spelling::parts_of(body) =~= seq![root_part()]);
    assert(components(letters("/"@)) =~= seq![root_part()]);
}

/// The number of parts of a path is their number, and two paths with the same
/// parts have the same number of them.
pub proof fn law_number_of_parts(path: &FilePath, count: usize)
    requires
        call_ensures(FilePath::part_count, (path,), count),
    ensures
        count == path@.len(),
{
}

/// Every text but the empty one, `.` and `..` is a name, unless there is a slash
/// in it.
pub proof fn law_what_is_a_name(text: Seq<char>)
    ensures
        is_name(chars(text)) <==> text.len() > 0 && !text.contains('/') && text != seq!['.'] && text
            != seq!['.', '.'],
{
    let part = chars(text);
    assert(part.len() == text.len());
    assert forall|i: int| 0 <= i < text.len() implies part[i] == letter(#[trigger] text[i]) by {
    }
    if text.contains('/') {
        let i = text.index_of('/');
        assert(part[i] == slash());
        assert(part.contains(slash()));
    }
    if part.contains(slash()) {
        let i = part.index_of(slash());
        assert(letter(text[i]) == slash());
        assert(text.contains('/'));
    }
    if text == seq!['.'] {
        assert(part =~= crate::spelling::dot_part());
    }
    if text == seq!['.', '.'] {
        assert(part =~= crate::spelling::dots_part());
    }
    if part == crate::spelling::dot_part() {
        assert(letter(text[0]) == part[0]);
        assert(text =~= seq!['.']);
    }
    if part == crate::spelling::dots_part() {
        assert(letter(text[0]) == part[0]);
        assert(letter(text[1]) == part[1]);
        assert(text =~= seq!['.', '.']);
    }
    if text.len() > 0 {
        assert(part[0] == letter(text[0]));
    }
}

/// The root lies in no directory and has no name; what ends in `..` has no name
/// either; and a path with such a part below the root is never taken to lie
/// plainly inside a worktree.
pub proof fn law_paths_without_a_name(
    path: &FilePath,
    above: Option<FilePath>,
    name: Option<String>,
    root: &FilePath,
    plain: bool,
    i: int,
)
    requires
        call_ensures(FilePath::parent, (path,), above),
        call_ensures(FilePath::file_name, (path,), name),
        call_ensures(is_inside_worktree, (root, path), plain),
    ensures
        path@.len() == 0 ==> above is None && name is None,
        path@ == seq![root_part()] ==> above is None && name is None,
        path@.len() > 0 && path@.last() == crate::spelling::dots_part() ==> name is None && (
        above matches Some(dir) && dir@ == path@.drop_last()),
        root@.len() <= i < path@.len() && path@[i] == crate::spelling::dots_part() ==> !plain,
        path@ == root@ ==> !plain,
{
    lemma_plainly_below(path@, root@);
    assert(crate::spelling::dots_part()[0] is Char);
    assert(crate::spelling::dots_part().len() == 2 && root_part().len() == 1);
    assert(root_part()[0] == slash());
    assert(root_part().contains(slash()));
    if path@.len() > 0 && path@.last() == crate::spelling::dots_part() {
        if crate::path::is_bare(path@) {
            assert(path@[0] == path@.last());
        }
    }
}

/// A path is shown letter by letter, behind what stands before its root: a
/// character as itself, and what is no character by the sign for that.
pub proof fn law_shown_letter_by_letter(
    prefix: &str,
    spelled: Vec<crate::spelling::Letter>,
    path: &FilePath,
    told: String,
    i: int,
)
    requires
        call_ensures(FilePath::with_prefix, (prefix, spelled), *path),
        call_ensures(FilePath::display, (path,), told),
        0 <= i < spelled@.len(),
    ensures
        told@.len() == prefix@.len() + spelled@.len(),
        told@.take(prefix@.len() as int) == prefix@,
        match spelled@[i] {
            crate::spelling::Letter::Char(c) => told@[prefix@.len() + i] == c,
            crate::spelling::Letter::Back => told@[prefix@.len() + i] == '\\',
            _ => told@[prefix@.len() + i] == '\u{fffd}',
        },
{
    assert(told@.take(prefix@.len() as int) =~= prefix@);
}

/// However its separators are written, a path is the same.
pub proof fn law_separators_are_alike(
    spelled: Vec<crate::spelling::Letter>,
    other: Vec<crate::spelling::Letter>,
    one: &FilePath,
    two: &FilePath,
    same: bool,
)
    requires
        call_ensures(FilePath::from_letters, (spelled,), *one),
        call_ensures(FilePath::from_letters, (other,), *two),
        call_ensures(FilePath::same, (one, two), same),
        spelled@.len() == other@.len(),
        forall|i: int|
            0 <= i < spelled@.len() ==> (#[trigger] spelled@[i] == other@[i] || spelled@[i]
                == slash() && other@[i] is Back),
    ensures
        same,
{
    let a = crate::spelling::plain(spelled@);
    let b = crate::spelling::plain(other@);
    assert forall|i: int| 0 <= i < a.len() implies a[i] == b[i] by {
        assert(a[i] == spelled@[i].plain());
        assert(b[i] == other@[i].plain());
        assert(spelled@[i] == other@[i] || spelled@[i] == slash() && other@[i] is Back);
    }
    assert(a =~= b);
}

/// A separator behind a path changes no part of it.
pub proof fn law_separator_behind_a_path(
    text: &str,
    longer: &str,
    one: &FilePath,
    two: &FilePath,
    same: bool,
)
    requires
        call_ensures(FilePath::parse, (text,), *one),
        call_ensures(FilePath::parse, (longer,), *two),
        call_ensures(FilePath::same, (one, two), same),
        text@.len() > 0,
        longer@ == text@.push('/'),
    ensures
        same,
{
    assert(chars(longer@) =~= chars(text@).push(slash())) by {
        assert(chars(longer@).len() == longer@.len());
        assert forall|i: int| 0 <= i < longer@.len() implies chars(longer@)[i] == chars(
            text@,
        ).push(slash())[i] by {
            assert(chars(longer@)[i] == letter(longer@[i]));
            if i < text@.len() {
                assert(chars(text@)[i] == letter(text@[i]));
            }
        }
    }
    assert(chars(text@).len() == text@.len());
    crate::spelling::lemma_separator_behind(chars(text@), slash());
}

/// A drive is the same in small letters and in capitals, and a path below one
/// drive is never one below another.
pub proof fn law_drives_are_alike(
    prefix: &str,
    other: &str,
    spelled: Vec<crate::spelling::Letter>,
    one: &FilePath,
    two: &FilePath,
    same: bool,
)
    requires
        call_ensures(FilePath::with_prefix, (prefix, spelled), *one),
        call_ensures(FilePath::with_prefix, (other, spelled), *two),
        call_ensures(FilePath::same, (one, two), same),
        prefix@.len() == 2 && prefix@[1] == ':',
        other@.len() == 2 && other@[1] == ':',
        'a' <= prefix@[0] <= 'z',
    ensures
        'A' <= other@[0] <= 'Z' ==> same == (other@[0] as u32 - 'A' as u32 == prefix@[0] as u32
            - 'a' as u32),
        'a' <= other@[0] <= 'z' ==> same == (other@[0] == prefix@[0]),
{
    let a = crate::path::prefix_part(prefix@);
    let b = crate::path::prefix_part(other@);
    assert(a.len() == 2 && b.len() == 2);
    assert(a[0] == crate::path::prefix_letter(prefix@, 0));
    assert(b[0] == crate::path::prefix_letter(other@, 0));
    assert(a[1] == b[1]);
    if a[0] == b[0] {
        assert(a =~= b);
    }
    if one@ == two@ {
        assert(one@[0] == a);
        assert(two@[0] == b);
    }
}

/// The directory of a path is shown as the path starts, up to the end of its
/// last name and without the slash behind it.
pub proof fn law_directory_is_shown(
    text: &str,
    path: &FilePath,
    above: &FilePath,
    told: String,
)
    requires
        call_ensures(FilePath::parse, (text,), *path),
        call_ensures(FilePath::parent, (path,), Some(*above)),
        call_ensures(FilePath::display, (above,), told),
    ensures
        told@.len() <= text@.len(),
        told@ == text@.take(told@.len() as int),
        path@.len() == 1 ==> told@.len() == 0,
        path@.len() > 1 ==> told@.len() > 0,
        told@.len() > 1 ==> told@.last() != '/',
{
    let body = chars(text@);
    let count = (path@.len() - 1) as nat;
    assert(body.len() == text@.len());
    assert(path@ =~= crate::spelling::parts_of(body));
    let front = crate::spelling::front_of(body, count);
    assert(above.text().body == front);
    assert(above.text().prefix =~= Seq::<char>::empty());
    assert(told@ =~= crate::spelling::shown_letters(front));
    if count > 0 {
        crate::spelling::lemma_cut(body, count - 1);
        let end = crate::spelling::cuts_of(body)[count - 1].1;
        assert(front == body.take(end));
        assert forall|i: int| 0 <= i < end implies told@[i] == text@[i] by {
            assert(told@[i] == front[i].shown());
            assert(body[i] == letter(text@[i]));
        }
        assert(told@ =~= text@.take(end));
        assert(body[end - 1] == letter(text@[end - 1]));
    } else {
        assert(told@ =~= text@.take(0));
    }
}

/// What is left of a path behind another is shown as it stands in the path,
/// without the slash before it.
pub proof fn law_rest_is_shown(
    text: &str,
    path: &FilePath,
    base: &FilePath,
    rest: &FilePath,
    told: String,
) -> (at: int)
    requires
        call_ensures(FilePath::parse, (text,), *path),
        call_ensures(FilePath::strip_prefix, (path, base), Some(*rest)),
        call_ensures(FilePath::display, (rest,), told),
        base@.len() > 0,
    ensures
        0 <= at <= at + told@.len() <= text@.len(),
        told@ == text@.subrange(at, at + told@.len()),
        path@.len() > base@.len() ==> told@.len() > 0 && told@[0] != '/' && told@.last() != '/',
        path@.len() == base@.len() ==> told@.len() == 0,
{
    let body = chars(text@);
    let count = base@.len();
    assert(body.len() == text@.len());
    assert(path@ =~= crate::spelling::parts_of(body));
    let left = crate::spelling::behind_of(body, count);
    assert(rest.text().body == left);
    assert(rest.text().prefix =~= Seq::<char>::empty());
    assert(told@ =~= crate::spelling::shown_letters(left));
    let cuts = crate::spelling::cuts_of(body);
    assert(cuts.len() == path@.len());
    if count < cuts.len() {
        crate::spelling::lemma_cut(body, count as int);
        crate::spelling::lemma_cut(body, cuts.len() - 1);
        let start = cuts[count as int].0;
        let end = cuts.last().1;
        assert(left == body.subrange(start, end));
        assert forall|i: int| 0 <= i < end - start implies told@[i] == text@[start + i] by {
            assert(told@[i] == left[i].shown());
            assert(body[start + i] == letter(text@[start + i]));
        }
        assert(told@ =~= text@.subrange(start, end));
        assert(body[start] == letter(text@[start]));
        assert(body[end - 1] == letter(text@[end - 1]));
        start
    } else {
        assert(told@ =~= text@.subrange(0, 0));
        0
    }
}

/// A path that starts at the root takes the place of the one that it is put
/// behind, where nothing stands before the root of that one.
pub proof fn law_absolute_path_put_behind(base: &FilePath, rest: &FilePath, whole: FilePath)
    requires
        call_ensures(FilePath::join, (base, rest), whole),
        rest@.len() > 0 && rest@[0] == root_part(),
        base@.len() > 0 ==> !crate::path::is_prefix(base@[0]),
    ensures
        whole@ == rest@,
{
    assert(root_part()[0] is Char);
    assert(base@.take(0) + rest@ =~= rest@);
}

} // verus!
