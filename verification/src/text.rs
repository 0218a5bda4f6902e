use vstd::prelude::*;
use vstd::string::*;
use vstd::utf8::is_ascii_chars;

verus! {

/// The character that stands for the decimal digit `d`.
pub open spec fn digit(d: nat) -> char {
    (('0' as u32) + d) as char
}

/// The decimal numeral of `n`, without leading zeros.
pub open spec fn decimal(n: nat) -> Seq<char>
    decreases n,
{
    if n < 10 {
        seq![digit(n)]
    } else {
        decimal(n / 10).push(digit(n % 10))
    }
}

/// A numeral holds digits and nothing else.
pub(crate) proof fn lemma_decimal_digits(n: nat)
    ensures
        decimal(n).len() > 0,
        forall|i: int| 0 <= i < decimal(n).len() ==> '0' <= (#[trigger] decimal(n)[i]) <= '9',
    decreases n,
{
    if n >= 10 {
        lemma_decimal_digits(n / 10);
    }
}

/// Different numbers have different numerals.
pub(crate) proof fn lemma_decimal_injective(a: nat, b: nat)
    requires
        decimal(a) == decimal(b),
    ensures
        a == b,
    decreases a,
{
    if a >= 10 {
        lemma_decimal_digits(a / 10);
    }
    if b >= 10 {
        lemma_decimal_digits(b / 10);
    }
    if a < 10 && b < 10 {
        assert(decimal(a)[0] == digit(a));
        assert(decimal(b)[0] == digit(b));
    } else if a >= 10 && b >= 10 {
        assert(decimal(a).last() == digit(a % 10));
        assert(decimal(b).last() == digit(b % 10));
        assert(decimal(a).drop_last() =~= decimal(a / 10));
        assert(decimal(b).drop_last() =~= decimal(b / 10));
        lemma_decimal_injective(a / 10, b / 10);
    } else if a < 10 {
        assert(decimal(a) == seq![digit(a)]);
        assert(decimal(b) == decimal(b / 10).push(digit(b % 10)));
    } else {
        assert(decimal(a) == decimal(a / 10).push(digit(a % 10)));
        assert(decimal(b) == seq![digit(b)]);
    }
}

fn digit_text(d: u64) -> (text: &'static str)
    requires
        d < 10,
    ensures
        text@ == seq![digit(d as nat)],
{
    proof {
        reveal_strlit("0");
        reveal_strlit("1");
        reveal_strlit("2");
        reveal_strlit("3");
        reveal_strlit("4");
        reveal_strlit("5");
        reveal_strlit("6");
        reveal_strlit("7");
        reveal_strlit("8");
        reveal_strlit("9");
    }
    let text = if d == 0 {
        "0"
    } else if d == 1 {
        "1"
    } else if d == 2 {
        "2"
    } else if d == 3 {
        "3"
    } else if d == 4 {
        "4"
    } else if d == 5 {
        "5"
    } else if d == 6 {
        "6"
    } else if d == 7 {
        "7"
    } else if d == 8 {
        "8"
    } else {
        "9"
    };
    assert(text@ =~= seq![digit(d as nat)]);
    text
}

/// Writes `n` in decimal.
pub fn decimal_text(n: u64) -> (text: String)
    ensures
        text@ == decimal(n as nat),
    decreases n,
{
    if n < 10 {
        digit_text(n).to_owned()
    } else {
        let mut text = decimal_text(n / 10);
        text.append(digit_text(n % 10));
        assert(text@ =~= decimal(n as nat / 10).push(digit(n as nat % 10)));
        text
    }
}

/// The texts of `items` in order, with `separator` between neighbours.
pub open spec fn joined(items: Seq<Seq<char>>, separator: Seq<char>) -> Seq<char>
    decreases items.len(),
{
    if items.len() == 0 {
        seq![]
    } else if items.len() == 1 {
        items[0]
    } else {
        joined(items.drop_last(), separator) + separator + items.last()
    }
}

/// A text that may be missing, by its view.
pub open spec fn option_text(text: Option<String>) -> Option<Seq<char>> {
    match text {
        Some(inner) => Some(inner@),
        None => None,
    }
}

/// The views of a list of texts.
pub open spec fn texts(items: Seq<String>) -> Seq<Seq<char>> {
    items.map_values(|item: String| item@)
}

/// Joins `items` with `separator` between neighbours.
pub fn join_text(items: &Vec<String>, separator: &str) -> (text: String)
    ensures
        text@ == joined(texts(items@), separator@),
{
    let mut text = String::new();
    let mut i: usize = 0;
    while i < items.len()
        invariant
            i <= items.len(),
            text@ == joined(texts(items@).take(i as int), separator@),
        decreases items.len() - i,
    {
        proof {
            let now = texts(items@).take(i + 1);
            assert(now.drop_last() =~= texts(items@).take(i as int));
            assert(now.last() == items@[i as int]@);
        }
        if i > 0 {
            text.append(separator);
        }
        text.append(items[i].as_str());
        assert(i == 0 ==> text@ =~= items@[0]@);
        i += 1;
    }
    assert(texts(items@).take(i as int) =~= texts(items@));
    text
}

/// `first` followed by `second`.
pub fn concat_text(first: &str, second: &str) -> (text: String)
    ensures
        text@ == first@ + second@,
{
    let mut text = first.to_owned();
    text.append(second);
    text
}

/// Three texts, one after the other.
pub fn concat3(first: &str, second: &str, third: &str) -> (text: String)
    ensures
        text@ == first@ + second@ + third@,
{
    let mut text = concat_text(first, second);
    text.append(third);
    text
}

/// Four texts, one after the other.
pub fn concat4(first: &str, second: &str, third: &str, fourth: &str) -> (text: String)
    ensures
        text@ == first@ + second@ + third@ + fourth@,
{
    let mut text = concat3(first, second, third);
    text.append(fourth);
    text
}

/// `n` things called `noun`: `1 file`, `2 files`.
pub open spec fn counted(n: nat, noun: Seq<char>) -> Seq<char> {
    if n == 1 {
        decimal(n) + " "@ + noun
    } else {
        decimal(n) + " "@ + noun + "s"@
    }
}

/// Writes how many things called `noun` there are.
pub fn count_text(n: usize, noun: &str) -> (text: String)
    ensures
        text@ == counted(n as nat, noun@),
{
    let mut text = decimal_text(n as u64);
    text.append(" ");
    text.append(noun);
    if n != 1 {
        text.append("s");
    }
    text
}

/// What `str::to_uppercase` makes of a text.
pub uninterp spec fn unicode_uppercase(text: Seq<char>) -> Seq<char>;

/// A text of ASCII characters with its small letters made capital.
pub open spec fn ascii_uppercase(text: Seq<char>) -> Seq<char> {
    text.map_values(
        |c: char|
            if 'a' <= c && c <= 'z' {
                (c as u32 - 32) as char
            } else {
                c
            },
    )
}

/// A text in capital letters.
pub open spec fn uppercase(text: Seq<char>) -> Seq<char> {
    if is_ascii_chars(text) {
        ascii_uppercase(text)
    } else {
        unicode_uppercase(text)
    }
}

/// Calls `str::to_uppercase`. Believed of it: the result is a function of the
/// text, and on a text of ASCII characters it turns `a` to `z` into `A` to
/// `Z` and changes nothing else. What it makes of other characters is
/// Unicode's table and is only named.
#[verifier::external_body]
fn to_uppercase(text: &str) -> (upper: String)
    ensures
        upper@ == unicode_uppercase(text@),
        is_ascii_chars(text@) ==> upper@ == ascii_uppercase(text@),
{
    text.to_uppercase()
}

/// Writes `text` in capital letters.
pub fn uppercase_text(text: &str) -> (upper: String)
    ensures
        upper@ == uppercase(text@),
{
    to_uppercase(text)
}

/// Whether a character has Unicode's property `White_Space`.
pub open spec fn is_white_space(c: char) -> bool {
    let code = c as u32;
    ||| 0x9 <= code <= 0xd
    ||| code == 0x20
    ||| code == 0x85
    ||| code == 0xa0
    ||| code == 0x1680
    ||| 0x2000 <= code <= 0x200a
    ||| code == 0x2028
    ||| code == 0x2029
    ||| code == 0x202f
    ||| code == 0x205f
    ||| code == 0x3000
}

fn white_space(c: char) -> (white: bool)
    ensures
        white == is_white_space(c),
{
    let code: u32 = c as u32;
    (0x9 <= code && code <= 0xd) || code == 0x20 || code == 0x85 || code == 0xa0 || code == 0x1680
        || (0x2000 <= code && code <= 0x200a) || code == 0x2028 || code == 0x2029 || code == 0x202f
        || code == 0x205f || code == 0x3000
}

/// Whether nothing is left of a text without its white space.
pub open spec fn is_blank(text: Seq<char>) -> bool {
    forall|i: int| 0 <= i < text.len() ==> is_white_space(#[trigger] text[i])
}

/// Whether `text` is empty or nothing but white space.
pub fn blank(text: &str) -> (blank: bool)
    ensures
        blank == is_blank(text@),
{
    for c in it: text.chars()
        invariant
            it.seq() == text@,
            forall|i: int| 0 <= i < it.index() ==> is_white_space(#[trigger] text@[i]),
    {
        if !white_space(c) {
            assert(!is_white_space(text@[it.index() as int]));
            return false;
        }
    }
    true
}

/// How long ago something happened, in its largest whole unit.
pub open spec fn elapsed(seconds: nat) -> Seq<char> {
    if seconds < 60 {
        decimal(seconds) + "s"@
    } else if seconds < 3600 {
        decimal(seconds / 60) + "m"@
    } else {
        decimal(seconds / 3600) + "h"@
    }
}

/// Writes an age given in seconds.
pub fn elapsed_text(seconds: u64) -> (text: String)
    ensures
        text@ == elapsed(seconds as nat),
{
    if seconds < 60 {
        let mut text = decimal_text(seconds);
        text.append("s");
        text
    } else if seconds < 3600 {
        let mut text = decimal_text(seconds / 60);
        text.append("m");
        text
    } else {
        let mut text = decimal_text(seconds / 3600);
        text.append("h");
        text
    }
}

} // verus!
