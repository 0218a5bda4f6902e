use vstd::prelude::*;
use vstd::string::*;
use vstd::utf8::is_ascii_chars;

use crate::keys::{combo_parts, resolve_combo};
use crate::text::{
    blank, count_text, decimal, decimal_text, digit, elapsed_text, join_text, joined, texts,
    uppercase_text,
};

verus! {

/// The number that a row of decimal digits stands for.
pub open spec fn number_of(text: Seq<char>) -> nat
    decreases text.len(),
{
    if text.len() == 0 {
        0
    } else {
        number_of(text.drop_last()) * 10 + (text.last() as u32 - '0' as u32) as nat
    }
}

/// Whether a text is made of decimal digits.
pub open spec fn is_numeral(text: Seq<char>) -> bool {
    &&& text.len() > 0
    &&& forall|i: int| 0 <= i < text.len() ==> '0' <= #[trigger] text[i] <= '9'
    &&& text.len() > 1 ==> text[0] != '0'
}

/// A number that was written reads as that number: its text holds digits and
/// nothing else, and no zero leads it.
pub proof fn law_numbers_read_back(n: u64, text: String)
    requires
        call_ensures(decimal_text, (n,), text),
    ensures
        is_numeral(text@),
        number_of(text@) == n,
{
    lemma_numeral(n as nat);
}

proof fn lemma_numeral(n: nat)
    ensures
        is_numeral(decimal(n)),
        number_of(decimal(n)) == n,
        n > 0 ==> decimal(n)[0] != '0',
    decreases n,
{
    let text = decimal(n);
    if n < 10 {
        assert(text.drop_last() =~= Seq::<char>::empty());
        reveal_with_fuel(number_of, 2);
        assert(text.last() == digit(n));
    } else {
        let front = decimal(n / 10);
        lemma_numeral(n / 10);
        assert(text.drop_last() =~= front);
        assert(text.last() == digit(n % 10));
        assert(text[0] == front[0]);
        assert forall|i: int| 0 <= i < text.len() implies '0' <= #[trigger] text[i] <= '9' by {
            if i < front.len() {
                assert(text[i] == front[i]);
            }
        }
    }
}

/// A text joined of nothing is empty, that of one item is the item, and each
/// further item stands behind the others with the separator before it.
pub proof fn law_joined_one_by_one(
    items: &Vec<String>,
    more: &Vec<String>,
    item: String,
    separator: &str,
    text: String,
    longer: String,
)
    requires
        call_ensures(join_text, (items, separator), text),
        call_ensures(join_text, (more, separator), longer),
        more@ == items@.push(item),
    ensures
        items@.len() == 0 ==> text@.len() == 0 && longer@ == item@,
        items@.len() > 0 ==> longer@ == text@ + separator@ + item@,
{
    let all = texts(more@);
    assert(all.len() == items@.len() + 1);
    assert(all.last() == item@);
    assert(all.drop_last() =~= texts(items@));
}

/// So many things: the number, a space and the noun, with an `s` behind it
/// unless there is exactly one.
pub proof fn law_counted_things(n: usize, noun: &str, text: String, number: String)
    requires
        call_ensures(count_text, (n, noun), text),
        call_ensures(decimal_text, (n as u64,), number),
    ensures
        n == 1 ==> text@ == number@ + " "@ + noun@,
        n != 1 ==> text@ == number@ + " "@ + noun@ + "s"@,
{
}

/// Of two counts of one thing the texts are different.
pub proof fn law_counts_differ(a: usize, b: usize, noun: &str, one: String, other: String)
    requires
        call_ensures(count_text, (a, noun), one),
        call_ensures(count_text, (b, noun), other),
        one@ == other@,
    ensures
        a == b,
{
    let x = decimal(a as nat);
    let y = decimal(b as nat);
    lemma_numeral(a as nat);
    lemma_numeral(b as nat);
    reveal_strlit(" ");
    assert(one@[x.len() as int] == ' ');
    assert(other@[y.len() as int] == ' ');
    if x.len() < y.len() {
        assert(other@[x.len() as int] == y[x.len() as int]);
    } else if y.len() < x.len() {
        assert(one@[y.len() as int] == x[y.len() as int]);
    } else {
        assert(one@.take(x.len() as int) =~= x);
        assert(other@.take(y.len() as int) =~= y);
    }
}

/// An age is told in whole seconds below a minute, in whole minutes below an
/// hour, and in whole hours from there on, never more than have passed.
pub proof fn law_ages(seconds: u64, text: String, count: u64, number: String)
    requires
        call_ensures(elapsed_text, (seconds,), text),
        call_ensures(decimal_text, (count,), number),
    ensures
        seconds < 60 && count == seconds ==> text@ == number@ + "s"@,
        60 <= seconds < 3600 && count * 60 <= seconds < count * 60 + 60 ==> text@ == number@
            + "m"@,
        3600 <= seconds && count * 3600 <= seconds < count * 3600 + 3600 ==> text@ == number@
            + "h"@,
{
    if count * 60 <= seconds < count * 60 + 60 {
        assert(seconds as int / 60 == count);
    }
    if count * 3600 <= seconds < count * 3600 + 3600 {
        assert(seconds as int / 3600 == count);
    }
}

/// In a text of ASCII characters the small letters become the capital ones,
/// and every other character stays where it is.
pub proof fn law_capitals(text: &str, upper: String, i: int)
    requires
        call_ensures(uppercase_text, (text,), upper),
        is_ascii_chars(text@),
        0 <= i < text@.len(),
    ensures
        upper@.len() == text@.len(),
        'a' <= text@[i] && text@[i] <= 'z' ==> 'A' <= upper@[i] && upper@[i] <= 'Z'
            && upper@[i] as u32 - 'A' as u32 == text@[i] as u32 - 'a' as u32,
        !('a' <= text@[i] && text@[i] <= 'z') ==> upper@[i] == text@[i],
{
}

/// Whether a character of ASCII is a space, a tab or an end of line.
pub open spec fn is_gap(c: char) -> bool {
    ||| c == ' '
    ||| c == '\t'
    ||| c == '\n'
    ||| c == '\r'
    ||| c == '\u{b}'
    ||| c == '\u{c}'
}

/// A text of ASCII characters is blank where each of them is a space, a tab or
/// an end of line; an empty one is.
pub proof fn law_blank_texts(text: &str, told: bool)
    requires
        call_ensures(blank, (text,), told),
        forall|i: int| 0 <= i < text@.len() ==> '\0' <= #[trigger] text@[i] <= '\u{7f}',
    ensures
        told <==> forall|i: int| 0 <= i < text@.len() ==> is_gap(#[trigger] text@[i]),
        text@.len() == 0 ==> told,
{
    assert forall|i: int| 0 <= i < text@.len() implies is_gap(#[trigger] text@[i])
        == crate::text::is_white_space(text@[i]) by {
        assert('\0' <= text@[i] <= '\u{7f}');
    }
}

/// The parts of a combination of keys, with plus signs between them, are the
/// combination, and no part holds a plus sign.
pub proof fn law_combination_of_its_parts(spec: &str, parts: Vec<String>, whole: String)
    requires
        call_ensures(resolve_combo, (spec,), parts),
        call_ensures(join_text, (&parts, "+"), whole),
    ensures
        whole@ == spec@,
        parts@.len() > 0,
        forall|i: int| 0 <= i < parts@.len() ==> !(#[trigger] parts@[i])@.contains('+'),
{
    lemma_parts(spec@);
    assert(texts(parts@).len() == parts@.len());
    assert forall|i: int| 0 <= i < parts@.len() implies !(#[trigger] parts@[i])@.contains(
        '+',
    ) by {
        assert(texts(parts@)[i] == parts@[i]@);
    }
}

proof fn lemma_parts(spec: Seq<char>)
    ensures
        joined(combo_parts(spec), "+"@) == spec,
        combo_parts(spec).len() > 0,
        forall|i: int|
            0 <= i < combo_parts(spec).len() ==> !(#[trigger] combo_parts(spec)[i]).contains('+'),
    decreases spec.len(),
{
    reveal_strlit("+");
    let all = combo_parts(spec);
    if spec.len() == 0 {
        assert(joined(all, "+"@) =~= spec);
    } else {
        let front = spec.drop_last();
        let before = combo_parts(front);
        lemma_parts(front);
        if spec.last() == '+' {
            assert(all.drop_last() =~= before);
            assert(joined(all, "+"@) =~= front + "+"@ + Seq::<char>::empty());
            assert(joined(all, "+"@) =~= spec);
        } else {
            let rest = before.drop_last();
            let last = before.last();
            assert(all.drop_last() =~= rest);
            assert(all.last() == last.push(spec.last()));
            assert(before =~= rest.push(last));
            if rest.len() > 0 {
                assert(joined(all, "+"@) =~= joined(before, "+"@).push(spec.last()));
            } else {
                assert(joined(before, "+"@) == last);
                assert(joined(all, "+"@) == last.push(spec.last()));
            }
            assert(front.push(spec.last()) =~= spec);
            assert forall|i: int| 0 <= i < all.len() implies !(#[trigger] all[i]).contains(
                '+',
            ) by {
                if i < rest.len() {
                    assert(all[i] == before[i]);
                } else {
                    assert(before[before.len() - 1] == last);
                    assert(!last.contains('+'));
                    if all[i].contains('+') {
                        let k = all[i].index_of('+');
                        if k < last.len() {
                            assert(last[k] == '+');
                        }
                    }
                }
            }
        }
    }
}

} // verus!
