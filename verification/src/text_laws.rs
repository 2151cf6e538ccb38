//! What the text building blocks make of a text, said without them.
use vstd::prelude::*;

use crate::text::{
    concat_text, decimal, decimal_signed_text, decimal_text, digit, hexadecimal, hexadecimal_text,
    join_text, joined, strip_prefix_text, texts_from, trim_end_text, trim_start_text, trim_text,
    trimmed, trimmed_end, trimmed_start, CharClass,
};

verus! {

/// `kept` is `text` without the longest run of such characters at its end.
pub open spec fn runs_out_in(text: Seq<char>, kept: Seq<char>, such: spec_fn(char) -> bool) -> bool {
    &&& kept.len() <= text.len()
    &&& kept == text.take(kept.len() as int)
    &&& forall|i: int| kept.len() <= i < text.len() ==> such(#[trigger] text[i])
    &&& kept.len() > 0 ==> !such(kept.last())
}

/// `kept` is `text` without the longest run of such characters at its start.
pub open spec fn begins_after(text: Seq<char>, kept: Seq<char>, such: spec_fn(char) -> bool) -> bool {
    &&& kept.len() <= text.len()
    &&& kept == text.skip(text.len() - kept.len())
    &&& forall|i: int| 0 <= i < text.len() - kept.len() ==> such(#[trigger] text[i])
    &&& kept.len() > 0 ==> !such(kept.first())
}

pub proof fn lemma_trimmed_end_cuts(text: Seq<char>, class: CharClass)
    ensures
        runs_out_in(text, trimmed_end(text, class), |c: char| class.has(c)),
    decreases text.len(),
{
    if text.len() > 0 && class.has(text.last()) {
        let init = text.drop_last();
        lemma_trimmed_end_cuts(init, class);
        let kept = trimmed_end(init, class);
        assert(kept =~= text.take(kept.len() as int));
        assert forall|i: int| kept.len() <= i < text.len() implies class.has(#[trigger] text[i]) by {
            if i < init.len() {
                assert(class.has(init[i]));
            }
        }
    } else {
        assert(text =~= text.take(text.len() as int));
    }
}

pub proof fn lemma_trimmed_start_cuts(text: Seq<char>, class: CharClass)
    ensures
        begins_after(text, trimmed_start(text, class), |c: char| class.has(c)),
    decreases text.len(),
{
    if text.len() > 0 && class.has(text.first()) {
        let rest = text.drop_first();
        lemma_trimmed_start_cuts(rest, class);
        let kept = trimmed_start(rest, class);
        assert(kept =~= text.skip(text.len() - kept.len()));
        assert forall|i: int| 0 <= i < text.len() - kept.len() implies class.has(
            #[trigger] text[i],
        ) by {
            if i > 0 {
                assert(class.has(rest[i - 1]));
            }
        }
    } else {
        assert(text =~= text.skip(0));
    }
}

/// The character shows nothing: a tab, the end of a line or of a page, a space
/// of any width, or the mark between lines or paragraphs.
pub open spec fn is_unseen(c: char) -> bool {
    ||| c == '\t'
    ||| c == '\n'
    ||| c == '\u{b}'
    ||| c == '\u{c}'
    ||| c == '\r'
    ||| c == ' '
    ||| c == '\u{85}'
    ||| c == '\u{a0}'
    ||| c == '\u{1680}'
    ||| c == '\u{2000}'
    ||| c == '\u{2001}'
    ||| c == '\u{2002}'
    ||| c == '\u{2003}'
    ||| c == '\u{2004}'
    ||| c == '\u{2005}'
    ||| c == '\u{2006}'
    ||| c == '\u{2007}'
    ||| c == '\u{2008}'
    ||| c == '\u{2009}'
    ||| c == '\u{200a}'
    ||| c == '\u{2028}'
    ||| c == '\u{2029}'
    ||| c == '\u{202f}'
    ||| c == '\u{205f}'
    ||| c == '\u{3000}'
}

/// The classes are what they are called: slashes, the ends of lines, and white
/// space.
pub proof fn law_classes_hold_what_they_say(c: char, slash: bool, line_end: bool, white: bool)
    requires
        call_ensures(CharClass::contains, (CharClass::Slash, c), slash),
        call_ensures(CharClass::contains, (CharClass::LineEnd, c), line_end),
        call_ensures(CharClass::contains, (CharClass::White, c), white),
    ensures
        slash == (c == '/'),
        line_end == (c == '\n' || c == '\r'),
        white == is_unseen(c),
{
}

/// Trimming cuts off exactly the run of such characters at an end, and nothing
/// else.
pub proof fn law_trimming_cuts_only_the_ends(
    text: &str,
    class: CharClass,
    front: String,
    back: String,
)
    requires
        call_ensures(trim_start_text, (text, class), front),
        call_ensures(trim_end_text, (text, class), back),
    ensures
        begins_after(text@, front@, |c: char| class.has(c)),
        runs_out_in(text@, back@, |c: char| class.has(c)),
{
    lemma_trimmed_start_cuts(text@, class);
    lemma_trimmed_end_cuts(text@, class);
}

/// `kept` is `text` without the white space at both of its ends.
pub open spec fn is_trim_of(text: Seq<char>, kept: Seq<char>) -> bool {
    exists|from: int| #[trigger] is_trim_from(text, kept, from)
}

/// `kept` is `text` without the white space at both of its ends, and stood at
/// `from`.
pub open spec fn is_trim_from(text: Seq<char>, kept: Seq<char>, from: int) -> bool {
    &&& 0 <= from && from + kept.len() <= text.len()
    &&& kept == text.subrange(from, from + kept.len())
    &&& forall|i: int| 0 <= i < from ==> CharClass::White.has(#[trigger] text[i])
    &&& forall|i: int|
        from + kept.len() <= i < text.len() ==> CharClass::White.has(#[trigger] text[i])
    &&& kept.len() > 0 ==> !CharClass::White.has(kept.first()) && !CharClass::White.has(kept.last())
}

/// Trimming cuts off exactly the white space at both ends.
pub proof fn law_trimming_cuts_off_white_space(text: &str, res: String)
    requires
        call_ensures(trim_text, (text,), res),
    ensures
        is_trim_of(text@, res@),
{
    lemma_trimmed_keeps(text@);
}

pub proof fn lemma_trimmed_keeps(text: Seq<char>)
    ensures
        is_trim_of(text, trimmed(text)),
        trimmed(text).len() == 0 <==> forall|i: int|
            0 <= i < text.len() ==> CharClass::White.has(#[trigger] text[i]),
{
    let class = CharClass::White;
    let front = trimmed_start(text, class);
    let kept = trimmed(text);
    lemma_trimmed_start_cuts(text, class);
    lemma_trimmed_end_cuts(front, class);
    let from = text.len() - front.len();
    assert(kept =~= text.subrange(from, from + kept.len()));
    assert forall|i: int| from + kept.len() <= i < text.len() implies class.has(
        #[trigger] text[i],
    ) by {
        assert(class.has(front[i - from]));
    }
    if kept.len() > 0 {
        assert(kept.first() == front.first());
        assert(text[from] == kept.first());
    }
    assert(is_trim_from(text, kept, from));
}

/// A prefix is cut off exactly where the text begins with it.
pub proof fn law_a_prefix_is_cut_off_where_it_stands(
    text: &str,
    prefix: &str,
    res: Option<String>,
)
    requires
        call_ensures(strip_prefix_text, (text, prefix), res),
    ensures
        res matches Some(rest) ==> text@ == prefix@ + rest@,
        res is None ==> forall|rest: Seq<char>| text@ != #[trigger] (prefix@ + rest),
{
    match res {
        Some(rest) => {
            assert(text@ =~= prefix@ + rest@);
        },
        None => {
            assert forall|rest: Seq<char>| text@ != #[trigger] (prefix@ + rest) by {
                if text@ == prefix@ + rest {
                    assert(text@.subrange(0, prefix@.len() as int) =~= prefix@);
                }
            }
        },
    }
}

/// Texts come one behind the other.
pub proof fn law_texts_are_put_together_in_order(first: &str, second: &str, res: String)
    requires
        call_ensures(concat_text, (first, second), res),
    ensures
        res@.len() == first@.len() + second@.len(),
        res@.take(first@.len() as int) =~= first@,
        res@.skip(first@.len() as int) =~= second@,
{
}

/// Joined texts are the texts with the separator between each two of them: none
/// of them makes nothing, one makes itself, and one more adds the separator and
/// itself.
pub proof fn law_joining_puts_a_separator_between(
    texts: Seq<String>,
    more: String,
    separator: Seq<char>,
)
    ensures
        joined(Seq::empty(), separator).len() == 0,
        joined(seq![more], separator) == more@,
        texts.len() > 0 ==> joined(texts.push(more), separator) == joined(texts, separator)
            + separator + more@,
{
    assert(texts.push(more).drop_last() =~= texts);
}

/// The number that a text of digits stands for.
pub open spec fn number_of(text: Seq<char>) -> int
    decreases text.len(),
{
    if text.len() == 0 {
        0
    } else {
        number_of(text.drop_last()) * 10 + (text.last() as int - '0' as int)
    }
}

proof fn lemma_decimal(n: nat)
    ensures
        decimal(n).len() > 0,
        number_of(decimal(n)) == n,
        forall|i: int| 0 <= i < decimal(n).len() ==> '0' <= #[trigger] decimal(n)[i] <= '9',
        n > 0 ==> decimal(n).first() != '0',
    decreases n,
{
    if n < 10 {
        let text = decimal(n);
        assert(text.drop_last() =~= Seq::empty());
        assert(number_of(text.drop_last()) == 0);
    } else {
        lemma_decimal(n / 10);
        let init = decimal(n / 10);
        let last = digit((n % 10) as int);
        assert(init.push(last).drop_last() =~= init);
        assert(decimal(n).first() == init.first());
    }
}

/// A number in base ten reads as that number, in digits alone and without
/// leading zeros.
pub proof fn law_numbers_read_as_themselves(n: u64, text: String, signed: i32, other: String)
    requires
        call_ensures(decimal_text, (n,), text),
        call_ensures(decimal_signed_text, (signed,), other),
    ensures
        number_of(text@) == n,
        forall|i: int| 0 <= i < text@.len() ==> '0' <= #[trigger] text@[i] <= '9',
        n > 0 ==> text@.first() != '0',
        n == 0 ==> text@ =~= seq!['0'],
        signed >= 0 ==> number_of(other@) == signed && other@.first() != '-',
        signed < 0 ==> other@.first() == '-' && number_of(other@.drop_first()) == -signed,
{
    lemma_decimal(n as nat);
    if signed >= 0 {
        lemma_decimal(signed as nat);
    } else {
        let size = (-signed) as nat;
        lemma_decimal(size);
        assert((seq!['-'] + decimal(size)).drop_first() =~= decimal(size));
    }
}

/// The texts from a position on are those texts.
pub proof fn law_texts_are_copied_from_a_position(texts: &Vec<String>, from: usize, res: Vec<String>)
    requires
        from <= texts@.len(),
        call_ensures(texts_from, (texts, from), res),
    ensures
        res@.len() == texts@.len() - from,
        forall|i: int| 0 <= i < res@.len() ==> #[trigger] res@[i] == texts@[from + i],
{
}

/// The value of a hexadecimal digit.
pub open spec fn hex_value(c: char) -> int {
    if '0' <= c <= '9' {
        c as int - '0' as int
    } else {
        c as int - 'a' as int + 10
    }
}

/// The number that a text of hexadecimal digits stands for.
pub open spec fn hex_number_of(text: Seq<char>) -> int
    decreases text.len(),
{
    if text.len() == 0 {
        0
    } else {
        hex_number_of(text.drop_last()) * 16 + hex_value(text.last())
    }
}

proof fn lemma_hexadecimal(n: nat, width: nat)
    requires
        n < vstd::arithmetic::power::pow(16, width),
    ensures
        hexadecimal(n, width).len() == width,
        hex_number_of(hexadecimal(n, width)) == n,
        forall|i: int|
            0 <= i < width ==> ('0' <= #[trigger] hexadecimal(n, width)[i] <= '9' || 'a'
                <= hexadecimal(n, width)[i] <= 'f'),
    decreases width,
{
    vstd::arithmetic::power::lemma_pow0(16);
    if width > 0 {
        let shorter = (width - 1) as nat;
        vstd::arithmetic::power::lemma_pow_adds(16, shorter, 1);
        vstd::arithmetic::power::lemma_pow1(16);
        lemma_hexadecimal(n / 16, shorter);
        let init = hexadecimal(n / 16, shorter);
        let last = digit((n % 16) as int);
        assert(init.push(last).drop_last() =~= init);
        assert(hex_value(last) == n % 16);
    }
}

/// Sixteen hexadecimal digits stand for the number that they were made from.
pub proof fn law_sixteen_digits_read_as_their_number(n: u64, text: String)
    requires
        call_ensures(hexadecimal_text, (n, 16u8), text),
    ensures
        text@.len() == 16,
        hex_number_of(text@) == n,
        forall|i: int|
            0 <= i < 16 ==> ('0' <= #[trigger] text@[i] <= '9' || 'a' <= text@[i] <= 'f'),
{
    assert(vstd::arithmetic::power::pow(16, 16) == 0x1_0000_0000_0000_0000) by {
        reveal(vstd::arithmetic::power::pow);
        reveal_with_fuel(vstd::arithmetic::power::pow, 17);
    }
    lemma_hexadecimal(n as nat, 16);
}

/// Joining is what [`law_joining_puts_a_separator_between`] says of it.
pub proof fn law_join_text_joins(texts: &Vec<String>, separator: &str, res: String)
    requires
        call_ensures(join_text, (texts, separator), res),
    ensures
        texts@.len() == 0 ==> res@.len() == 0,
        texts@.len() == 1 ==> res@ == texts@[0]@,
        texts@.len() == 2 ==> res@ == texts@[0]@ + separator@ + texts@[1]@,
        res@ == joined(texts@, separator@),
{
    if texts@.len() == 2 {
        assert(texts@ =~= seq![texts@[0]].push(texts@[1]));
        law_joining_puts_a_separator_between(seq![texts@[0]], texts@[1], separator@);
        law_joining_puts_a_separator_between(Seq::empty(), texts@[0], separator@);
    }
}

} // verus!
