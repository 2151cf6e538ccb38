//! Text building blocks: digits, trimming, prefixes and joins.
use vstd::prelude::*;

verus! {

/// The lower-case digit that stands for `value` in bases up to sixteen.
pub open spec fn digit(value: int) -> char {
    if value < 10 {
        ('0' as int + value) as char
    } else {
        ('a' as int + value - 10) as char
    }
}

/// `n` in base ten, without leading zeros.
pub open spec fn decimal(n: nat) -> Seq<char>
    decreases n,
{
    if n < 10 {
        seq![digit(n as int)]
    } else {
        decimal(n / 10).push(digit((n % 10) as int))
    }
}

/// `n` in base ten, with a leading minus sign where it is negative.
pub open spec fn decimal_signed(n: int) -> Seq<char> {
    if n < 0 {
        seq!['-'] + decimal((-n) as nat)
    } else {
        decimal(n as nat)
    }
}

/// The last `width` digits of `n` in base sixteen, padded with zeros.
pub open spec fn hexadecimal(n: nat, width: nat) -> Seq<char>
    decreases width,
{
    if width == 0 {
        Seq::empty()
    } else {
        hexadecimal(n / 16, (width - 1) as nat).push(digit((n % 16) as int))
    }
}

fn digit_text(value: u8) -> (text: &'static str)
    requires
        value < 16,
    ensures
        text@ == seq![digit(value as int)],
{
    proof {
        reveal_strlit("0");
        reveal_strlit("1");
        reveal_strlit("2");
        reveal_strlit("3");
        reveal_strlit("4");
        reveal_strlit("5");
        reveal_strlit("6");
        reveal_strlit("7");
        reveal_strlit("8");
        reveal_strlit("9");
        reveal_strlit("a");
        reveal_strlit("b");
        reveal_strlit("c");
        reveal_strlit("d");
        reveal_strlit("e");
        reveal_strlit("f");
    }
    match value {
        0 => "0",
        1 => "1",
        2 => "2",
        3 => "3",
        4 => "4",
        5 => "5",
        6 => "6",
        7 => "7",
        8 => "8",
        9 => "9",
        10 => "a",
        11 => "b",
        12 => "c",
        13 => "d",
        14 => "e",
        _ => "f",
    }
}

/// Writes `n` in base ten.
pub fn decimal_text(n: u64) -> (text: String)
    ensures
        text@ == decimal(n as nat),
    decreases n,
{
    if n < 10 {
        digit_text(n as u8).to_string()
    } else {
        let mut text = decimal_text(n / 10);
        text.append(digit_text((n % 10) as u8));
        text
    }
}

/// Writes `n` in base ten, with its sign where it is negative.
pub fn decimal_signed_text(n: i32) -> (text: String)
    ensures
        text@ == decimal_signed(n as int),
{
    let wide: i64 = n as i64;
    if wide < 0 {
        proof {
            reveal_strlit("-");
        }
        let mut text = "-".to_string();
        text.append(decimal_text((-wide) as u64).as_str());
        assert("-"@ =~= seq!['-']);
        text
    } else {
        decimal_text(wide as u64)
    }
}

/// Writes the last `width` hexadecimal digits of `n`.
pub fn hexadecimal_text(n: u64, width: u8) -> (text: String)
    ensures
        text@ == hexadecimal(n as nat, width as nat),
    decreases width,
{
    if width == 0 {
        String::new()
    } else {
        let mut text = hexadecimal_text(n / 16, width - 1);
        text.append(digit_text((n % 16) as u8));
        text
    }
}

/// The sets of characters that get trimmed off the ends of a text.
#[derive(Clone, Copy, PartialEq, Eq, Structural, Debug)]
pub enum CharClass {
    /// The slash that ends a base URL.
    Slash,
    /// Carriage return and line feed.
    LineEnd,
    /// Everything that has the Unicode `White_Space` property.
    White,
}

impl CharClass {
    pub open spec fn has(self, c: char) -> bool {
        match self {
            CharClass::Slash => c == '/',
            CharClass::LineEnd => c == '\n' || c == '\r',
            CharClass::White => is_white_space(c),
        }
    }

    /// Whether `c` belongs to the class.
    pub fn contains(self, c: char) -> (found: bool)
        ensures
            found == self.has(c),
    {
        match self {
            CharClass::Slash => c == '/',
            CharClass::LineEnd => c == '\n' || c == '\r',
            CharClass::White => {
                let point: u32 = c as u32;
                (9 <= point && point <= 13) || point == 0x20 || point == 0x85 || point == 0xa0
                    || point == 0x1680 || (0x2000 <= point && point <= 0x200a) || point == 0x2028
                    || point == 0x2029 || point == 0x202f || point == 0x205f || point == 0x3000
            },
        }
    }
}

/// The Unicode `White_Space` property.
pub open spec fn is_white_space(c: char) -> bool {
    let point = c as int;
    ||| 9 <= point <= 13
    ||| point == 0x20
    ||| point == 0x85
    ||| point == 0xa0
    ||| point == 0x1680
    ||| 0x2000 <= point <= 0x200a
    ||| point == 0x2028
    ||| point == 0x2029
    ||| point == 0x202f
    ||| point == 0x205f
    ||| point == 0x3000
}

/// `text` without the longest run of `class` at its end.
pub open spec fn trimmed_end(text: Seq<char>, class: CharClass) -> Seq<char>
    decreases text.len(),
{
    if text.len() > 0 && class.has(text.last()) {
        trimmed_end(text.drop_last(), class)
    } else {
        text
    }
}

/// `text` without the longest run of `class` at its start.
pub open spec fn trimmed_start(text: Seq<char>, class: CharClass) -> Seq<char>
    decreases text.len(),
{
    if text.len() > 0 && class.has(text.first()) {
        trimmed_start(text.drop_first(), class)
    } else {
        text
    }
}

/// `text` without white space at either end.
pub open spec fn trimmed(text: Seq<char>) -> Seq<char> {
    trimmed_end(trimmed_start(text, CharClass::White), CharClass::White)
}

/// Removes every trailing character of `class`.
pub fn trim_end_text(text: &str, class: CharClass) -> (res: String)
    ensures
        res@ == trimmed_end(text@, class),
{
    let mut end: usize = text.unicode_len();
    assert(text@.subrange(0, end as int) =~= text@);
    while end > 0 && class.contains(text.get_char(end - 1))
        invariant
            end <= text@.len(),
            trimmed_end(text@.subrange(0, end as int), class) == trimmed_end(text@, class),
        decreases end,
    {
        assert(text@.subrange(0, end as int).drop_last() =~= text@.subrange(0, end - 1));
        end = end - 1;
    }
    text.substring_char(0, end).to_string()
}

/// Removes every leading character of `class`.
pub fn trim_start_text(text: &str, class: CharClass) -> (res: String)
    ensures
        res@ == trimmed_start(text@, class),
{
    let total: usize = text.unicode_len();
    let mut start: usize = 0;
    assert(text@.subrange(0, total as int) =~= text@);
    while start < total && class.contains(text.get_char(start))
        invariant
            start <= total == text@.len(),
            trimmed_start(text@.subrange(start as int, total as int), class) == trimmed_start(
                text@,
                class,
            ),
        decreases total - start,
    {
        assert(text@.subrange(start as int, total as int).drop_first() =~= text@.subrange(
            start + 1,
            total as int,
        ));
        start = start + 1;
    }
    text.substring_char(start, total).to_string()
}

/// Removes white space from both ends.
pub fn trim_text(text: &str) -> (res: String)
    ensures
        res@ == trimmed(text@),
{
    let rest = trim_start_text(text, CharClass::White);
    trim_end_text(rest.as_str(), CharClass::White)
}

/// What follows `prefix` in `text`, where `text` begins with it.
pub open spec fn without_prefix(text: Seq<char>, prefix: Seq<char>) -> Option<Seq<char>> {
    if prefix.is_prefix_of(text) {
        Some(text.skip(prefix.len() as int))
    } else {
        None
    }
}

/// Strips `prefix` off `text`, where `text` begins with it.
pub fn strip_prefix_text(text: &str, prefix: &str) -> (res: Option<String>)
    ensures
        without_prefix(text@, prefix@) == (match res {
            Some(rest) => Some(rest@),
            None => None,
        }),
{
    let width: usize = prefix.unicode_len();
    let total: usize = text.unicode_len();
    if total < width {
        return None;
    }
    let mut i: usize = 0;
    while i < width
        invariant
            i <= width == prefix@.len() <= text@.len(),
            forall|j: int| 0 <= j < i ==> text@[j] == prefix@[j],
        decreases width - i,
    {
        if text.get_char(i) != prefix.get_char(i) {
            assert(text@.subrange(0, width as int)[i as int] != prefix@[i as int]);
            return None;
        }
        i = i + 1;
    }
    assert(text@.subrange(0, width as int) =~= prefix@);
    assert(text@.subrange(width as int, total as int) =~= text@.skip(width as int));
    Some(text.substring_char(width, total).to_string())
}

/// The texts in order, each two of them parted by `separator`.
pub open spec fn joined(texts: Seq<String>, separator: Seq<char>) -> Seq<char>
    decreases texts.len(),
{
    if texts.len() == 0 {
        Seq::empty()
    } else if texts.len() == 1 {
        texts[0]@
    } else {
        joined(texts.drop_last(), separator) + separator + texts.last()@
    }
}

/// Joins the texts with `separator` between them.
pub fn join_text(texts: &Vec<String>, separator: &str) -> (res: String)
    ensures
        res@ == joined(texts@, separator@),
{
    let mut res = String::new();
    let mut i: usize = 0;
    while i < texts.len()
        invariant
            i <= texts.len(),
            res@ == joined(texts@.take(i as int), separator@),
        decreases texts.len() - i,
    {
        assert(texts@.take(i + 1).drop_last() =~= texts@.take(i as int));
        if i > 0 {
            res.append(separator);
        }
        res.append(texts[i].as_str());
        i = i + 1;
    }
    assert(texts@.take(texts.len() as int) =~= texts@);
    res
}

/// Puts two texts one after the other.
pub fn concat_text(first: &str, second: &str) -> (res: String)
    ensures
        res@ == first@ + second@,
{
    let mut res = first.to_string();
    res.append(second);
    res
}

/// Copies the texts from position `from` on.
pub fn texts_from(texts: &Vec<String>, from: usize) -> (res: Vec<String>)
    requires
        from <= texts.len(),
    ensures
        res@ == texts@.skip(from as int),
{
    let mut res: Vec<String> = Vec::new();
    let mut i: usize = from;
    while i < texts.len()
        invariant
            from <= i <= texts.len(),
            res@ == texts@.subrange(from as int, i as int),
        decreases texts.len() - i,
    {
        res.push(texts[i].clone());
        assert(texts@.subrange(from as int, i + 1) =~= texts@.subrange(from as int, i as int).push(
            texts@[i as int],
        ));
        i = i + 1;
    }
    assert(texts@.subrange(from as int, texts.len() as int) =~= texts@.skip(from as int));
    res
}

/// Texts of the same width in base sixteen stand for the same number only if
/// the numbers are equal.
pub proof fn lemma_hexadecimal_injective(a: nat, b: nat, width: nat)
    requires
        a < vstd::arithmetic::power::pow(16, width),
        b < vstd::arithmetic::power::pow(16, width),
        hexadecimal(a, width) == hexadecimal(b, width),
    ensures
        a == b,
    decreases width,
{
    vstd::arithmetic::power::lemma_pow0(16);
    if width > 0 {
        let shorter = (width - 1) as nat;
        vstd::arithmetic::power::lemma_pow_adds(16, shorter, 1);
        vstd::arithmetic::power::lemma_pow1(16);
        let power = vstd::arithmetic::power::pow(16, shorter);
        let left = hexadecimal(a / 16, shorter);
        let right = hexadecimal(b / 16, shorter);
        let left_digit = digit((a % 16) as int);
        let right_digit = digit((b % 16) as int);
        assert(left.push(left_digit) == right.push(right_digit));
        assert(left =~= left.push(left_digit).drop_last());
        assert(right =~= right.push(right_digit).drop_last());
        assert(left.push(left_digit).last() == left_digit);
        assert(right.push(right_digit).last() == right_digit);
        assert(a % 16 == b % 16);
        lemma_hexadecimal_injective(a / 16, b / 16, shorter);
    }
}

} // verus!
