//! Reading and writing small pieces of text: whitespace, decimal numbers, and
//! one string inside another.
use vstd::prelude::*;

verus! {

/// A space, a tab, a line break, or any other character that Unicode counts as
/// white space.
pub open spec fn is_space(c: char) -> bool {
    ||| 0x9 <= c as u32 <= 0xd
    ||| c as u32 == 0x20
    ||| c as u32 == 0x85
    ||| c as u32 == 0xa0
    ||| c as u32 == 0x1680
    ||| 0x2000 <= c as u32 <= 0x200a
    ||| c as u32 == 0x2028
    ||| c as u32 == 0x2029
    ||| c as u32 == 0x202f
    ||| c as u32 == 0x205f
    ||| c as u32 == 0x3000
}

/// Whether `c` is white space.
pub fn is_white_space(c: char) -> (result: bool)
    ensures
        result == is_space(c),
{
    let code: u32 = c as u32;
    (0x9 <= code && code <= 0xd) || code == 0x20 || code == 0x85 || code == 0xa0 || code == 0x1680
        || (0x2000 <= code && code <= 0x200a) || code == 0x2028 || code == 0x2029 || code == 0x202f
        || code == 0x205f || code == 0x3000
}

/// `text` without the white space it starts with.
pub open spec fn trimmed_start(text: Seq<char>) -> Seq<char>
    decreases text.len(),
{
    if text.len() > 0 && is_space(text[0]) {
        trimmed_start(text.drop_first())
    } else {
        text
    }
}

/// `text` without the white space it ends with.
pub open spec fn trimmed_end(text: Seq<char>) -> Seq<char>
    decreases text.len(),
{
    if text.len() > 0 && is_space(text.last()) {
        trimmed_end(text.drop_last())
    } else {
        text
    }
}

/// `text` without the white space at either end.
pub open spec fn trimmed(text: Seq<char>) -> Seq<char> {
    trimmed_end(trimmed_start(text))
}

/// The characters of `text`, one by one.
pub fn characters(text: &str) -> (chars: Vec<char>)
    ensures
        chars@ == text@,
{
    let mut chars: Vec<char> = Vec::new();
    for c in iter: text.chars()
        invariant
            iter.seq() == text@,
            chars@ == iter.seq().take(iter.index()),
    {
        chars.push(c);
    }
    chars
}

/// Where `chars` begins and ends once the white space around it is left out.
pub fn trim(chars: &Vec<char>) -> (bounds: (usize, usize))
    ensures
        bounds.0 <= bounds.1 <= chars@.len(),
        chars@.subrange(bounds.0 as int, bounds.1 as int) == trimmed(chars@),
{
    let mut start: usize = 0;
    assert(chars@.skip(0) =~= chars@);
    while start < chars.len() && is_white_space(chars[start])
        invariant
            start <= chars@.len(),
            trimmed_start(chars@) == trimmed_start(chars@.skip(start as int)),
        decreases chars@.len() - start,
    {
        proof {
            assert(chars@.skip(start as int).drop_first() =~= chars@.skip(start + 1));
        }
        start = start + 1;
    }
    assert(trimmed_start(chars@) == chars@.skip(start as int));
    let mut end: usize = chars.len();
    assert(chars@.subrange(start as int, end as int) =~= chars@.skip(start as int));
    while end > start && is_white_space(chars[end - 1])
        invariant
            start <= end <= chars@.len(),
            trimmed(chars@) == trimmed_end(chars@.subrange(start as int, end as int)),
        decreases end - start,
    {
        proof {
            assert(chars@.subrange(start as int, end as int).drop_last() =~= chars@.subrange(
                start as int,
                end - 1,
            ));
        }
        end = end - 1;
    }
    (start, end)
}

/// `c` is one of the ten digits.
pub open spec fn is_digit(c: char) -> bool {
    '0' <= c <= '9'
}

/// `text` is one digit after another, at least one.
pub open spec fn is_decimal(text: Seq<char>) -> bool {
    text.len() > 0 && forall|i: int| 0 <= i < text.len() ==> is_digit(#[trigger] text[i])
}

/// The number that a row of digits writes.
pub open spec fn decimal_value(text: Seq<char>) -> int
    decreases text.len(),
{
    if text.len() == 0 {
        0
    } else {
        10 * decimal_value(text.drop_last()) + (text.last() as int - '0' as int)
    }
}

/// The number that `text` writes, with or without a sign in front.
pub open spec fn integer(text: Seq<char>) -> Option<int> {
    if text.len() > 0 && text[0] == '-' {
        if is_decimal(text.drop_first()) {
            Some(-decimal_value(text.drop_first()))
        } else {
            None
        }
    } else {
        natural(text)
    }
}

/// The number that `text` writes, with or without a plus in front.
pub open spec fn natural(text: Seq<char>) -> Option<int> {
    if text.len() > 0 && text[0] == '+' {
        if is_decimal(text.drop_first()) {
            Some(decimal_value(text.drop_first()))
        } else {
            None
        }
    } else if is_decimal(text) {
        Some(decimal_value(text))
    } else {
        None
    }
}

/// Leading digits only ever make a number larger.
proof fn lemma_value_grows(text: Seq<char>, length: int)
    requires
        is_decimal(text),
        0 <= length <= text.len(),
    ensures
        0 <= decimal_value(text.take(length)) <= decimal_value(text),
    decreases text.len() - length,
{
    if length < text.len() {
        lemma_value_grows(text, length + 1);
        assert(text.take(length + 1).drop_last() =~= text.take(length));
        lemma_value_not_negative(text.take(length));
    } else {
        assert(text.take(length) =~= text);
        lemma_value_not_negative(text);
    }
}

proof fn lemma_value_not_negative(text: Seq<char>)
    requires
        forall|i: int| 0 <= i < text.len() ==> is_digit(#[trigger] text[i]),
    ensures
        0 <= decimal_value(text),
    decreases text.len(),
{
    if text.len() > 0 {
        lemma_value_not_negative(text.drop_last());
    }
}

/// The number written by the digits `from..to`, where that is a decimal number
/// of at most `limit`.
fn bounded_decimal(chars: &Vec<char>, from: usize, to: usize, limit: u64) -> (result: Option<u64>)
    requires
        from <= to <= chars@.len(),
        limit <= 0x1_0000_0000,
    ensures
        ({
            let text = chars@.subrange(from as int, to as int);
            match result {
                Some(value) => is_decimal(text) && value == decimal_value(text) && value <= limit,
                None => !is_decimal(text) || decimal_value(text) > limit,
            }
        }),
{
    let ghost text = chars@.subrange(from as int, to as int);
    if from == to {
        return None;
    }
    let mut value: u64 = 0;
    let mut large: bool = false;
    let mut at: usize = from;
    while at < to
        invariant
            from <= at <= to <= chars@.len(),
            text == chars@.subrange(from as int, to as int),
            limit <= 0x1_0000_0000,
            forall|i: int| 0 <= i < at - from ==> is_digit(#[trigger] text[i]),
            !large ==> value == decimal_value(text.take(at - from)) && value <= limit,
            large ==> exists|length: int|
                0 <= length <= at - from && #[trigger] decimal_value(text.take(length)) > limit,
        decreases to - at,
    {
        let c: char = chars[at];
        if !('0' <= c && c <= '9') {
            assert(text[at - from] == c);
            return None;
        }
        proof {
            assert(text.take(at - from + 1).drop_last() =~= text.take(at - from));
            assert(text.take(at - from + 1).last() == c);
        }
        if !large {
            let digit: u64 = (c as u32 - '0' as u32) as u64;
            value = value * 10 + digit;
            if value > limit {
                assert(decimal_value(text.take(at - from + 1)) > limit);
                large = true;
            }
        }
        at = at + 1;
    }
    assert(is_decimal(text));
    if large {
        proof {
            let length = choose|length: int|
                0 <= length <= to - from && #[trigger] decimal_value(text.take(length)) > limit;
            lemma_value_grows(text, length);
        }
        None
    } else {
        assert(text.take(to - from) =~= text);
        Some(value)
    }
}

/// The signed number written in `from..to`, where it fits.
pub fn parse_i32(chars: &Vec<char>, from: usize, to: usize) -> (result: Option<i32>)
    requires
        from <= to <= chars@.len(),
    ensures
        ({
            let written = integer(chars@.subrange(from as int, to as int));
            match result {
                Some(value) => written == Some(value as int),
                None => written is None || written->0 < i32::MIN || written->0 > i32::MAX,
            }
        }),
{
    let ghost text = chars@.subrange(from as int, to as int);
    if from < to && chars[from] == '-' {
        proof {
            assert(text.drop_first() =~= chars@.subrange(from + 1, to as int));
        }
        return match bounded_decimal(chars, from + 1, to, 0x8000_0000) {
            Some(value) => {
                let wide: i64 = -(value as i64);
                Some(wide as i32)
            },
            None => None,
        };
    }
    let mut start: usize = from;
    if from < to && chars[from] == '+' {
        proof {
            assert(text.drop_first() =~= chars@.subrange(from + 1, to as int));
        }
        start = from + 1;
    }
    match bounded_decimal(chars, start, to, 0x7fff_ffff) {
        Some(value) => Some(value as i32),
        None => None,
    }
}

/// The number written in `from..to`, where it fits a byte.
pub fn parse_u8(chars: &Vec<char>, from: usize, to: usize) -> (result: Option<u8>)
    requires
        from <= to <= chars@.len(),
    ensures
        ({
            let written = natural(chars@.subrange(from as int, to as int));
            match result {
                Some(value) => written == Some(value as int),
                None => written is None || written->0 > u8::MAX,
            }
        }),
{
    let ghost text = chars@.subrange(from as int, to as int);
    let mut start: usize = from;
    if from < to && chars[from] == '+' {
        proof {
            assert(text.drop_first() =~= chars@.subrange(from + 1, to as int));
        }
        start = from + 1;
    }
    match bounded_decimal(chars, start, to, 0xff) {
        Some(value) => Some(value as u8),
        None => None,
    }
}

/// The digit `value` as a character.
pub open spec fn digit(value: int) -> char {
    ('0' as int + value) as char
}

/// `number` in decimal.
pub open spec fn decimal(number: nat) -> Seq<char>
    decreases number,
{
    if number < 10 {
        seq![digit(number as int)]
    } else {
        decimal(number / 10).push(digit((number % 10) as int))
    }
}

/// `number` in decimal, with a minus in front of a negative one.
pub open spec fn signed_decimal(number: int) -> Seq<char> {
    if number < 0 {
        seq!['-'] + decimal((-number) as nat)
    } else {
        decimal(number as nat)
    }
}

/// What is written in decimal reads back as the same number.
pub proof fn decimal_reads_back(number: nat)
    ensures
        is_decimal(decimal(number)),
        decimal_value(decimal(number)) == number,
    decreases number,
{
    let text = decimal(number);
    if number < 10 {
        assert(text.drop_last() =~= Seq::<char>::empty());
        reveal_with_fuel(decimal_value, 2);
    } else {
        decimal_reads_back(number / 10);
        assert(text.drop_last() =~= decimal(number / 10));
        assert forall|i: int| 0 <= i < text.len() implies is_digit(#[trigger] text[i]) by {
            if i < text.len() - 1 {
                assert(text[i] == decimal(number / 10)[i]);
            }
        }
    }
}

/// A digit as text.
fn digit_text(value: u32) -> (text: &'static str)
    requires
        value < 10,
    ensures
        text@ == seq![digit(value as int)],
{
    proof {
        reveal_strlit("0");
        reveal_strlit("1");
        reveal_strlit("2");
        reveal_strlit("3");
        reveal_strlit("4");
        reveal_strlit("5");
        reveal_strlit("6");
        reveal_strlit("7");
        reveal_strlit("8");
        reveal_strlit("9");
    }
    let text = if value == 0 {
        "0"
    } else if value == 1 {
        "1"
    } else if value == 2 {
        "2"
    } else if value == 3 {
        "3"
    } else if value == 4 {
        "4"
    } else if value == 5 {
        "5"
    } else if value == 6 {
        "6"
    } else if value == 7 {
        "7"
    } else if value == 8 {
        "8"
    } else {
        "9"
    };
    assert(text@ =~= seq![digit(value as int)]);
    text
}

/// Writes `number` in decimal at the end of `text`.
pub fn append_decimal(text: &mut String, number: u32)
    ensures
        final(text)@ == old(text)@ + decimal(number as nat),
    decreases number,
{
    if number >= 10 {
        append_decimal(text, number / 10);
    }
    text.append(digit_text(number % 10));
    assert(text@ =~= old(text)@ + decimal(number as nat));
}

/// Writes `number` in decimal at the end of `text`, with its sign.
pub fn append_signed(text: &mut String, number: i16)
    ensures
        final(text)@ == old(text)@ + signed_decimal(number as int),
{
    if number < 0 {
        text.append("-");
        proof {
            reveal_strlit("-");
        }
        let wide: i32 = -(number as i32);
        append_decimal(text, wide as u32);
        assert(text@ =~= old(text)@ + signed_decimal(number as int));
    } else {
        append_decimal(text, number as u32);
    }
}

/// `inner` lies in `outer`, beginning at `start`.
pub open spec fn found_at(outer: Seq<char>, inner: Seq<char>, start: int) -> bool {
    0 <= start && start + inner.len() <= outer.len() && outer.subrange(
        start,
        start + inner.len(),
    ) == inner
}

/// `inner` lies somewhere in `outer`.
pub open spec fn contains(outer: Seq<char>, inner: Seq<char>) -> bool {
    exists|start: int| found_at(outer, inner, start)
}

/// Whether `inner` lies somewhere in `outer`.
pub fn is_inside(outer: &Vec<char>, inner: &Vec<char>) -> (result: bool)
    ensures
        result == contains(outer@, inner@),
{
    if inner.len() > outer.len() {
        return false;
    }
    let last: usize = outer.len() - inner.len();
    let mut start: usize = 0;
    loop
        invariant
            inner@.len() <= outer@.len(),
            last == outer@.len() - inner@.len(),
            start <= last,
            forall|s: int| 0 <= s < start ==> !found_at(outer@, inner@, s),
        decreases last - start,
    {
        if matches_at(outer, inner, start) {
            assert(found_at(outer@, inner@, start as int));
            return true;
        }
        if start == last {
            return false;
        }
        start = start + 1;
    }
}

/// Whether `inner` lies in `outer` beginning at `start`.
fn matches_at(outer: &Vec<char>, inner: &Vec<char>, start: usize) -> (result: bool)
    requires
        start + inner@.len() <= outer@.len(),
    ensures
        result == found_at(outer@, inner@, start as int),
{
    let mut at: usize = 0;
    let length: usize = outer.len();
    while at < inner.len()
        invariant
            at <= inner@.len(),
            length == outer@.len(),
            start + inner@.len() <= outer@.len(),
            forall|i: int| 0 <= i < at ==> outer@[start + i] == #[trigger] inner@[i],
        decreases inner@.len() - at,
    {
        if outer[start + at] != inner[at] {
            assert(outer@.subrange(start as int, start + inner@.len())[at as int]
                != inner@[at as int]);
            return false;
        }
        at = at + 1;
    }
    assert(outer@.subrange(start as int, start + inner@.len()) =~= inner@);
    true
}

} // verus!
