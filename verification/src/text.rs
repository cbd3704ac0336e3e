//! Numbers and text: digits of a number in a radix, the number that a hexadecimal text denotes,
//! and joining of text segments.

use vstd::arithmetic::div_mod::*;
use vstd::prelude::*;
use vstd::string::*;

verus! {

/// The digit `d` as a character; digits from ten on are upper-case letters.
pub open spec fn digit_char(d: nat) -> char {
    if d < 10 {
        (48 + d) as char
    } else {
        (55 + d) as char
    }
}

/// The digits of `value` in `radix`, most significant first, without leading zeros.
pub open spec fn digits(value: nat, radix: nat) -> Seq<char>
    recommends
        2 <= radix <= 16,
    decreases value,
{
    if radix < 2 {
        Seq::empty()
    } else if value < radix {
        seq![digit_char(value)]
    } else {
        proof {
            lemma_div_decreases(value as int, radix as int);
        }
        digits(value / radix, radix).push(digit_char(value % radix))
    }
}

/// The quotient shrinks, and is zero only below the radix.
proof fn lemma_quotient(value: int, radix: int)
    requires
        0 <= value,
        2 <= radix,
    ensures
        value < radix ==> value / radix == 0 && value % radix == value,
        value >= radix ==> 1 <= value / radix < value,
{
    if value < radix {
        lemma_basic_div(value, radix);
        lemma_small_mod(value as nat, radix as nat);
    } else {
        lemma_div_decreases(value, radix);
        lemma_div_is_ordered(radix, value, radix);
        lemma_div_by_self(radix);
    }
}

/// The upper-case hexadecimal digits of `value`.
pub open spec fn hex(value: nat) -> Seq<char> {
    digits(value, 16)
}

/// The decimal digits of `value`.
pub open spec fn decimal(value: nat) -> Seq<char> {
    digits(value, 10)
}

/// The value of a hexadecimal digit in either case.
pub open spec fn hex_digit_value(c: char) -> Option<nat> {
    if '0' <= c <= '9' {
        Some((c as nat - 48) as nat)
    } else if 'A' <= c <= 'F' {
        Some((c as nat - 55) as nat)
    } else if 'a' <= c <= 'f' {
        Some((c as nat - 87) as nat)
    } else {
        None
    }
}

/// The number that a sequence of hexadecimal digits denotes, if each character is such a digit.
pub open spec fn hex_digits_value(text: Seq<char>) -> Option<nat>
    decreases text.len(),
{
    if text.len() == 0 {
        Some(0)
    } else {
        match (hex_digits_value(text.drop_last()), hex_digit_value(text.last())) {
            (Some(high), Some(low)) => Some(high * 16 + low),
            _ => None,
        }
    }
}

/// `text` without one leading plus sign.
pub open spec fn without_plus(text: Seq<char>) -> Seq<char> {
    if text.len() > 0 && text[0] == '+' {
        text.skip(1)
    } else {
        text
    }
}

/// The number that a hexadecimal text denotes: an optional plus sign, then one digit or more,
/// with a value of at most `max`.
pub open spec fn parsed_hex(text: Seq<char>, max: nat) -> Option<nat> {
    let body = without_plus(text);
    if body.len() == 0 {
        None
    } else {
        match hex_digits_value(body) {
            Some(value) => if value <= max {
                Some(value)
            } else {
                None
            },
            None => None,
        }
    }
}

/// The segments put one after the other with `separator` between each two.
pub open spec fn joined(segments: Seq<Seq<char>>, separator: Seq<char>) -> Seq<char>
    decreases segments.len(),
{
    if segments.len() == 0 {
        Seq::empty()
    } else if segments.len() == 1 {
        segments[0]
    } else {
        joined(segments.drop_last(), separator) + separator + segments.last()
    }
}

/// The views of a sequence of strings.
pub open spec fn views(strings: Seq<String>) -> Seq<Seq<char>> {
    strings.map_values(|s: String| s@)
}

/// The digit `d` as a text of one character.
fn digit_text(d: u64) -> (text: &'static str)
    requires
        d < 16,
    ensures
        text@ == seq![digit_char(d as nat)],
{
    proof {
        reveal_strlit("0");
        reveal_strlit("1");
        reveal_strlit("2");
        reveal_strlit("3");
        reveal_strlit("4");
        reveal_strlit("5");
        reveal_strlit("6");
        reveal_strlit("7");
        reveal_strlit("8");
        reveal_strlit("9");
        reveal_strlit("A");
        reveal_strlit("B");
        reveal_strlit("C");
        reveal_strlit("D");
        reveal_strlit("E");
        reveal_strlit("F");
    }
    match d {
        0 => "0",
        1 => "1",
        2 => "2",
        3 => "3",
        4 => "4",
        5 => "5",
        6 => "6",
        7 => "7",
        8 => "8",
        9 => "9",
        10 => "A",
        11 => "B",
        12 => "C",
        13 => "D",
        14 => "E",
        _ => "F",
    }
}

/// The digits of `value` in `radix`.
fn to_digits(value: u64, radix: u64) -> (text: String)
    requires
        2 <= radix <= 16,
    ensures
        text@ == digits(value as nat, radix as nat),
{
    let mut text: String = String::from_str(digit_text(value % radix));
    let mut rest: u64 = value / radix;
    proof {
        lemma_quotient(value as int, radix as int);
        assert(rest > 0 ==> digits(value as nat, radix as nat) =~= digits(
            rest as nat,
            radix as nat,
        ) + text@);
    }
    while rest > 0
        invariant
            2 <= radix <= 16,
            rest == 0 ==> text@ == digits(value as nat, radix as nat),
            rest > 0 ==> digits(value as nat, radix as nat) == digits(rest as nat, radix as nat)
                + text@,
        decreases rest,
    {
        let ghost before = text@;
        let mut longer: String = String::from_str(digit_text(rest % radix));
        longer.append(text.as_str());
        text = longer;
        proof {
            lemma_quotient(rest as int, radix as int);
            let low = digit_char((rest % radix) as nat);
            assert(text@ =~= seq![low] + before);
            if rest < radix {
                assert(digits(rest as nat, radix as nat) + before =~= text@);
            } else {
                let high = digits((rest / radix) as nat, radix as nat);
                assert(high.push(low) + before =~= high + text@);
            }
        }
        rest = rest / radix;
    }
    text
}

/// `value` in upper-case hexadecimal.
pub fn encode_hex(value: u32) -> (text: String)
    ensures
        text@ == hex(value as nat),
{
    to_digits(value as u64, 16)
}

/// `value` in decimal.
pub(crate) fn encode_decimal(value: usize) -> (text: String)
    ensures
        text@ == decimal(value as nat),
{
    to_digits(value as u64, 10)
}

/// The value of a hexadecimal digit.
fn digit_of(c: char) -> (digit: Option<u32>)
    ensures
        match digit {
            Some(d) => hex_digit_value(c) == Some(d as nat) && d < 16,
            None => hex_digit_value(c) is None,
        },
{
    let code: u32 = c as u32;
    if 48 <= code && code <= 57 {
        Some(code - 48)
    } else if 65 <= code && code <= 70 {
        Some(code - 55)
    } else if 97 <= code && code <= 102 {
        Some(code - 87)
    } else {
        None
    }
}

/// A prefix of a digit text denotes no more than the whole text.
proof fn lemma_prefix_value(text: Seq<char>, n: int)
    requires
        0 <= n <= text.len(),
    ensures
        hex_digits_value(text.take(n)) is None ==> hex_digits_value(text) is None,
        hex_digits_value(text) is Some ==> hex_digits_value(text.take(n))->0 <= hex_digits_value(
            text,
        )->0,
    decreases text.len() - n,
{
    if n == text.len() {
        assert(text.take(n) =~= text);
    } else {
        lemma_prefix_value(text, n + 1);
        assert(text.take(n + 1).drop_last() =~= text.take(n));
    }
}

/// The number of at most `max` that `value` denotes in hexadecimal.
fn parse_hex(value: &str, max: u32) -> (number: Option<u32>)
    requires
        max <= 0xFFFF,
    ensures
        match number {
            Some(n) => parsed_hex(value@, max as nat) == Some(n as nat),
            None => parsed_hex(value@, max as nat) is None,
        },
{
    let len: usize = value.unicode_len();
    let start: usize = if len > 0 && value.get_char(0) == '+' {
        1
    } else {
        0
    };
    let ghost body = without_plus(value@);
    proof {
        assert(body =~= value@.skip(start as int));
    }
    if start == len {
        return None;
    }
    let mut number: u32 = 0;
    let mut i: usize = start;
    while i < len
        invariant
            start <= i <= len,
            start <= 1,
            len == value@.len(),
            start < len,
            body == value@.skip(start as int),
            body == without_plus(value@),
            hex_digits_value(body.take(i - start)) == Some(number as nat),
            number <= max,
            max <= 0xFFFF,
        decreases len - i,
    {
        let c: char = value.get_char(i);
        proof {
            lemma_prefix_value(body, i - start + 1);
            assert(body.take(i - start + 1).drop_last() =~= body.take(i - start));
            assert(body.take(i - start + 1).last() == c);
        }
        match digit_of(c) {
            None => {
                return None;
            },
            Some(d) => {
                number = number * 16 + d;
                if number > max {
                    return None;
                }
            },
        }
        i = i + 1;
    }
    proof {
        assert(body.take(len - start) =~= body);
    }
    Some(number)
}

/// The sixteen-bit number that `value` denotes in hexadecimal.
pub fn parse_hex_u16(value: &str) -> (number: Option<u16>)
    ensures
        match number {
            Some(n) => parsed_hex(value@, 0xFFFF) == Some(n as nat),
            None => parsed_hex(value@, 0xFFFF) is None,
        },
{
    match parse_hex(value, 0xFFFF) {
        Some(n) => Some(n as u16),
        None => None,
    }
}

/// The eight-bit number that `value` denotes in hexadecimal.
pub fn parse_hex_u8(value: &str) -> (number: Option<u8>)
    ensures
        match number {
            Some(n) => parsed_hex(value@, 0xFF) == Some(n as nat),
            None => parsed_hex(value@, 0xFF) is None,
        },
{
    match parse_hex(value, 0xFF) {
        Some(n) => Some(n as u8),
        None => None,
    }
}

/// The segments put one after the other with a slash between each two.
pub(crate) fn join_segments(segments: &Vec<String>) -> (text: String)
    ensures
        text@ == joined(views(segments@), "/"@),
{
    let mut text: String = String::new();
    let mut i: usize = 0;
    proof {
        assert(views(segments@).take(0) =~= Seq::<Seq<char>>::empty());
        assert(text@ =~= Seq::<char>::empty());
    }
    while i < segments.len()
        invariant
            i <= segments.len(),
            text@ == joined(views(segments@).take(i as int), "/"@),
        decreases segments.len() - i,
    {
        let ghost all = views(segments@);
        proof {
            assert(all.take(i + 1).drop_last() =~= all.take(i as int));
            assert(all.take(i + 1).last() == segments@[i as int]@);
        }
        if i > 0 {
            text.append("/");
        }
        text.append(segments[i].as_str());
        proof {
            if i == 0 {
                assert(text@ =~= segments@[0]@);
            }
        }
        i = i + 1;
    }
    proof {
        assert(views(segments@).take(i as int) =~= views(segments@));
    }
    text
}

/// The hexadecimal digits of a number denote that number, and each of them is a digit.
proof fn lemma_hex_value(value: nat)
    ensures
        hex(value).len() > 0,
        hex_digits_value(hex(value)) == Some(value),
        forall|i: int| 0 <= i < hex(value).len() ==> hex_digit_value(#[trigger] hex(value)[i]) is Some,
    decreases value,
{
    if value < 16 {
        reveal_with_fuel(hex_digits_value, 2);
        assert(hex(value).drop_last() =~= Seq::empty());
    } else {
        lemma_hex_value(value / 16);
        assert(hex(value).drop_last() =~= hex(value / 16));
        assert(value == (value / 16) * 16 + value % 16);
    }
}

/// The hexadecimal digits of a sixteen-bit number: one to four, and none of them a slash.
pub(crate) proof fn lemma_hex_of_u16(value: nat)
    requires
        value <= 0xFFFF,
    ensures
        1 <= hex(value).len() <= 4,
        forall|i: int| 0 <= i < hex(value).len() ==> hex_digit_value(#[trigger] hex(value)[i]) is Some,
{
    lemma_hex_value(value);
    reveal_with_fuel(digits, 5);
}

/// Reading a hexadecimal text back gives the number that was written.
pub proof fn hex_text_parses_back(value: nat, max: nat)
    requires
        value <= max,
    ensures
        parsed_hex(hex(value), max) == Some(value),
{
    lemma_hex_value(value);
    assert(hex_digit_value(hex(value)[0]) is Some);
}

/// Different numbers have different hexadecimal texts.
pub proof fn hex_text_is_unique(a: nat, b: nat)
    ensures
        hex(a) == hex(b) ==> a == b,
{
    lemma_hex_value(a);
    lemma_hex_value(b);
}

/// Whether two texts are the same.
pub(crate) fn same_text(a: &str, b: &str) -> (same: bool)
    ensures
        same == (a@ == b@),
{
    a.to_owned() == b.to_owned()
}

/// The sixteen digits are the usual characters: `0` to `9` stand for zero to nine, and `A` to `F`,
/// in this order, for ten to fifteen.
pub proof fn digits_are_the_usual_characters(d: nat)
    requires
        d < 16,
    ensures
        d < 10 ==> digit_char(d) as int == '0' as int + d,
        d >= 10 ==> digit_char(d) as int == 'A' as int + (d - 10),
        d == 10 ==> digit_char(d) == 'A',
        d == 11 ==> digit_char(d) == 'B',
        d == 12 ==> digit_char(d) == 'C',
        d == 13 ==> digit_char(d) == 'D',
        d == 14 ==> digit_char(d) == 'E',
        d == 15 ==> digit_char(d) == 'F',
{
}

/// The value of a digit is its distance from `0`, or ten and its distance from `A` or `a`; no other
/// character is a digit.
pub proof fn digit_values_are_the_usual_ones(c: char)
    ensures
        '0' as int <= c as int <= '9' as int ==> hex_digit_value(c) == Some(
            (c as int - '0' as int) as nat,
        ),
        'A' as int <= c as int <= 'F' as int ==> hex_digit_value(c) == Some(
            (10 + (c as int - 'A' as int)) as nat,
        ),
        'a' as int <= c as int <= 'f' as int ==> hex_digit_value(c) == Some(
            (10 + (c as int - 'a' as int)) as nat,
        ),
        hex_digit_value(c) is Some ==> '0' as int <= c as int <= '9' as int || 'A' as int
            <= c as int <= 'F' as int || 'a' as int <= c as int <= 'f' as int,
        c == 'D' || c == 'd' ==> hex_digit_value(c) == Some(13nat),
        c == 'E' || c == 'e' ==> hex_digit_value(c) == Some(14nat),
{
}

/// A number is written digit by digit: below sixteen as its one digit, from there on as what stands
/// for its sixteenth part, and behind it the digit of the rest.
pub proof fn hexadecimal_is_written_digit_by_digit(high: nat, low: nat)
    requires
        low < 16,
    ensures
        hex(low).len() == 1,
        hex(low)[0] as int == if low < 10 {
            '0' as int + low
        } else {
            'A' as int + (low - 10)
        },
        high > 0 ==> hex(high * 16 + low) == hex(high) + hex(low),
{
    if high > 0 {
        assert((high * 16 + low) / 16 == high);
        assert((high * 16 + low) % 16 == low);
        assert(hex(high * 16 + low) =~= hex(high) + hex(low));
    }
}

/// The same of the decimal digits.
pub proof fn decimal_is_written_digit_by_digit(high: nat, low: nat)
    requires
        low < 10,
    ensures
        decimal(low).len() == 1,
        decimal(low)[0] as int == '0' as int + low,
        high > 0 ==> decimal(high * 10 + low) == decimal(high) + decimal(low),
{
    if high > 0 {
        assert((high * 10 + low) / 10 == high);
        assert((high * 10 + low) % 10 == low);
        assert(decimal(high * 10 + low) =~= decimal(high) + decimal(low));
    }
}

/// A hexadecimal text with one digit more denotes sixteen times as much and the value of the digit,
/// as far as that is within the limit; with any other character more it denotes nothing.
pub proof fn hexadecimal_is_read_digit_by_digit(text: Seq<char>, c: char, value: nat, max: nat)
    requires
        parsed_hex(text, max) == Some(value),
    ensures
        parsed_hex(text.push(c), max) == if '0' as int <= c as int <= '9' as int && value * 16 + (
        c as int - '0' as int) <= max {
            Some((value * 16 + (c as int - '0' as int)) as nat)
        } else if 'A' as int <= c as int <= 'F' as int && value * 16 + 10 + (c as int - 'A' as int)
            <= max {
            Some((value * 16 + 10 + (c as int - 'A' as int)) as nat)
        } else if 'a' as int <= c as int <= 'f' as int && value * 16 + 10 + (c as int - 'a' as int)
            <= max {
            Some((value * 16 + 10 + (c as int - 'a' as int)) as nat)
        } else {
            None
        },
{
    let body = without_plus(text);
    assert(without_plus(text.push(c)) =~= body.push(c));
    assert(body.push(c).drop_last() =~= body);
}

/// A text of one character denotes the value of that digit; no characters, and a plus sign alone,
/// denote nothing.
pub proof fn shortest_hexadecimal_texts(c: char, max: nat)
    requires
        max >= 15,
    ensures
        parsed_hex(seq![c], max) == if '0' as int <= c as int <= '9' as int {
            Some((c as int - '0' as int) as nat)
        } else if 'A' as int <= c as int <= 'F' as int {
            Some((10 + (c as int - 'A' as int)) as nat)
        } else if 'a' as int <= c as int <= 'f' as int {
            Some((10 + (c as int - 'a' as int)) as nat)
        } else {
            None
        },
        parsed_hex(Seq::<char>::empty(), max) is None,
{
    reveal_with_fuel(hex_digits_value, 2);
    assert(seq![c].drop_last() =~= Seq::<char>::empty());
    if c == '+' {
        assert(without_plus(seq![c]) =~= Seq::<char>::empty());
    }
}

/// One plus sign before a hexadecimal text that has none changes nothing.
pub proof fn plus_sign_changes_nothing(text: Seq<char>, max: nat)
    requires
        text.len() > 0,
        text[0] != '+',
    ensures
        parsed_hex(seq!['+'] + text, max) == parsed_hex(text, max),
{
    assert(without_plus(seq!['+'] + text) =~= text);
}

/// A limit cuts off the larger numbers and changes no other.
pub proof fn limit_cuts_off_larger_numbers(text: Seq<char>, max: nat, larger: nat, value: nat)
    requires
        max <= larger,
    ensures
        parsed_hex(text, max) == Some(value) <==> value <= max && parsed_hex(text, larger) == Some(
            value,
        ),
{
}

/// A text that denotes nothing, and is not merely empty behind its plus sign, denotes nothing with
/// more characters behind it either.
pub proof fn unreadable_text_stays_unreadable(text: Seq<char>, c: char, max: nat)
    requires
        without_plus(text).len() > 0,
        parsed_hex(text, max) is None,
    ensures
        parsed_hex(text.push(c), max) is None,
{
    let body = without_plus(text);
    assert(without_plus(text.push(c)) =~= body.push(c));
    assert(body.push(c).drop_last() =~= body);
}

/// A segment put before others stands before them, with the separator between.
pub proof fn segments_are_joined_in_order(
    first: Seq<char>,
    others: Seq<Seq<char>>,
    separator: Seq<char>,
)
    ensures
        joined(seq![first], separator) == first,
        others.len() > 0 ==> joined(seq![first] + others, separator) == first + separator + joined(
            others,
            separator,
        ),
    decreases others.len(),
{
    if others.len() > 0 {
        let all = seq![first] + others;
        assert(all.drop_last() =~= seq![first] + others.drop_last());
        assert(all.last() == others.last());
        segments_are_joined_in_order(first, others.drop_last(), separator);
        if others.len() == 1 {
            assert(all.drop_last() =~= seq![first]);
            assert(joined(all, separator) =~= first + separator + joined(others, separator));
        } else {
            assert(joined(all, separator) =~= first + separator + joined(others, separator));
        }
    }
}

/// The views of strings are the texts of the strings, place by place.
pub proof fn views_are_the_texts(strings: Seq<String>, i: int)
    requires
        0 <= i < strings.len(),
    ensures
        views(strings).len() == strings.len(),
        views(strings)[i] == strings[i]@,
{
}

} // verus!
