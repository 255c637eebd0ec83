//! Decimal rendering of integers, for the places where a number becomes part
//! of a URL or of a label.

use vstd::prelude::*;
use vstd::string::{StrSliceExecFns, StringExecFns};

verus! {

/// The character of a single decimal digit.
pub open spec fn digit_char(d: int) -> char {
    if d == 0 {
        '0'
    } else if d == 1 {
        '1'
    } else if d == 2 {
        '2'
    } else if d == 3 {
        '3'
    } else if d == 4 {
        '4'
    } else if d == 5 {
        '5'
    } else if d == 6 {
        '6'
    } else if d == 7 {
        '7'
    } else if d == 8 {
        '8'
    } else {
        '9'
    }
}

/// The decimal digits of a natural number, most significant first, with no
/// leading zero; zero is the single digit `0`.
pub open spec fn decimal_text(n: nat) -> Seq<char>
    decreases n,
{
    if n < 10 {
        seq![digit_char(n as int)]
    } else {
        decimal_text(n / 10).push(digit_char((n % 10) as int))
    }
}

/// The decimal text of an integer: a minus sign before the digits of a
/// negative one.
pub open spec fn signed_decimal_text(i: int) -> Seq<char> {
    if i < 0 {
        seq!['-'] + decimal_text((-i) as nat)
    } else {
        decimal_text(i as nat)
    }
}

fn digit_text(d: u64) -> (text: &'static str)
    requires
        d < 10,
    ensures
        text@ == seq![digit_char(d as int)],
{
    proof {
        reveal_strlit("0");
        reveal_strlit("1");
        reveal_strlit("2");
        reveal_strlit("3");
        reveal_strlit("4");
        reveal_strlit("5");
        reveal_strlit("6");
        reveal_strlit("7");
        reveal_strlit("8");
        reveal_strlit("9");
    }
    let text = if d == 0 {
        "0"
    } else if d == 1 {
        "1"
    } else if d == 2 {
        "2"
    } else if d == 3 {
        "3"
    } else if d == 4 {
        "4"
    } else if d == 5 {
        "5"
    } else if d == 6 {
        "6"
    } else if d == 7 {
        "7"
    } else if d == 8 {
        "8"
    } else {
        "9"
    };
    assert(text@ =~= seq![digit_char(d as int)]);
    text
}

/// Whether two texts are the same, character by character.
pub fn same_text(a: &str, b: &str) -> (same: bool)
    ensures
        same == (a@ == b@),
{
    String::from_str(a) == String::from_str(b)
}

/// The text in effect: the one given, or the fallback.
pub open spec fn given_or(given: Option<String>, fallback: Seq<char>) -> Seq<char> {
    match given {
        Some(text) => text@,
        None => fallback,
    }
}

/// The text given, or else the fallback.
pub fn or_default(given: Option<String>, fallback: &str) -> (text: String)
    ensures
        text@ == given_or(given, fallback@),
{
    match given {
        Some(text) => text,
        None => String::from_str(fallback),
    }
}

/// Renders a number in decimal.
pub fn decimal(n: u64) -> (text: String)
    ensures
        text@ == decimal_text(n as nat),
    decreases n,
{
    if n < 10 {
        String::from_str(digit_text(n))
    } else {
        let mut text = decimal(n / 10);
        text.append(digit_text(n % 10));
        assert(text@ =~= decimal_text((n / 10) as nat).push(digit_char((n % 10) as int)));
        text
    }
}

/// Renders a signed number in decimal.
pub fn signed_decimal(i: i64) -> (text: String)
    ensures
        text@ == signed_decimal_text(i as int),
{
    if i < 0 {
        let magnitude: u64 = if i == i64::MIN {
            9223372036854775808u64
        } else {
            (-i) as u64
        };
        let mut text = String::from_str("-");
        let digits = decimal(magnitude);
        text.append(digits.as_str());
        proof {
            reveal_strlit("-");
            assert("-"@ =~= seq!['-']);
        }
        text
    } else {
        decimal(i as u64)
    }
}

/// Every character of a decimal text is a digit, there is at least one, and
/// the first is `0` only for zero itself.
pub proof fn lemma_decimal_shape(n: nat)
    ensures
        decimal_text(n).len() >= 1,
        forall|k: int|
            0 <= k < decimal_text(n).len() ==> '0' <= #[trigger] decimal_text(n)[k] <= '9',
        n > 0 ==> decimal_text(n)[0] != '0',
    decreases n,
{
    if n >= 10 {
        lemma_decimal_shape(n / 10);
    }
}

/// The digit a character stands for, if it is a decimal digit.
pub open spec fn digit_of(c: char) -> Option<nat> {
    if c == '0' {
        Some(0)
    } else if c == '1' {
        Some(1)
    } else if c == '2' {
        Some(2)
    } else if c == '3' {
        Some(3)
    } else if c == '4' {
        Some(4)
    } else if c == '5' {
        Some(5)
    } else if c == '6' {
        Some(6)
    } else if c == '7' {
        Some(7)
    } else if c == '8' {
        Some(8)
    } else if c == '9' {
        Some(9)
    } else {
        None
    }
}

/// The number a run of decimal digits stands for, most significant first;
/// `None` where a character is no digit. No digit at all stands for zero.
pub open spec fn digits_value(digits: Seq<char>) -> Option<nat>
    decreases digits.len(),
{
    if digits.len() == 0 {
        Some(0)
    } else {
        match (digits_value(digits.drop_last()), digit_of(digits.last())) {
            (Some(value), Some(digit)) => Some(value * 10 + digit),
            _ => None,
        }
    }
}

/// The digits of a number text: what follows a plus sign in front, or all
/// of it.
pub open spec fn digits_of(text: Seq<char>) -> Seq<char> {
    if text.len() > 0 && text[0] == '+' {
        text.skip(1)
    } else {
        text
    }
}

/// The number a text stands for: one or more decimal digits, with or
/// without a plus sign in front, and nothing else.
pub open spec fn number_of(text: Seq<char>) -> Option<nat> {
    if digits_of(text).len() == 0 {
        None
    } else {
        digits_value(digits_of(text))
    }
}

/// The port a text stands for: its number, where that is one and fits.
pub open spec fn port_of(text: Seq<char>) -> Option<u16> {
    match number_of(text) {
        Some(value) => if value <= u16::MAX {
            Some(value as u16)
        } else {
            None
        },
        None => None,
    }
}

fn digit(c: char) -> (value: Option<u32>)
    ensures
        match value {
            Some(d) => digit_of(c) == Some(d as nat) && d <= 9,
            None => digit_of(c) is None,
        },
{
    if c == '0' {
        Some(0)
    } else if c == '1' {
        Some(1)
    } else if c == '2' {
        Some(2)
    } else if c == '3' {
        Some(3)
    } else if c == '4' {
        Some(4)
    } else if c == '5' {
        Some(5)
    } else if c == '6' {
        Some(6)
    } else if c == '7' {
        Some(7)
    } else if c == '8' {
        Some(8)
    } else if c == '9' {
        Some(9)
    } else {
        None
    }
}

/// What the digits read so far say of the whole: where they stand for no
/// number neither does the whole, and where they do, the whole stands for
/// no smaller one.
pub proof fn lemma_digits_prefix(digits: Seq<char>, read: int)
    requires
        0 <= read <= digits.len(),
    ensures
        digits_value(digits.take(read)) is None ==> digits_value(digits) is None,
        digits_value(digits) is Some ==> digits_value(digits.take(read)) is Some
            && digits_value(digits.take(read))->0 <= digits_value(digits)->0,
    decreases digits.len(),
{
    if read == digits.len() {
        assert(digits.take(read) =~= digits);
    } else {
        let rest = digits.drop_last();
        assert(rest.take(read) =~= digits.take(read));
        lemma_digits_prefix(rest, read);
    }
}

/// Reads a port number: one or more decimal digits, with or without a plus
/// sign in front, that stand for a number up to 65535.
pub fn parse_port(text: &str) -> (port: Option<u16>)
    ensures
        port == port_of(text@),
{
    let len = text.unicode_len();
    let mut at: usize = 0;
    if len > 0 && text.get_char(0) == '+' {
        at = 1;
    }
    let ghost digits = digits_of(text@);
    let first = at;
    if at == len {
        return None;
    }
    let mut value: u32 = 0;
    proof {
        assert(digits.take(0) =~= Seq::<char>::empty());
    }
    while at < len
        invariant
            first <= at <= len,
            len == text@.len(),
            digits == digits_of(text@),
            digits.len() == len - first,
            first == 0 ==> digits == text@,
            first == 1 ==> digits == text@.skip(1),
            first <= 1,
            digits_value(digits.take(at - first)) == Some(value as nat),
            value <= u16::MAX,
        decreases len - at,
    {
        let c = text.get_char(at);
        proof {
            let seen = digits.take(at - first);
            let more = digits.take(at - first + 1);
            assert(digits[at - first] == c);
            assert(more.drop_last() =~= seen);
            assert(more.last() == c);
            lemma_digits_prefix(digits, at - first + 1);
        }
        match digit(c) {
            Some(d) => {
                value = value * 10 + d;
                if value > 65535 {
                    return None;
                }
            },
            None => {
                return None;
            },
        }
        at += 1;
    }
    proof {
        assert(digits.take(at - first) =~= digits);
    }
    Some(value as u16)
}

/// The decimal text of a number is read back as that number.
pub proof fn lemma_decimal_reads_back(n: nat)
    ensures
        digits_value(decimal_text(n)) == Some(n),
        number_of(decimal_text(n)) == Some(n),
    decreases n,
{
    lemma_decimal_shape(n);
    let digits = decimal_text(n);
    if n < 10 {
        assert(digits.drop_last() =~= Seq::<char>::empty());
        assert(digits.last() == digit_char(n as int));
        assert(digits_value(digits.drop_last()) == Some(0nat));
    } else {
        lemma_decimal_reads_back(n / 10);
        assert(digits.drop_last() =~= decimal_text(n / 10));
        assert(digits.last() == digit_char((n % 10) as int));
    }
    assert(digits[0] != '+');
}

} // verus!
