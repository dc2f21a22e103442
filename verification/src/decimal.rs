//! Numbers in decimal notation.

use vstd::prelude::*;
use vstd::string::*;

verus! {

/// The character of a decimal digit.
pub open spec fn digit_char(digit: nat) -> char {
    (('0' as u32) + digit) as char
}

/// Whether a character is a decimal digit.
pub open spec fn is_digit(c: char) -> bool {
    '0' <= c <= '9'
}

/// A number in decimal notation, without leading zeros.
pub open spec fn decimal(n: nat) -> Seq<char>
    decreases n,
{
    if n < 10 {
        seq![digit_char(n)]
    } else {
        decimal(n / 10).push(digit_char(n % 10))
    }
}

/// The number that a run of digits denotes.
pub open spec fn digits_value(digits: Seq<char>) -> nat
    decreases digits.len(),
{
    if digits.len() == 0 {
        0
    } else {
        digits_value(digits.drop_last()) * 10 + (digits.last() as nat - '0' as nat) as nat
    }
}

/// Whether all characters are decimal digits.
pub open spec fn all_digits(text: Seq<char>) -> bool {
    forall|i: int| 0 <= i < text.len() ==> is_digit(#[trigger] text[i])
}

/// The text behind a plus sign, if there is one.
pub open spec fn unsigned(text: Seq<char>) -> Seq<char> {
    if text.len() > 0 && text[0] == '+' {
        text.skip(1)
    } else {
        text
    }
}

/// The port number that a text denotes: one or more digits, with or without a plus sign in front,
/// and a value that fits.
pub open spec fn port_number(text: Seq<char>) -> Option<u16> {
    let digits = unsigned(text);
    if digits.len() > 0 && all_digits(digits) && digits_value(digits) <= u16::MAX {
        Some(digits_value(digits) as u16)
    } else {
        None
    }
}

/// Reads a port number in decimal notation.
pub fn parse_port(text: &Vec<char>, start: usize) -> (port: Option<u16>)
    requires
        start <= text@.len(),
    ensures
        port == port_number(text@.skip(start as int)),
{
    let ghost whole = text@.skip(start as int);
    let first: usize = if start < text.len() && text[start] == '+' {
        start + 1
    } else {
        start
    };
    let ghost digits = text@.skip(first as int);
    proof {
        if first > start {
            assert(whole[0] == '+');
            assert(digits =~= whole.skip(1));
        } else if start < text@.len() {
            assert(whole[0] == text@[start as int]);
        }
    }
    if first == text.len() {
        return None;
    }
    let mut value: u32 = 0;
    let mut i: usize = first;
    while i < text.len()
        invariant
            first <= i <= text@.len(),
            first < text@.len(),
            digits == text@.skip(first as int),
            digits == unsigned(text@.skip(start as int)),
            value <= u16::MAX,
            value == digits_value(digits.take(i - first)),
            all_digits(digits.take(i - first)),
        decreases text@.len() - i,
    {
        let c: char = text[i];
        proof {
            assert(digits[i - first] == c);
            assert(forall|k: int|
                0 <= k < i - first ==> digits.take(i - first + 1)[k] == #[trigger] digits.take(
                    i - first,
                )[k]);
            assert(digits.take(i - first + 1).drop_last() =~= digits.take(i - first));
            assert(digits.take(i - first + 1).last() == c);
        }
        if !('0' <= c && c <= '9') {
            return None;
        }
        value = value * 10 + (c as u32 - '0' as u32);
        i = i + 1;
        if value > u16::MAX as u32 {
            proof {
                lemma_value_grows(digits, i - first);
            }
            return None;
        }
    }
    proof {
        assert(digits.take(i - first) =~= digits);
    }
    Some(value as u16)
}

/// More digits never denote a smaller number.
proof fn lemma_value_grows(digits: Seq<char>, n: int)
    requires
        0 <= n <= digits.len(),
    ensures
        digits_value(digits.take(n)) <= digits_value(digits),
    decreases digits.len() - n,
{
    if n < digits.len() {
        lemma_value_grows(digits, n + 1);
        assert(digits.take(n + 1).drop_last() =~= digits.take(n));
    } else {
        assert(digits.take(n) =~= digits);
    }
}

/// Decimal notation can be read back.
pub proof fn law_decimal_reads_back(n: nat)
    ensures
        decimal(n).len() > 0,
        all_digits(decimal(n)),
        digits_value(decimal(n)) == n,
        n <= u16::MAX ==> port_number(decimal(n)) == Some(n as u16),
    decreases n,
{
    reveal_with_fuel(digits_value, 2);
    if n >= 10 {
        law_decimal_reads_back(n / 10);
        assert(decimal(n).drop_last() =~= decimal(n / 10));
    }
    assert(is_digit(decimal(n)[0]));
}

/// The text of a single digit.
fn digit_text(digit: u64) -> (text: &'static str)
    requires
        digit < 10,
    ensures
        text@ == seq![digit_char(digit as nat)],
{
    proof {
        reveal_strlit("0");
        reveal_strlit("1");
        reveal_strlit("2");
        reveal_strlit("3");
        reveal_strlit("4");
        reveal_strlit("5");
        reveal_strlit("6");
        reveal_strlit("7");
        reveal_strlit("8");
        reveal_strlit("9");
    }
    let text: &'static str = if digit == 0 {
        "0"
    } else if digit == 1 {
        "1"
    } else if digit == 2 {
        "2"
    } else if digit == 3 {
        "3"
    } else if digit == 4 {
        "4"
    } else if digit == 5 {
        "5"
    } else if digit == 6 {
        "6"
    } else if digit == 7 {
        "7"
    } else if digit == 8 {
        "8"
    } else {
        "9"
    };
    assert(text@ =~= seq![digit_char(digit as nat)]);
    text
}

/// Writes a number in decimal notation.
pub fn to_decimal(n: u64) -> (text: String)
    ensures
        text@ == decimal(n as nat),
    decreases n,
{
    if n < 10 {
        digit_text(n).to_owned()
    } else {
        let mut text: String = to_decimal(n / 10);
        text.append(digit_text(n % 10));
        assert(text@ =~= decimal(n as nat));
        text
    }
}

/// A text denotes a port number exactly if it is made up of digits, at least one, and their value
/// is one that a port can have. Then that value is the port number. A plus sign in front of the
/// digits makes no difference.
pub proof fn law_port_numbers_are_digits(digits: Seq<char>)
    ensures
        port_number(seq!['+'] + digits) is Some <==> digits.len() > 0 && digits_value(digits)
            <= 65535 && forall|i: int|
            0 <= i < digits.len() ==> '0' <= #[trigger] digits[i] <= '9',
        port_number(seq!['+'] + digits) matches Some(port) ==> port == digits_value(digits),
        digits.len() > 0 && digits[0] != '+' ==> port_number(digits) == port_number(
            seq!['+'] + digits,
        ),
        digits.len() == 0 ==> port_number(digits) is None,
{
    let signed = seq!['+'] + digits;
    assert(signed.skip(1) =~= digits);
    assert(unsigned(signed) == digits);
    if forall|i: int| 0 <= i < digits.len() ==> '0' <= #[trigger] digits[i] <= '9' {
        assert forall|i: int| 0 <= i < digits.len() implies is_digit(#[trigger] digits[i]) by {}
    }
    if all_digits(digits) {
        assert forall|i: int| 0 <= i < digits.len() implies '0' <= #[trigger] digits[i] <= '9' by {
            assert(is_digit(digits[i]));
        }
    }
}

/// A digit that is put behind others makes their value ten times as large, and adds its own. No
/// digits have no value, and zeros in front of others add nothing.
pub proof fn law_digits_add_up(digits: Seq<char>, digit: char)
    requires
        '0' <= digit <= '9',
    ensures
        digits_value(Seq::empty()) == 0,
        digits_value(digits.push(digit)) == 10 * digits_value(digits) + (digit as int - '0' as int),
        digits_value(seq!['0'] + digits) == digits_value(digits),
    decreases digits.len(),
{
    reveal_with_fuel(digits_value, 2);
    assert(digits.push(digit).drop_last() =~= digits);
    if digits.len() == 0 {
        assert((seq!['0'] + digits).drop_last() =~= Seq::empty());
    } else {
        law_digits_add_up(digits.drop_last(), digit);
        assert((seq!['0'] + digits).drop_last() =~= seq!['0'] + digits.drop_last());
    }
}

/// Decimal notation has no leading zeros: a number below ten has one digit, and any other number
/// starts with a digit that is not zero. The last digit of a number is its remainder by ten.
pub proof fn law_decimal_has_no_leading_zeros(n: nat)
    ensures
        decimal(n).len() == 1 <==> n < 10,
        n > 0 ==> decimal(n)[0] != '0',
        decimal(n).last() as int == '0' as int + n % 10,
        n >= 10 ==> decimal(n).drop_last() == decimal(n / 10),
    decreases n,
{
    if n >= 10 {
        law_decimal_has_no_leading_zeros(n / 10);
        law_decimal_reads_back(n / 10);
        assert(decimal(n).drop_last() =~= decimal(n / 10));
        assert(decimal(n)[0] == decimal(n / 10)[0]);
    }
}

} // verus!
