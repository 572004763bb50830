//! Numbers as text: decimal and hexadecimal digits, written to the end of a
//! string; and the text of a string that may be missing.

use vstd::prelude::*;
use vstd::string::StringExecFns;

verus! {

/// The character of a decimal digit (0 to 9).
pub open spec fn digit_char(digit: int) -> char {
    (48 + digit) as char
}

/// The character of a hexadecimal digit (0 to 15), in lower case.
pub open spec fn hex_char(digit: int) -> char {
    if digit < 10 {
        (48 + digit) as char
    } else {
        (87 + digit) as char
    }
}

/// The decimal digits of a number, without leading zeros.
pub open spec fn decimal(n: nat) -> Seq<char>
    decreases n,
{
    if n < 10 {
        seq![digit_char(n as int)]
    } else {
        decimal(n / 10).push(digit_char((n % 10) as int))
    }
}

/// The two decimal digits of a number below 100, with a leading zero below 10.
pub open spec fn two_digits(n: nat) -> Seq<char> {
    seq![digit_char((n / 10) as int), digit_char((n % 10) as int)]
}

/// The decimal digits of a number, with leading zeros up to four digits.
pub open spec fn four_digits(n: nat) -> Seq<char> {
    if n < 10000 {
        two_digits(n / 100) + two_digits(n % 100)
    } else {
        decimal(n)
    }
}

/// The two hexadecimal digits of a byte, in lower case.
pub open spec fn hex_byte(byte: u8) -> Seq<char> {
    seq![hex_char((byte / 16) as int), hex_char((byte % 16) as int)]
}

/// The text of an optional string.
pub open spec fn optional_text(value: Option<String>) -> Option<Seq<char>> {
    match value {
        Some(text) => Some(text@),
        None => None,
    }
}

/// The text of one decimal digit.
fn digit_str(digit: u8) -> (text: &'static str)
    requires
        digit < 10,
    ensures
        text@ == seq![digit_char(digit as int)],
{
    proof {
        reveal_strlit("0");
        reveal_strlit("1");
        reveal_strlit("2");
        reveal_strlit("3");
        reveal_strlit("4");
        reveal_strlit("5");
        reveal_strlit("6");
        reveal_strlit("7");
        reveal_strlit("8");
        reveal_strlit("9");
    }
    let text = if digit == 0 {
        "0"
    } else if digit == 1 {
        "1"
    } else if digit == 2 {
        "2"
    } else if digit == 3 {
        "3"
    } else if digit == 4 {
        "4"
    } else if digit == 5 {
        "5"
    } else if digit == 6 {
        "6"
    } else if digit == 7 {
        "7"
    } else if digit == 8 {
        "8"
    } else {
        "9"
    };
    assert(text@ =~= seq![digit_char(digit as int)]);
    text
}

/// The text of one hexadecimal digit.
fn hex_str(digit: u8) -> (text: &'static str)
    requires
        digit < 16,
    ensures
        text@ == seq![hex_char(digit as int)],
{
    if digit < 10 {
        digit_str(digit)
    } else {
        proof {
            reveal_strlit("a");
            reveal_strlit("b");
            reveal_strlit("c");
            reveal_strlit("d");
            reveal_strlit("e");
            reveal_strlit("f");
        }
        let text = if digit == 10 {
            "a"
        } else if digit == 11 {
            "b"
        } else if digit == 12 {
            "c"
        } else if digit == 13 {
            "d"
        } else if digit == 14 {
            "e"
        } else {
            "f"
        };
        assert(text@ =~= seq![hex_char(digit as int)]);
        text
    }
}

/// Appends the decimal digits of `n`.
pub fn push_decimal(out: &mut String, n: u128)
    ensures
        final(out)@ == old(out)@ + decimal(n as nat),
    decreases n,
{
    if n >= 10 {
        push_decimal(out, n / 10);
    }
    out.append(digit_str((n % 10) as u8));
    assert(out@ =~= old(out)@ + decimal(n as nat));
}

/// Appends the two decimal digits of a number below 100.
pub fn push_two_digits(out: &mut String, n: u32)
    requires
        n < 100,
    ensures
        final(out)@ == old(out)@ + two_digits(n as nat),
{
    out.append(digit_str((n / 10) as u8));
    out.append(digit_str((n % 10) as u8));
    assert(out@ =~= old(out)@ + two_digits(n as nat));
}

/// Appends the decimal digits of `n`, with leading zeros up to four digits.
pub fn push_four_digits(out: &mut String, n: u32)
    ensures
        final(out)@ == old(out)@ + four_digits(n as nat),
{
    if n < 10000 {
        push_two_digits(out, n / 100);
        push_two_digits(out, n % 100);
        assert(out@ =~= old(out)@ + four_digits(n as nat));
    } else {
        push_decimal(out, n as u128);
    }
}

/// Appends the two hexadecimal digits of a byte, in lower case.
pub fn push_hex_byte(out: &mut String, byte: u8)
    ensures
        final(out)@ == old(out)@ + hex_byte(byte),
{
    out.append(hex_str(byte / 16));
    out.append(hex_str(byte % 16));
    assert(out@ =~= old(out)@ + hex_byte(byte));
}

/// The decimal digits of `n` as a string.
pub fn decimal_string(n: u128) -> (text: String)
    ensures
        text@ == decimal(n as nat),
{
    let mut text = String::new();
    push_decimal(&mut text, n);
    assert(text@ =~= decimal(n as nat));
    text
}

} // verus!
