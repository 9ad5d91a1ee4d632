//! Numbers written for people.

use vstd::prelude::*;

verus! {

/// The character that writes a digit.
pub open spec fn digit_char(d: nat) -> char {
    if d == 0 {
        '0'
    } else if d == 1 {
        '1'
    } else if d == 2 {
        '2'
    } else if d == 3 {
        '3'
    } else if d == 4 {
        '4'
    } else if d == 5 {
        '5'
    } else if d == 6 {
        '6'
    } else if d == 7 {
        '7'
    } else if d == 8 {
        '8'
    } else {
        '9'
    }
}

/// The digits that write `n` in base ten, without leading zeros.
pub open spec fn decimal_digits(n: nat) -> Seq<char>
    decreases n,
{
    if n < 10 {
        seq![digit_char(n)]
    } else {
        decimal_digits(n / 10).push(digit_char(n % 10))
    }
}

/// The three digits that write a number below a thousand, zeros included.
pub open spec fn three_digits(m: nat) -> Seq<char> {
    seq![digit_char(m / 100), digit_char((m / 10) % 10), digit_char(m % 10)]
}

/// `n` written in base ten with a comma before every group of three
/// digits, counted from the right.
pub open spec fn with_commas(n: nat) -> Seq<char>
    decreases n,
{
    if n < 1000 {
        decimal_digits(n)
    } else {
        with_commas(n / 1000) + seq![','] + three_digits(n % 1000)
    }
}

/// The text of one digit.
fn digit_text(d: u64) -> (text: &'static str)
    requires
        d < 10,
    ensures
        text@ == seq![digit_char(d as nat)],
{
    proof {
        reveal_strlit("0");
        reveal_strlit("1");
        reveal_strlit("2");
        reveal_strlit("3");
        reveal_strlit("4");
        reveal_strlit("5");
        reveal_strlit("6");
        reveal_strlit("7");
        reveal_strlit("8");
        reveal_strlit("9");
    }
    let text = if d == 0 {
        "0"
    } else if d == 1 {
        "1"
    } else if d == 2 {
        "2"
    } else if d == 3 {
        "3"
    } else if d == 4 {
        "4"
    } else if d == 5 {
        "5"
    } else if d == 6 {
        "6"
    } else if d == 7 {
        "7"
    } else if d == 8 {
        "8"
    } else {
        "9"
    };
    assert(text@ =~= seq![digit_char(d as nat)]);
    text
}

/// Formats a number with commas: `1234567` becomes `1,234,567`.
pub fn format_with_commas(number: u64) -> (text: String)
    ensures
        text@ == with_commas(number as nat),
    decreases number,
{
    if number < 1000 {
        let mut text = String::new();
        if number >= 100 {
            text.append(digit_text(number / 100));
        }
        if number >= 10 {
            text.append(digit_text((number / 10) % 10));
        }
        text.append(digit_text(number % 10));
        proof {
            let n = number as nat;
            if n >= 100 {
                assert(decimal_digits(n / 100) == seq![digit_char(n / 100)]);
                assert(decimal_digits(n / 10) == decimal_digits(n / 100).push(
                    digit_char((n / 10) % 10),
                ));
            } else if n >= 10 {
                assert(decimal_digits(n / 10) == seq![digit_char(n / 10)]);
            }
            assert(text@ =~= decimal_digits(n));
        }
        text
    } else {
        let mut text = format_with_commas(number / 1000);
        let rest = number % 1000;
        proof {
            reveal_strlit(",");
            assert(","@ =~= seq![',']);
        }
        text.append(",");
        text.append(digit_text(rest / 100));
        text.append(digit_text((rest / 10) % 10));
        text.append(digit_text(rest % 10));
        assert(text@ =~= with_commas((number / 1000) as nat) + seq![','] + three_digits(
            rest as nat,
        ));
        text
    }
}

} // verus!
