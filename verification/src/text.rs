//! Small text routines: case-blind matching, splitting, decimal numbers.

use vstd::prelude::*;

verus! {

/// `c` in lower case if it is an ASCII capital, unchanged otherwise.
pub open spec fn lower_char(c: char) -> char {
    if 'A' <= c && c <= 'Z' {
        ((c as u8) + 32) as char
    } else {
        c
    }
}

/// `s` with every ASCII capital in lower case.
pub open spec fn lowered(s: Seq<char>) -> Seq<char> {
    Seq::new(s.len(), |i: int| lower_char(s[i]))
}

/// Puts an ASCII capital in lower case and leaves any other character.
pub fn to_lower_char(c: char) -> (l: char)
    ensures
        l == lower_char(c),
{
    if 'A' <= c && c <= 'Z' {
        ((c as u8) + 32) as char
    } else {
        c
    }
}

/// The characters of `text`, one by one.
pub fn chars_of(text: &str) -> (chars: Vec<char>)
    ensures
        chars@ == text@,
{
    let mut chars: Vec<char> = Vec::new();
    for c in it: text.chars()
        invariant
            chars@ =~= it.seq().take(it.index() as int),
            it.seq() == text@,
    {
        chars.push(c);
    }
    assert(chars@ =~= text@);
    chars
}

/// Whether `chars`, with the ASCII capitals in lower case, read `name`.
pub fn chars_match_ignoring_case(chars: &Vec<char>, name: &str) -> (same: bool)
    ensures
        same == (lowered(chars@) == name@),
{
    let wanted = chars_of(name);
    if chars.len() != wanted.len() {
        return false;
    }
    let mut i: usize = 0;
    while i < chars.len()
        invariant
            0 <= i <= chars.len(),
            chars.len() == wanted.len(),
            wanted@ == name@,
            forall|k: int| 0 <= k < i ==> lower_char(#[trigger] chars@[k]) == name@[k],
        decreases chars.len() - i,
    {
        if to_lower_char(chars[i]) != wanted[i] {
            assert(lowered(chars@)[i as int] != name@[i as int]);
            return false;
        }
        i += 1;
    }
    assert(lowered(chars@) =~= name@);
    true
}

/// Whether `text`, with its ASCII capitals in lower case, reads `name`.
pub fn matches_ignoring_case(text: &str, name: &str) -> (same: bool)
    ensures
        same == (lowered(text@) == name@),
{
    let chars = chars_of(text);
    chars_match_ignoring_case(&chars, name)
}

/// Finds the first position of `sep` in `text`.
pub fn find_char(text: &str, sep: char) -> (at: Option<usize>)
    ensures
        match at {
            Some(i) => i < text@.len() && text@[i as int] == sep && forall|k: int|
                0 <= k < i ==> text@[k] != sep,
            None => forall|k: int| 0 <= k < text@.len() ==> text@[k] != sep,
        },
{
    let chars = chars_of(text);
    let mut i: usize = 0;
    while i < chars.len()
        invariant
            0 <= i <= chars.len(),
            chars@ == text@,
            forall|k: int| 0 <= k < i ==> text@[k] != sep,
        decreases chars.len() - i,
    {
        if chars[i] == sep {
            return Some(i);
        }
        i += 1;
    }
    None
}

/// The part of `s` before the first `sep`, and the part after it; `None`
/// where `sep` does not occur.
pub open spec fn split_first(s: Seq<char>, sep: char) -> Option<(Seq<char>, Seq<char>)> {
    if exists|i: int| 0 <= i < s.len() && s[i] == sep {
        let i = choose|i: int|
            0 <= i < s.len() && s[i] == sep && forall|k: int| 0 <= k < i ==> s[k] != sep;
        Some((s.subrange(0, i), s.subrange(i + 1, s.len() as int)))
    } else {
        None
    }
}

/// The first occurrence of `sep` is the only position that holds `sep`
/// with none before it.
pub proof fn lemma_first_occurrence(s: Seq<char>, sep: char, i: int)
    requires
        0 <= i < s.len(),
        s[i] == sep,
        forall|k: int| 0 <= k < i ==> s[k] != sep,
    ensures
        split_first(s, sep) == Some((s.subrange(0, i), s.subrange(i + 1, s.len() as int))),
{
    let j = choose|j: int|
        0 <= j < s.len() && s[j] == sep && forall|k: int| 0 <= k < j ==> s[k] != sep;
    assert(0 <= j < s.len() && s[j] == sep && forall|k: int| 0 <= k < j ==> s[k] != sep);
    if j < i {
        assert(s[j] != sep);
    }
    if i < j {
        assert(s[i] != sep);
    }
}

/// Splits `text` at the first `sep`.
pub fn split_at_first(text: &str, sep: char) -> (parts: Option<(String, String)>)
    ensures
        match parts {
            Some((before, after)) => split_first(text@, sep) == Some((before@, after@)),
            None => split_first(text@, sep) is None,
        },
{
    match find_char(text, sep) {
        Some(i) => {
            let n = text.unicode_len();
            let before = text.substring_char(0, i).to_owned();
            let after = text.substring_char(i + 1, n).to_owned();
            proof {
                lemma_first_occurrence(text@, sep, i as int);
            }
            Some((before, after))
        },
        None => None,
    }
}

/// Whether `c` is a decimal digit.
pub open spec fn is_digit(c: char) -> bool {
    '0' <= c && c <= '9'
}

/// Whether `s` holds decimal digits only.
pub open spec fn all_digits(s: Seq<char>) -> bool {
    forall|i: int| 0 <= i < s.len() ==> is_digit(#[trigger] s[i])
}

/// The number that the digits of `s` write in base ten.
pub open spec fn decimal_value(s: Seq<char>) -> int
    decreases s.len(),
{
    if s.len() == 0 {
        0
    } else {
        10 * decimal_value(s.drop_last()) + (s.last() as int - '0' as int)
    }
}

/// Whether `text` opens with a sign that the number type takes: a plus,
/// or for a signed type a minus.
pub open spec fn has_sign(text: Seq<char>, signed: bool) -> bool {
    text.len() > 0 && (text[0] == '+' || (signed && text[0] == '-'))
}

/// The integer that `text` writes, as the integer types of the standard
/// library read it: an optional sign, then one or more decimal digits and
/// nothing else, for a value within `min..=max`.
pub open spec fn parsed_integer(text: Seq<char>, signed: bool, min: int, max: int) -> Option<int> {
    let digits = if has_sign(text, signed) {
        text.subrange(1, text.len() as int)
    } else {
        text
    };
    let magnitude = decimal_value(digits);
    let value = if has_sign(text, signed) && text[0] == '-' {
        -magnitude
    } else {
        magnitude
    };
    if digits.len() > 0 && all_digits(digits) && min <= value <= max {
        Some(value)
    } else {
        None
    }
}

/// The widest magnitude that [`parse_integer`] is asked for.
pub const MAX_MAGNITUDE: i128 = 0x1_0000_0000_0000_0000;

/// Reads a decimal integer within `min..=max` from `text`.
pub fn parse_integer(text: &str, signed: bool, min: i128, max: i128) -> (value: Option<i128>)
    requires
        -MAX_MAGNITUDE <= min <= 0 <= max <= MAX_MAGNITUDE,
    ensures
        match value {
            Some(v) => parsed_integer(text@, signed, min as int, max as int) == Some(v as int),
            None => parsed_integer(text@, signed, min as int, max as int) is None,
        },
{
    let chars = chars_of(text);
    let n = chars.len();
    if n == 0 {
        return None;
    }
    let first = chars[0];
    let signed_text = first == '+' || (signed && first == '-');
    let negative = signed_text && first == '-';
    let start: usize = if signed_text {
        1
    } else {
        0
    };
    if start == n {
        return None;
    }
    let ghost digits = text@.subrange(start as int, n as int);
    assert(digits.len() > 0);
    assert(text@.subrange(0, n as int) =~= text@);
    let mut acc: i128 = 0;
    let mut too_large = false;
    let mut i: usize = start;
    while i < n
        invariant
            start <= i <= n,
            n == text@.len(),
            chars@ == text@,
            signed_text == has_sign(text@, signed),
            start == if signed_text { 1usize } else { 0usize },
            digits == text@.subrange(start as int, n as int),
            digits == if has_sign(text@, signed) {
                text@.subrange(1, text@.len() as int)
            } else {
                text@
            },
            all_digits(digits.take(i - start)),
            !too_large ==> acc == decimal_value(digits.take(i - start)),
            !too_large ==> 0 <= acc <= MAX_MAGNITUDE,
            too_large ==> decimal_value(digits.take(i - start)) > MAX_MAGNITUDE,
        decreases n - i,
    {
        let c = chars[i];
        let ghost shorter = digits.take(i - start);
        let ghost longer = digits.take(i - start + 1);
        proof {
            assert(longer.drop_last() =~= shorter);
            assert(longer.last() == c);
            assert(decimal_value(longer) == 10 * decimal_value(shorter) + (c as int - '0' as int));
        }
        if !('0' <= c && c <= '9') {
            assert(!is_digit(digits[i - start]));
            return None;
        }
        assert forall|k: int| 0 <= k < longer.len() implies is_digit(#[trigger] longer[k]) by {
            if k < shorter.len() {
                assert(longer[k] == shorter[k]);
            }
        }
        if !too_large {
            let d: i128 = (c as u8 - 48) as i128;
            acc = acc * 10 + d;
            if acc > MAX_MAGNITUDE {
                too_large = true;
            }
        }
        i += 1;
    }
    assert(digits.take(n - start) =~= digits);
    if too_large {
        return None;
    }
    let value = if negative {
        -acc
    } else {
        acc
    };
    if min <= value && value <= max {
        Some(value)
    } else {
        None
    }
}

/// Splits `chars` at the first `sep`.
pub fn split_chars(chars: &Vec<char>, sep: char) -> (parts: Option<(Vec<char>, Vec<char>)>)
    ensures
        match parts {
            Some((before, after)) => split_first(chars@, sep) == Some((before@, after@)),
            None => split_first(chars@, sep) is None,
        },
{
    let mut before: Vec<char> = Vec::new();
    let mut i: usize = 0;
    while i < chars.len() && chars[i] != sep
        invariant
            0 <= i <= chars.len(),
            before@ =~= chars@.subrange(0, i as int),
            forall|k: int| 0 <= k < i ==> chars@[k] != sep,
        decreases chars.len() - i,
    {
        before.push(chars[i]);
        i += 1;
    }
    if i == chars.len() {
        return None;
    }
    let mut after: Vec<char> = Vec::new();
    let mut j: usize = i + 1;
    while j < chars.len()
        invariant
            i < j <= chars.len(),
            after@ =~= chars@.subrange(i + 1, j as int),
        decreases chars.len() - j,
    {
        after.push(chars[j]);
        j += 1;
    }
    proof {
        lemma_first_occurrence(chars@, sep, i as int);
    }
    Some((before, after))
}

/// `s` without a leading plus or minus sign.
pub open spec fn unsigned_part(s: Seq<char>) -> Seq<char> {
    if s.len() > 0 && (s[0] == '+' || s[0] == '-') {
        s.subrange(1, s.len() as int)
    } else {
        s
    }
}

/// Whether `s` writes the digits of a decimal number: digits with at most
/// one point among them, and at least one digit.
pub open spec fn is_mantissa(s: Seq<char>) -> bool {
    match split_first(s, '.') {
        Some((whole, fraction)) => all_digits(whole) && all_digits(fraction) && whole.len()
            + fraction.len() > 0,
        None => s.len() > 0 && all_digits(s),
    }
}

/// Whether `s` writes an exponent: an optional sign and at least one
/// digit.
pub open spec fn is_exponent(s: Seq<char>) -> bool {
    unsigned_part(s).len() > 0 && all_digits(unsigned_part(s))
}

/// Whether `text` writes a floating-point number, as the floating-point
/// types of the standard library read it: an optional sign, then `inf`,
/// `infinity` or `nan` in any mix of capitals, or a decimal number with an
/// optional exponent after `e` or `E`.
pub open spec fn is_float_text(text: Seq<char>) -> bool {
    let body = lowered(unsigned_part(text));
    body == "inf"@ || body == "infinity"@ || body == "nan"@ || match split_first(body, 'e') {
        Some((mantissa, exponent)) => is_mantissa(mantissa) && is_exponent(exponent),
        None => is_mantissa(body),
    }
}

/// Whether `chars` are decimal digits only.
pub fn digits_only(chars: &Vec<char>) -> (yes: bool)
    ensures
        yes == all_digits(chars@),
{
    let mut i: usize = 0;
    while i < chars.len()
        invariant
            0 <= i <= chars.len(),
            forall|k: int| 0 <= k < i ==> is_digit(#[trigger] chars@[k]),
        decreases chars.len() - i,
    {
        let c = chars[i];
        if !('0' <= c && c <= '9') {
            assert(!is_digit(chars@[i as int]));
            return false;
        }
        i += 1;
    }
    true
}

/// `chars` without a leading sign, and with ASCII capitals in lower case
/// when `lower` is set.
pub fn strip_sign(chars: &Vec<char>, lower: bool) -> (rest: Vec<char>)
    ensures
        rest@ == if lower {
            lowered(unsigned_part(chars@))
        } else {
            unsigned_part(chars@)
        },
{
    let start: usize = if chars.len() > 0 && (chars[0] == '+' || chars[0] == '-') {
        1
    } else {
        0
    };
    let ghost body = unsigned_part(chars@);
    assert(body =~= chars@.subrange(start as int, chars.len() as int));
    let mut rest: Vec<char> = Vec::new();
    let mut i: usize = start;
    while i < chars.len()
        invariant
            start <= i <= chars.len(),
            body == chars@.subrange(start as int, chars.len() as int),
            rest.len() == i - start,
            forall|k: int|
                0 <= k < rest.len() ==> #[trigger] rest@[k] == if lower {
                    lower_char(body[k])
                } else {
                    body[k]
                },
        decreases chars.len() - i,
    {
        let c = if lower {
            to_lower_char(chars[i])
        } else {
            chars[i]
        };
        rest.push(c);
        i += 1;
    }
    assert(rest@ =~= if lower {
        lowered(body)
    } else {
        body
    });
    rest
}

/// Checks that `chars` write the digits of a decimal number.
pub fn check_mantissa(chars: &Vec<char>) -> (yes: bool)
    ensures
        yes == is_mantissa(chars@),
{
    match split_chars(chars, '.') {
        Some((whole, fraction)) => digits_only(&whole) && digits_only(&fraction) && (whole.len()
            > 0 || fraction.len() > 0),
        None => chars.len() > 0 && digits_only(chars),
    }
}

/// Checks that `text` writes a floating-point number, without reading its
/// value.
pub fn check_float_text(text: &str) -> (yes: bool)
    ensures
        yes == is_float_text(text@),
{
    let chars = chars_of(text);
    let body = strip_sign(&chars, true);
    if chars_match_plain(&body, "inf") || chars_match_plain(&body, "infinity") || chars_match_plain(
        &body,
        "nan",
    ) {
        return true;
    }
    match split_chars(&body, 'e') {
        Some((mantissa, exponent)) => {
            let digits = strip_sign(&exponent, false);
            check_mantissa(&mantissa) && digits.len() > 0 && digits_only(&digits)
        },
        None => check_mantissa(&body),
    }
}

/// Whether `chars` read `name`, character for character.
pub fn chars_match_plain(chars: &Vec<char>, name: &str) -> (same: bool)
    ensures
        same == (chars@ == name@),
{
    let wanted = chars_of(name);
    if chars.len() != wanted.len() {
        return false;
    }
    let mut i: usize = 0;
    while i < chars.len()
        invariant
            0 <= i <= chars.len(),
            chars.len() == wanted.len(),
            wanted@ == name@,
            forall|k: int| 0 <= k < i ==> #[trigger] chars@[k] == name@[k],
        decreases chars.len() - i,
    {
        if chars[i] != wanted[i] {
            return false;
        }
        i += 1;
    }
    assert(chars@ =~= name@);
    true
}

} // verus!
