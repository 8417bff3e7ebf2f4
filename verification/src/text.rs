//! The texts that numbers, messages and generated names are made of.
use vstd::prelude::*;

verus! {

/// The decimal digit of a number below ten.
pub open spec fn digit(d: int) -> char {
    (48 + d) as char
}

/// Whether a character is a decimal digit.
pub open spec fn is_digit(c: char) -> bool {
    '0' <= c <= '9'
}

/// The decimal digits of a number, without leading zeros.
pub open spec fn digits(n: nat) -> Seq<char>
    decreases n,
{
    if n < 10 {
        seq![digit(n as int)]
    } else {
        digits(n / 10).push(digit((n % 10) as int))
    }
}

/// The decimal text of a number.
pub open spec fn decimal(n: int) -> Seq<char> {
    if n < 0 {
        seq!['-'] + digits((-n) as nat)
    } else {
        digits(n as nat)
    }
}

/// The number that a text of digits stands for.
pub open spec fn digits_value(text: Seq<char>) -> int
    decreases text.len(),
{
    if text.len() == 0 {
        0
    } else {
        digits_value(text.drop_last()) * 10 + (text.last() as int - 48)
    }
}

/// Whether a text is made of digits, one at least.
pub open spec fn is_digits(text: Seq<char>) -> bool {
    text.len() > 0 && forall|i: int| 0 <= i < text.len() ==> is_digit(#[trigger] text[i])
}

/// The number that a text stands for: digits, with a plus or minus sign before them or none.
pub open spec fn number_in(text: Seq<char>) -> Option<int> {
    if text.len() > 0 && (text[0] == '-' || text[0] == '+') {
        let rest = text.drop_first();
        if !is_digits(rest) {
            None
        } else if text[0] == '-' {
            Some(-digits_value(rest))
        } else {
            Some(digits_value(rest))
        }
    } else if is_digits(text) {
        Some(digits_value(text))
    } else {
        None
    }
}

/// The 64-bit number that a text stands for.
pub open spec fn i64_in(text: Seq<char>) -> Option<int> {
    match number_in(text) {
        Some(n) => if i64::MIN <= n <= i64::MAX {
            Some(n)
        } else {
            None
        },
        None => None,
    }
}

/// Whether a character is a lower-case hexadecimal digit.
pub open spec fn is_hex(c: char) -> bool {
    is_digit(c) || 'a' <= c <= 'f'
}

/// Whether a text is a random UUID in its hyphenated lower-case form.
pub open spec fn is_random_uuid(text: Seq<char>) -> bool {
    &&& text.len() == 36
    &&& forall|i: int|
        0 <= i < 36 ==> if i == 8 || i == 13 || i == 18 || i == 23 {
            #[trigger] text[i] == '-'
        } else {
            is_hex(text[i])
        }
    &&& text[14] == '4'
    &&& text[19] == '8' || text[19] == '9' || text[19] == 'a' || text[19] == 'b'
}

} // verus!
