//! Reading decimal numbers as the standard library reads them: an optional
//! sign, then digits and nothing else.

use std::str::Chars;
use vstd::prelude::*;
use vstd::std_specs::iter::IteratorSpec;

verus! {

/// The number that a sequence of decimal digits spells.
pub open spec fn decimal_value(digits: Seq<char>) -> nat
    decreases digits.len(),
{
    if digits.len() == 0 {
        0
    } else {
        (decimal_value(digits.drop_last()) * 10 + (digits.last() as int - '0' as int)) as nat
    }
}

/// Whether every character is a decimal digit.
pub open spec fn all_digits(text: Seq<char>) -> bool {
    forall|i: int| 0 <= i < text.len() ==> '0' <= #[trigger] text[i] <= '9'
}

/// The number that a text of digits spells: decimal digits, at least one,
/// and a value that fits in 64 bits. Anything else spells none.
pub open spec fn digits_value(digits: Seq<char>) -> Option<u64> {
    if digits.len() > 0 && all_digits(digits) && decimal_value(digits) <= u64::MAX {
        Some(decimal_value(digits) as u64)
    } else {
        None
    }
}

/// The text without a plus sign in front.
pub open spec fn unsigned_part(text: Seq<char>) -> Seq<char> {
    if text.len() > 0 && text[0] == '+' {
        text.skip(1)
    } else {
        text
    }
}

/// The number of 64 bits that a text spells: digits after at most one plus
/// sign.
pub open spec fn parsed_u64(text: Seq<char>) -> Option<u64> {
    digits_value(unsigned_part(text))
}

/// The number of 32 bits that a text spells: digits after at most one plus
/// sign.
pub open spec fn parsed_u32(text: Seq<char>) -> Option<u32> {
    match parsed_u64(text) {
        Some(value) => if value <= u32::MAX {
            Some(value as u32)
        } else {
            None
        },
        None => None,
    }
}

/// The signed number of 32 bits that a text spells: digits after at most
/// one sign, plus or minus.
pub open spec fn parsed_i32(text: Seq<char>) -> Option<i32> {
    if text.len() > 0 && text[0] == '-' {
        match digits_value(text.skip(1)) {
            Some(value) => if value <= 2147483648 {
                Some((-(value as int)) as i32)
            } else {
                None
            },
            None => None,
        }
    } else {
        match parsed_u64(text) {
            Some(value) => if value <= i32::MAX {
                Some(value as i32)
            } else {
                None
            },
            None => None,
        }
    }
}

/// A longer sequence of digits spells no smaller number than its front.
pub proof fn lemma_decimal_value_grows(digits: Seq<char>, front: int)
    requires
        0 <= front <= digits.len(),
    ensures
        all_digits(digits) ==> decimal_value(digits.take(front)) <= decimal_value(digits),
    decreases digits.len() - front,
{
    if front < digits.len() {
        lemma_decimal_value_grows(digits, front + 1);
        let longer = digits.take(front + 1);
        assert(longer.drop_last() =~= digits.take(front));
        assert(longer.last() == digits[front]);
    } else {
        assert(digits.take(front) =~= digits);
    }
}

fn parse_digits(given: Chars<'_>) -> (number: Option<u64>)
    requires
        given.obeys_prophetic_iter_laws(),
        given.decrease() is Some,
    ensures
        number == digits_value(given.remaining()),
{
    broadcast use vstd::string::group_string_axioms;

    let ghost digits = given.remaining();
    let mut symbols = given;
    let mut value: u64 = 0;
    let mut any: bool = false;
    let ghost mut read: int = 0;
    loop
        invariant
            symbols.obeys_prophetic_iter_laws(),
            symbols.decrease() is Some,
            digits == given.remaining(),
            0 <= read <= digits.len(),
            any <==> read > 0,
            symbols.remaining() == digits.skip(read),
            all_digits(digits.take(read)),
            value == decimal_value(digits.take(read)),
        decreases symbols.decrease()->0,
    {
        let symbol = match symbols.next() {
            Some(symbol) => symbol,
            None => {
                proof {
                    assert(digits.skip(read).len() == 0);
                    assert(digits.take(read) =~= digits);
                }
                return if any {
                    Some(value)
                } else {
                    None
                };
            },
        };
        let ghost front = digits.take(read);
        let ghost longer = digits.take(read + 1);
        proof {
            assert(digits.skip(read)[0] == digits[read]);
            assert(digits.skip(read).drop_first() =~= digits.skip(read + 1));
            assert(longer.drop_last() =~= front);
            assert(longer.last() == symbol);
        }
        if symbol < '0' || symbol > '9' {
            return None;
        }
        let digit: u64 = (symbol as u32 - '0' as u32) as u64;
        proof {
            assert forall|i: int| 0 <= i < longer.len() implies '0' <= #[trigger] longer[i]
                <= '9' by {
                if i < front.len() {
                    assert(longer[i] == front[i]);
                }
            }
        }
        if value > (u64::MAX - digit) / 10 {
            proof {
                assert(decimal_value(longer) == value * 10 + digit);
                assert(decimal_value(longer) > u64::MAX);
                lemma_decimal_value_grows(digits, read + 1);
            }
            return None;
        }
        value = value * 10 + digit;
        any = true;
        proof {
            read = read + 1;
        }
    }
}

/// Reads a number of 64 bits as `u64::from_str` does.
pub fn parse_u64(text: &str) -> (number: Option<u64>)
    ensures
        number == parsed_u64(text@),
{
    broadcast use vstd::string::group_string_axioms;

    let mut symbols = text.chars();
    match symbols.next() {
        Some('+') => {
            assert(unsigned_part(text@) =~= symbols.remaining());
            parse_digits(symbols)
        },
        _ => parse_digits(text.chars()),
    }
}

/// Reads a number of 32 bits as `u32::from_str` does.
pub fn parse_u32(text: &str) -> (number: Option<u32>)
    ensures
        number == parsed_u32(text@),
{
    match parse_u64(text) {
        Some(value) => {
            if value <= 4294967295 {
                Some(value as u32)
            } else {
                None
            }
        },
        None => None,
    }
}

/// Reads a signed number of 32 bits as `i32::from_str` does.
pub fn parse_i32(text: &str) -> (number: Option<i32>)
    ensures
        number == parsed_i32(text@),
{
    broadcast use vstd::string::group_string_axioms;

    let mut symbols = text.chars();
    match symbols.next() {
        Some('-') => {
            assert(text@.skip(1) =~= symbols.remaining());
            match parse_digits(symbols) {
                Some(value) => {
                    if value <= 2147483647 {
                        Some(-(value as i32))
                    } else if value == 2147483648 {
                        Some(-2147483648)
                    } else {
                        None
                    }
                },
                None => None,
            }
        },
        _ => match parse_u64(text) {
            Some(value) => {
                if value <= 2147483647 {
                    Some(value as i32)
                } else {
                    None
                }
            },
            None => None,
        },
    }
}

} // verus!
