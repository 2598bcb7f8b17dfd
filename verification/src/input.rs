//! What the setup and aiming prompts take as they are typed, and what a
//! whole-number answer comes to.

use vstd::prelude::*;
use vstd::string::StringSliceAdditionalSpecFns;
use crate::play_ref::{
    digits_value, is_digit, lemma_digit_run_end_bounds, number_at, parse_number, NumberScan, NumberScanExec,
};

verus! {

/// An ASCII decimal digit.
pub open spec fn is_digit_char(c: char) -> bool {
    48 <= c as u32 <= 57
}

/// An ASCII letter or digit.
pub open spec fn is_alnum_char(c: char) -> bool {
    is_digit_char(c) || (65 <= c as u32 <= 90) || (97 <= c as u32 <= 122)
}

/// A number prompt takes a digit while the answer has fewer than
/// `max_digits` characters.
pub fn accept_integer_char(len: usize, ch: char, max_digits: usize) -> (r: bool)
    ensures
        r == (is_digit_char(ch) && len < max_digits),
{
    let code = ch as u32;
    48 <= code && code <= 57 && len < max_digits
}

/// A decimal prompt takes a digit, or a point when the answer has none yet,
/// while the answer is shorter than six bytes.
pub fn accept_decimal_char(value: &str, ch: char) -> (r: bool)
    ensures
        r == ((is_digit_char(ch) || (ch == '.' && !value.spec_bytes().contains(46u8))) && value.spec_bytes().len()
            < 6),
{
    let bytes = value.as_bytes();
    if bytes.len() >= 6 {
        return false;
    }
    let code = ch as u32;
    if 48 <= code && code <= 57 {
        return true;
    }
    if ch != '.' {
        return false;
    }
    let mut i: usize = 0;
    while i < bytes.len()
        invariant
            bytes@ == value.spec_bytes(),
            bytes@.len() < 6,
            ch == '.',
            i <= bytes@.len(),
            forall|k: int| 0 <= k < i ==> bytes@[k] != 46u8,
        decreases bytes@.len() - i,
    {
        if bytes[i] == 46 {
            assert(value.spec_bytes()[i as int] == 46u8);
            assert(value.spec_bytes().contains(46u8));
            return false;
        }
        i = i + 1;
    }
    true
}

/// A name prompt takes a letter, a digit, a space, a hyphen or an
/// underscore while the name has fewer than ten characters.
pub fn accept_name_char(count: usize, ch: char) -> (r: bool)
    ensures
        r == ((is_alnum_char(ch) || ch == ' ' || ch == '-' || ch == '_') && count < 10),
{
    let code = ch as u32;
    let alnum = (48 <= code && code <= 57) || (65 <= code && code <= 90) || (97 <= code && code <= 122);
    (alnum || ch == ' ' || ch == '-' || ch == '_') && count < 10
}

/// What a whole-number answer comes to: the default when nothing was typed;
/// otherwise the number written, after an optional `+`, when that is all the
/// answer holds and it lies from `min` to `max`; otherwise nothing, and the
/// prompt asks again.
pub open spec fn integer_entry_spec(bytes: Seq<u8>, default: u32, min: u32, max: u32) -> Option<u32> {
    if bytes.len() == 0 {
        Some(default)
    } else {
        let start = if bytes[0] == 43 {
            1int
        } else {
            0int
        };
        match number_at(bytes, start) {
            NumberScan::Value(v, end) => if end == bytes.len() && min <= v <= max {
                Some(v)
            } else {
                None
            },
            _ => None,
        }
    }
}

/// What a whole-number answer is taken as. An empty answer takes the
/// default. An answer made only of decimal digits, after an optional `+`,
/// is taken as the number `v` it writes when `min <= v <= max`, both bounds
/// included, and refused otherwise. An answer with any other character after
/// the optional `+`, or with no digit, is refused.
pub proof fn lemma_integer_entry_answers(bytes: Seq<u8>, default: u32, min: u32, max: u32)
    ensures
        bytes.len() == 0 ==> integer_entry_spec(bytes, default, min, max) == Some(default),
        ({
            let from = if bytes.len() > 0 && bytes[0] == 43 {
                1int
            } else {
                0int
            };
            let v = digits_value(bytes, from, bytes.len() as int);
            &&& (from < bytes.len() && forall|k: int| from <= k < bytes.len() ==> is_digit(#[trigger] bytes[k]))
                ==> integer_entry_spec(bytes, default, min, max) == (if min <= v <= max {
                Some(v as u32)
            } else {
                None
            })
            &&& (bytes.len() > 0 && (from == bytes.len() || exists|k: int|
                from <= k < bytes.len() && !is_digit(#[trigger] bytes[k])))
                ==> integer_entry_spec(bytes, default, min, max) is None
        }),
{
    if bytes.len() > 0 {
        let from = if bytes[0] == 43 {
            1int
        } else {
            0int
        };
        lemma_digit_run_end_bounds(bytes, from);
    }
}

/// Reads a whole-number answer to a prompt.
pub fn integer_entry(value: &str, default: u32, min: u32, max: u32) -> (r: Option<u32>)
    ensures
        r == integer_entry_spec(value.spec_bytes(), default, min, max),
{
    let bytes = value.as_bytes();
    if bytes.len() == 0 {
        return Some(default);
    }
    let start: usize = if bytes[0] == 43 {
        1
    } else {
        0
    };
    match parse_number(bytes, start) {
        NumberScanExec::Value(v, end) => {
            if end == bytes.len() && min <= v && v <= max {
                Some(v)
            } else {
                None
            }
        },
        _ => None,
    }
}

/// The answer to the last setup question: `V` (in either case) views the
/// introduction, `P` plays at once, and any other key is ignored.
pub fn setup_choice(ch: char) -> (r: Option<bool>)
    ensures
        r == (if ch == 'V' || ch == 'v' {
            Some(true)
        } else if ch == 'P' || ch == 'p' {
            Some(false)
        } else {
            None
        }),
{
    if ch == 'V' || ch == 'v' {
        Some(true)
    } else if ch == 'P' || ch == 'p' {
        Some(false)
    } else {
        None
    }
}

}
