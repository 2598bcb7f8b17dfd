//! Building message text: literal pieces, characters and decimal numbers.

use vstd::prelude::*;
use vstd::string::StringExecFns;

verus! {

/// The decimal digit `d` as a character.
pub open spec fn digit_char(d: nat) -> char {
    (48 + d) as char
}

/// The decimal digits of `n`, most significant first.
pub open spec fn decimal_chars(n: nat) -> Seq<char>
    decreases n,
{
    if n < 10 {
        seq![digit_char(n)]
    } else {
        decimal_chars(n / 10).push(digit_char(n % 10))
    }
}

/// `n` in decimal, with a leading `-` when it is negative.
pub open spec fn signed_decimal_chars(n: int) -> Seq<char> {
    if n < 0 {
        seq!['-'] + decimal_chars((-n) as nat)
    } else {
        decimal_chars(n as nat)
    }
}

/// The number that a run of decimal digit characters writes.
pub open spec fn digits_number(s: Seq<char>) -> int
    decreases s.len(),
{
    if s.len() == 0 {
        0
    } else {
        digits_number(s.drop_last()) * 10 + (s.last() as int - 48)
    }
}

/// The decimal writing of `n` is a run of the digit characters `0` to `9`
/// that reads back to `n`, with no leading zero except for `0` itself; a
/// negative number is written as `-` followed by the writing of its size.
pub proof fn lemma_decimal_chars_read_back(n: nat, m: int)
    ensures
        decimal_chars(n).len() >= 1,
        forall|k: int| 0 <= k < decimal_chars(n).len() ==> '0' <= #[trigger] decimal_chars(n)[k] <= '9',
        digits_number(decimal_chars(n)) == n,
        n > 0 ==> decimal_chars(n)[0] != '0',
        m < 0 ==> signed_decimal_chars(m) == seq!['-'] + decimal_chars((-m) as nat),
        m >= 0 ==> signed_decimal_chars(m) == decimal_chars(m as nat),
    decreases n,
{
    if n >= 10 {
        lemma_decimal_chars_read_back(n / 10, m);
        let d = decimal_chars(n / 10);
        let e = decimal_chars(n);
        assert(e == d.push(digit_char(n % 10)));
        assert(e.drop_last() =~= d);
        assert(n == (n / 10) * 10 + n % 10);
        assert(e[0] == d[0]);
        assert(e.last() as int == 48 + n % 10);
        assert(digits_number(e) == digits_number(d) * 10 + (n % 10));
        assert(digits_number(e) == n);
    } else {
        let e = decimal_chars(n);
        assert(e.drop_last() =~= Seq::<char>::empty());
        assert(e.last() as int == 48 + n);
        assert(digits_number(e.drop_last()) == 0);
        assert(digits_number(e) == n);
    }
}

/// The single-character strings of the ten digits.
const DIGITS: [&'static str; 10] = ["0", "1", "2", "3", "4", "5", "6", "7", "8", "9"];

proof fn lemma_digits()
    ensures
        forall|d: int| 0 <= d < 10 ==> (#[trigger] DIGITS@[d])@ == seq![digit_char(d as nat)],
{
    reveal_strlit("0");
    reveal_strlit("1");
    reveal_strlit("2");
    reveal_strlit("3");
    reveal_strlit("4");
    reveal_strlit("5");
    reveal_strlit("6");
    reveal_strlit("7");
    reveal_strlit("8");
    reveal_strlit("9");
    assert forall|d: int| 0 <= d < 10 implies (#[trigger] DIGITS@[d])@ == seq![digit_char(d as nat)] by {
        if d == 0 {
            assert(DIGITS@[0]@ =~= seq![digit_char(0)]);
        } else if d == 1 {
            assert(DIGITS@[1]@ =~= seq![digit_char(1)]);
        } else if d == 2 {
            assert(DIGITS@[2]@ =~= seq![digit_char(2)]);
        } else if d == 3 {
            assert(DIGITS@[3]@ =~= seq![digit_char(3)]);
        } else if d == 4 {
            assert(DIGITS@[4]@ =~= seq![digit_char(4)]);
        } else if d == 5 {
            assert(DIGITS@[5]@ =~= seq![digit_char(5)]);
        } else if d == 6 {
            assert(DIGITS@[6]@ =~= seq![digit_char(6)]);
        } else if d == 7 {
            assert(DIGITS@[7]@ =~= seq![digit_char(7)]);
        } else if d == 8 {
            assert(DIGITS@[8]@ =~= seq![digit_char(8)]);
        } else {
            assert(DIGITS@[9]@ =~= seq![digit_char(9)]);
        }
    }
}

/// Appends the decimal digits of `n`.
pub fn push_decimal(text: &mut String, n: u64)
    ensures
        final(text)@ == old(text)@ + decimal_chars(n as nat),
    decreases n,
{
    if n >= 10 {
        push_decimal(text, n / 10);
    }
    let digit = (n % 10) as usize;
    proof {
        lemma_digits();
    }
    text.append(DIGITS[digit]);
    proof {
        assert(final(text)@ =~= old(text)@ + decimal_chars(n as nat));
    }
}

/// Appends `n` in decimal, with a leading `-` when it is negative.
pub fn push_signed_decimal(text: &mut String, n: i64)
    ensures
        final(text)@ == old(text)@ + signed_decimal_chars(n as int),
{
    if n < 0 {
        proof {
            reveal_strlit("-");
        }
        text.append("-");
        let magnitude: u64 = if n == i64::MIN {
            0x8000_0000_0000_0000
        } else {
            (-n) as u64
        };
        push_decimal(text, magnitude);
        proof {
            assert(final(text)@ =~= old(text)@ + signed_decimal_chars(n as int));
        }
    } else {
        push_decimal(text, n as u64);
    }
}

/// `char::to_string`: the string holding just the character `c`, which is
/// what a character's `Display` writes.
#[verifier::external_body]
fn char_string(c: char) -> (r: String)
    ensures
        r@ == seq![c],
{
    c.to_string()
}

/// Appends the character `c`.
pub fn push_char(text: &mut String, c: char)
    ensures
        final(text)@ == old(text)@ + seq![c],
{
    let piece = char_string(c);
    text.append(piece.as_str());
}

}
