//! Unsigned integers in decimal notation.

use vstd::prelude::*;

use crate::text::{chars_of, string_of};

verus! {

/// The character of the digit `d`.
pub open spec fn digit_char(d: nat) -> char {
    ('0' as int + d) as char
}

/// `n` in decimal notation, without leading zeros.
pub open spec fn decimal(n: nat) -> Seq<char>
    decreases n,
{
    if n < 10 {
        seq![digit_char(n)]
    } else {
        decimal(n / 10).push(digit_char(n % 10))
    }
}

pub open spec fn is_digit(c: char) -> bool {
    '0' <= c <= '9'
}

pub open spec fn all_digits(s: Seq<char>) -> bool {
    forall|i: int| 0 <= i < s.len() ==> is_digit(#[trigger] s[i])
}

/// The number that a sequence of digits denotes.
pub open spec fn digits_value(s: Seq<char>) -> nat
    decreases s.len(),
{
    if s.len() == 0 {
        0
    } else {
        (digits_value(s.drop_last()) * 10 + (s.last() as int - '0' as int)) as nat
    }
}

/// What `s` denotes as a `u64`: an optional `+` and then one or more digits
/// whose value fits.
pub open spec fn parsed_u64(s: Seq<char>) -> Option<u64> {
    let digits = if s.len() > 0 && s[0] == '+' {
        s.skip(1)
    } else {
        s
    };
    if digits.len() > 0 && all_digits(digits) && digits_value(digits) <= u64::MAX {
        Some(digits_value(digits) as u64)
    } else {
        None
    }
}

/// A prefix of a digit sequence denotes no more than the whole.
proof fn lemma_value_monotonic(s: Seq<char>, i: int)
    requires
        all_digits(s),
        0 <= i <= s.len(),
    ensures
        digits_value(s.take(i)) <= digits_value(s),
    decreases s.len() - i,
{
    if i < s.len() {
        lemma_value_monotonic(s, i + 1);
        let next = s.take(i + 1);
        assert(next.drop_last() == s.take(i));
        assert(is_digit(s[i]));
    } else {
        assert(s.take(i) == s);
    }
}

/// Parse `s` as a `u64`.
pub fn parse_u64(s: &str) -> (r: Option<u64>)
    ensures
        r == parsed_u64(s@),
{
    let cs = chars_of(s);
    let n: usize = cs.len();
    let from: usize = if n > 0 && cs[0] == '+' {
        1
    } else {
        0
    };
    let ghost digits = s@.skip(from as int);
    assert(from == 0 ==> digits == s@);
    if from == n {
        return None;
    }
    let mut value: u64 = 0;
    let mut i: usize = from;
    while i < n
        invariant
            n == cs@.len(),
            from <= i <= n,
            cs@ == s@,
            digits == cs@.skip(from as int),
            parsed_u64(s@) == (if digits.len() > 0 && all_digits(digits) && digits_value(digits)
                <= u64::MAX {
                Some(digits_value(digits) as u64)
            } else {
                None::<u64>
            }),
            forall|j: int| 0 <= j < i - from ==> is_digit(#[trigger] digits[j]),
            value == digits_value(digits.take(i - from)),
        decreases n - i,
    {
        let c: char = cs[i];
        let ghost k = i - from;
        assert(digits[k] == c);
        if c < '0' || c > '9' {
            assert(!is_digit(digits[k]));
            return None;
        }
        let d: u64 = (c as u32 - '0' as u32) as u64;
        proof {
            assert(digits.take(k + 1).drop_last() == digits.take(k));
            assert(digits_value(digits.take(k + 1)) == value * 10 + d);
        }
        if value > (u64::MAX - d) / 10 {
            proof {
                if all_digits(digits) {
                    lemma_value_monotonic(digits, k + 1);
                }
            }
            return None;
        }
        value = value * 10 + d;
        i = i + 1;
    }
    assert(digits.take(n - from) == digits);
    Some(value)
}

/// `n` in decimal notation.
pub fn decimal_text(n: u64) -> (r: String)
    ensures
        r@ == decimal(n as nat),
{
    let cs = decimal_chars(n);
    string_of(cs.as_slice())
}

fn decimal_chars(n: u64) -> (r: Vec<char>)
    ensures
        r@ == decimal(n as nat),
    decreases n,
{
    let d: u8 = (n % 10) as u8;
    let c: char = (48u8 + d) as char;
    if n < 10 {
        let mut out: Vec<char> = Vec::new();
        out.push(c);
        out
    } else {
        let mut out = decimal_chars(n / 10);
        out.push(c);
        out
    }
}

/// `n` in decimal notation, with a `-` in front where it is negative.
pub open spec fn signed_decimal(n: int) -> Seq<char> {
    if n < 0 {
        "-"@ + decimal((-n) as nat)
    } else {
        decimal(n as nat)
    }
}

/// `n` in decimal notation, with a `-` in front where it is negative.
pub fn signed_text(n: i32) -> (r: String)
    ensures
        r@ == signed_decimal(n as int),
{
    let wide: i64 = n as i64;
    if wide < 0 {
        let mut out = "-".to_owned();
        out.append(decimal_text((-wide) as u64).as_str());
        out
    } else {
        decimal_text(wide as u64)
    }
}

/// Decimal notation is one or more digits, and denotes the number it was made
/// from.
pub proof fn lemma_decimal(n: nat)
    ensures
        decimal(n).len() > 0,
        all_digits(decimal(n)),
        digits_value(decimal(n)) == n,
    decreases n,
{
    if n < 10 {
        let s = decimal(n);
        assert(s.drop_last() == Seq::<char>::empty());
        assert(digits_value(s.drop_last()) == 0);
    } else {
        lemma_decimal(n / 10);
        let s = decimal(n);
        assert(s.drop_last() == decimal(n / 10));
        assert forall|i: int| 0 <= i < s.len() implies is_digit(#[trigger] s[i]) by {
            if i < s.len() - 1 {
                assert(s[i] == decimal(n / 10)[i]);
            }
        }
    }
}

/// Reading back the decimal notation of a `u64` gives that `u64`.
pub proof fn law_decimal_round_trip(n: u64)
    ensures
        parsed_u64(decimal(n as nat)) == Some(n),
{
    lemma_decimal(n as nat);
    assert(is_digit(decimal(n as nat)[0]));
}

/// A number with a digit more stands for ten times as much and the digit; a number of
/// one digit is that digit.
pub proof fn law_decimal_digits(n: nat, d: nat)
    requires
        d < 10,
    ensures
        decimal(d) == seq![digit_char(d)],
        n > 0 ==> decimal(10 * n + d) == decimal(n).push(digit_char(d)),
        digit_char(d) as int == '0' as int + d,
{
    if n > 0 {
        assert((10 * n + d) / 10 == n);
        assert((10 * n + d) % 10 == d);
    }
}

/// Another digit behind a number that was read makes it ten times as much and the digit,
/// where that still fits; anything else behind it, or nothing at all, is no number.
pub proof fn law_parsed_digits(s: Seq<char>, c: char)
    ensures
        parsed_u64(seq![]) is None,
        parsed_u64(seq!['+']) is None,
        is_digit(c) ==> parsed_u64(seq![c]) == Some((c as int - '0' as int) as u64),
        parsed_u64(s) is Some && is_digit(c) ==> parsed_u64(s.push(c)) == (if parsed_u64(s)->0 * 10
            + (c as int - '0' as int) <= u64::MAX {
            Some((parsed_u64(s)->0 * 10 + (c as int - '0' as int)) as u64)
        } else {
            None
        }),
        s.len() > 0 && !is_digit(c) ==> parsed_u64(s.push(c)) is None,
        s.len() > 0 && s[0] != '+' ==> parsed_u64(seq!['+'] + s) == parsed_u64(s),
{
    assert(seq!['+'].skip(1) == Seq::<char>::empty());
    let one = seq![c];
    assert(one.drop_last() == Seq::<char>::empty());
    assert(digits_value(one.drop_last()) == 0);
    if is_digit(c) {
        assert(digits_value(one) == c as int - '0' as int);
        assert(all_digits(one));
        assert(one[0] != '+');
    }
    let t = s.push(c);
    if s.len() > 0 {
        let signed = s[0] == '+';
        let digits = if signed {
            s.skip(1)
        } else {
            s
        };
        let more = if signed {
            t.skip(1)
        } else {
            t
        };
        assert(t[0] == s[0]);
        assert(more == digits.push(c));
        assert(more.drop_last() == digits);
        assert(more.last() == c);
        if !is_digit(c) {
            assert(!is_digit(more[more.len() - 1]));
        } else if parsed_u64(s) is Some {
            assert forall|i: int| 0 <= i < more.len() implies is_digit(#[trigger] more[i]) by {
                if i < digits.len() {
                    assert(more[i] == digits[i]);
                }
            }
        }
        if !signed {
            assert((seq!['+'] + s).skip(1) == s);
        }
    }
}

/// A negative number has a minus sign in front of its amount, and no other has one.
pub proof fn law_signed_decimal(n: int)
    ensures
        n < 0 ==> signed_decimal(n) == seq!['-'] + decimal((-n) as nat),
        n >= 0 ==> signed_decimal(n) == decimal(n as nat),
{
    reveal_strlit("-");
    assert("-"@ == seq!['-']);
}

} // verus!
