//! Fixed-point money amounts.
//!
//! Amounts are carried as integer cents and rendered as decimal strings with
//! exactly two fraction digits, so repeated writes never drift the way binary
//! floating point would.

use vstd::prelude::*;

use crate::text::{
    all_digits, is_digit, is_digit_char, lemma_digits_val_bound, lemma_pow10_mono, parse_uint,
    pow10, push_char, spec_digits_val,
};

verus! {

/// The ten decimal digit characters, indexable by digit value.
pub const DIGITS: [char; 10] = ['0', '1', '2', '3', '4', '5', '6', '7', '8', '9'];

/// Character for a single decimal digit value.
pub open spec fn digit_char(d: int) -> char {
    DIGITS[d]
}

/// Decimal rendering of a nonnegative integer, without leading zeros.
pub open spec fn spec_uint_str(n: int) -> Seq<char>
    decreases n,
{
    if n < 10 {
        seq![digit_char(n)]
    } else {
        spec_uint_str(n / 10) + seq![digit_char(n % 10)]
    }
}

/// Rendering of an amount of cents as a decimal string with two fraction
/// digits, e.g. `-1950` is rendered as `-19.50`.
pub open spec fn spec_format_nonneg_cents(c: int) -> Seq<char> {
    spec_uint_str(c / 100) + seq!['.'] + seq![digit_char((c % 100) / 10), digit_char(c % 10)]
}

pub open spec fn spec_format_cents(c: int) -> Seq<char> {
    if c < 0 {
        seq!['-'] + spec_format_nonneg_cents(-c)
    } else {
        spec_format_nonneg_cents(c)
    }
}

fn push_uint(s: &mut String, n: u64)
    ensures
        final(s)@ == old(s)@ + spec_uint_str(n as int),
    decreases n,
{
    if n >= 10 {
        push_uint(s, n / 10);
    }
    push_char(s, DIGITS[(n % 10) as usize]);
    proof {
        assert(s@ =~= old(s)@ + spec_uint_str(n as int));
    }
}

/// Renders an amount of cents in fixed two-decimal textual form.
pub fn format_decimal(value: i64) -> (r: String)
    requires
        value > i64::MIN,
    ensures
        r@ == spec_format_cents(value as int),
{
    let mut s = String::new();
    let magnitude: u64 = if value < 0 {
        push_char(&mut s, '-');
        (-value) as u64
    } else {
        value as u64
    };
    push_uint(&mut s, magnitude / 100);
    push_char(&mut s, '.');
    push_char(&mut s, DIGITS[((magnitude % 100) / 10) as usize]);
    push_char(&mut s, DIGITS[(magnitude % 10) as usize]);
    proof {
        assert(s@ =~= spec_format_cents(value as int));
    }
    s
}

/// End of the digit run starting at position `i`.
pub open spec fn digits_end_from(s: Seq<char>, i: int) -> int
    decreases s.len() - i,
    when 0 <= i <= s.len()
{
    if i < s.len() && is_digit_char(s[i]) {
        digits_end_from(s, i + 1)
    } else {
        i
    }
}

proof fn lemma_digits_end(s: Seq<char>, start: int, de: int)
    requires
        0 <= start <= de <= s.len(),
        forall|j: int| start <= j < de ==> is_digit_char(s[j]),
        de < s.len() ==> !is_digit_char(s[de]),
    ensures
        digits_end_from(s, start) == de,
    decreases de - start,
{
    if start < de {
        lemma_digits_end(s, start + 1, de);
    }
}

/// The amount of cents a decimal text denotes: an optional sign, one to
/// sixteen integer digits, and optionally a `.` or `,` separator with one
/// or two fraction digits. Anything else denotes no amount.
pub open spec fn spec_amount_cents(s: Seq<char>) -> Option<int> {
    let start: int = if s.len() > 0 && (s[0] == '-' || s[0] == '+') {
        1int
    } else {
        0int
    };
    let neg = s.len() > 0 && s[0] == '-';
    let de = digits_end_from(s, start);
    if de - start < 1 || de - start > 16 {
        None
    } else {
        let ip = spec_digits_val(s.subrange(start, de));
        if de == s.len() {
            Some(
                if neg {
                    -(ip * 100)
                } else {
                    ip * 100
                },
            )
        } else if (s[de] == '.' || s[de] == ',') && 1 <= s.len() - de - 1 <= 2 && all_digits(
            s.subrange(de + 1, s.len() as int),
        ) {
            let fr = spec_digits_val(s.subrange(de + 1, s.len() as int)) * (
            if s.len() - de - 1 == 1 {
                10int
            } else {
                1int
            });
            Some(
                if neg {
                    -(ip * 100 + fr)
                } else {
                    ip * 100 + fr
                },
            )
        } else {
            None
        }
    }
}

/// Parses a decimal amount text into cents, accepting `.` or `,` as the
/// fraction separator, as [`spec_amount_cents`] states; rejected text
/// yields an error message.
pub fn parse_decimal(value: &str) -> (r: Result<i64, String>)
    ensures
        r matches Ok(v) ==> spec_amount_cents(value@) == Some(v as int),
        r is Err ==> spec_amount_cents(value@) is None,
{
    let n = value.unicode_len();
    if n == 0 {
        return Err("Parse decimal: empty input".to_owned());
    }
    let first = value.get_char(0);
    let start: usize = if first == '-' || first == '+' {
        1
    } else {
        0
    };
    let neg = first == '-';
    let mut de: usize = start;
    while de < n && is_digit(value.get_char(de))
        invariant
            start <= de <= n,
            n == value@.len(),
            forall|j: int| start <= j < de ==> is_digit_char(value@[j]),
        decreases n - de,
    {
        de = de + 1;
    }
    proof {
        lemma_digits_end(value@, start as int, de as int);
    }
    if de - start < 1 || de - start > 16 {
        return Err("Parse decimal: expected up to sixteen integer digits".to_owned());
    }
    let ip = match parse_uint(value, start, de) {
        Some(v) => v,
        None => {
            proof {
                assert(false);
            }
            0
        },
    };
    proof {
        lemma_digits_val_bound(value@.subrange(start as int, de as int));
        lemma_pow10_mono((de - start) as nat, 16);
        assert(pow10(16) == 10000000000000000) by {
            reveal_with_fuel(pow10, 17);
        }
    }
    let cents_abs: u64 = if de == n {
        ip * 100
    } else {
        let sep = value.get_char(de);
        if !(sep == '.' || sep == ',') {
            return Err("Parse decimal: unexpected character".to_owned());
        }
        let frac_len = n - de - 1;
        if frac_len < 1 || frac_len > 2 {
            return Err("Parse decimal: expected one or two fraction digits".to_owned());
        }
        let fr = match parse_uint(value, de + 1, n) {
            Some(v) => v,
            None => {
                return Err("Parse decimal: fraction is not numeric".to_owned());
            },
        };
        proof {
            lemma_digits_val_bound(value@.subrange(de + 1, n as int));
            lemma_pow10_mono((n - de - 1) as nat, 2);
            assert(pow10(2) == 100) by {
                reveal_with_fuel(pow10, 3);
            }
        }
        if frac_len == 1 {
            ip * 100 + fr * 10
        } else {
            ip * 100 + fr
        }
    };
    if neg {
        Ok(-(cents_abs as i64))
    } else {
        Ok(cents_abs as i64)
    }
}

} // verus!
