//! Date normalization.
//!
//! Extracted date texts are normalized to the canonical `YYYY-MM-DD` form.
//! Accepted input shapes are `YYYY-MM-DD`, `DD.MM.YYYY`, `DD/MM/YYYY`,
//! `YYYY/MM/DD` and `YYYY.MM.DD`, tried in that order, where day and month
//! may be written with one or two digits and must form a real calendar date.
//! Anything else passes through unchanged: unrecognised date text is kept,
//! never rejected.

use vstd::prelude::*;

use crate::amounts::{digit_char, DIGITS};
use crate::models::opt_str_view;
use crate::text::{
    all_digits, lemma_digits_val_bound, parse_uint, pow10, spec_digits_val, spec_trim, push_char,
    trim_str,
};

verus! {

/// Gregorian leap year.
pub open spec fn is_leap_year(y: int) -> bool {
    y % 4 == 0 && (y % 100 != 0 || y % 400 == 0)
}

/// Number of days in a month, 0 for an invalid month number.
pub open spec fn days_in_month(y: int, m: int) -> int {
    if m == 1 || m == 3 || m == 5 || m == 7 || m == 8 || m == 10 || m == 12 {
        31
    } else if m == 4 || m == 6 || m == 9 || m == 11 {
        30
    } else if m == 2 {
        if is_leap_year(y) {
            29
        } else {
            28
        }
    } else {
        0
    }
}

/// A real calendar date.
pub open spec fn valid_date(y: int, m: int, d: int) -> bool {
    1 <= m <= 12 && 1 <= d <= days_in_month(y, m)
}

pub fn is_valid_date(y: u32, m: u32, d: u32) -> (r: bool)
    ensures
        r == valid_date(y as int, m as int, d as int),
{
    if m < 1 || m > 12 || d < 1 {
        return false;
    }
    let leap: bool = y % 4 == 0 && (y % 100 != 0 || y % 400 == 0);
    let limit: u32 = if m == 1 || m == 3 || m == 5 || m == 7 || m == 8 || m == 10 || m == 12 {
        31
    } else if m == 4 || m == 6 || m == 9 || m == 11 {
        30
    } else {
        if leap {
            29
        } else {
            28
        }
    };
    d <= limit
}

/// Three digit runs of widths `a`, `b`, `c`, separated by two `sep`
/// characters, making up the whole of `s`.
pub open spec fn layout_ok(s: Seq<char>, a: int, b: int, c: int, sep: char) -> bool {
    s.len() == a + b + c + 2 && s[a] == sep && s[a + 1 + b] == sep && all_digits(
        s.subrange(0, a),
    ) && all_digits(s.subrange(a + 1, a + 1 + b)) && all_digits(
        s.subrange(a + 2 + b, s.len() as int),
    )
}

pub open spec fn layout_val1(s: Seq<char>, a: int) -> int {
    spec_digits_val(s.subrange(0, a))
}

pub open spec fn layout_val2(s: Seq<char>, a: int, b: int) -> int {
    spec_digits_val(s.subrange(a + 1, a + 1 + b))
}

pub open spec fn layout_val3(s: Seq<char>, a: int, b: int) -> int {
    spec_digits_val(s.subrange(a + 2 + b, s.len() as int))
}

/// First of the four width layouts of a format that matches `s`, as the
/// (year, month, day) values it denotes. `ymd` chooses between a four-digit
/// year in front (`true`) or at the back (`false`).
pub open spec fn spec_try_shape(s: Seq<char>, sep: char, ymd: bool) -> Option<(int, int, int)> {
    if ymd {
        if layout_ok(s, 4, 1, 1, sep) {
            Some((layout_val1(s, 4), layout_val2(s, 4, 1), layout_val3(s, 4, 1)))
        } else if layout_ok(s, 4, 1, 2, sep) {
            Some((layout_val1(s, 4), layout_val2(s, 4, 1), layout_val3(s, 4, 1)))
        } else if layout_ok(s, 4, 2, 1, sep) {
            Some((layout_val1(s, 4), layout_val2(s, 4, 2), layout_val3(s, 4, 2)))
        } else if layout_ok(s, 4, 2, 2, sep) {
            Some((layout_val1(s, 4), layout_val2(s, 4, 2), layout_val3(s, 4, 2)))
        } else {
            None
        }
    } else {
        if layout_ok(s, 1, 1, 4, sep) {
            Some((layout_val3(s, 1, 1), layout_val2(s, 1, 1), layout_val1(s, 1)))
        } else if layout_ok(s, 1, 2, 4, sep) {
            Some((layout_val3(s, 1, 2), layout_val2(s, 1, 2), layout_val1(s, 1)))
        } else if layout_ok(s, 2, 1, 4, sep) {
            Some((layout_val3(s, 2, 1), layout_val2(s, 2, 1), layout_val1(s, 2)))
        } else if layout_ok(s, 2, 2, 4, sep) {
            Some((layout_val3(s, 2, 2), layout_val2(s, 2, 2), layout_val1(s, 2)))
        } else {
            None
        }
    }
}

/// One format's outcome: the denoted date if the shape matches and the date
/// is a real calendar date, else nothing (the next format is then tried).
pub open spec fn spec_try_format(s: Seq<char>, sep: char, ymd: bool) -> Option<(int, int, int)> {
    match spec_try_shape(s, sep, ymd) {
        Some(p) => if valid_date(p.0, p.1, p.2) {
            Some(p)
        } else {
            None
        },
        None => None,
    }
}

/// Canonical `YYYY-MM-DD` rendering, zero padded.
pub open spec fn spec_format_date(y: int, m: int, d: int) -> Seq<char> {
    seq![
        digit_char(y / 1000 % 10),
        digit_char(y / 100 % 10),
        digit_char(y / 10 % 10),
        digit_char(y % 10),
        '-',
        digit_char(m / 10 % 10),
        digit_char(m % 10),
        '-',
        digit_char(d / 10 % 10),
        digit_char(d % 10),
    ]
}

/// Normalization of a trimmed, nonempty date text: the first accepted format
/// decides; unrecognised text is returned unchanged.
pub open spec fn spec_normalize_core(t: Seq<char>) -> Seq<char> {
    match spec_try_format(t, '-', true) {
        Some(p) => spec_format_date(p.0, p.1, p.2),
        None => match spec_try_format(t, '.', false) {
            Some(p) => spec_format_date(p.0, p.1, p.2),
            None => match spec_try_format(t, '/', false) {
                Some(p) => spec_format_date(p.0, p.1, p.2),
                None => match spec_try_format(t, '/', true) {
                    Some(p) => spec_format_date(p.0, p.1, p.2),
                    None => match spec_try_format(t, '.', true) {
                        Some(p) => spec_format_date(p.0, p.1, p.2),
                        None => t,
                    },
                },
            },
        },
    }
}

/// Full normalization: absent or all-whitespace input becomes `None`; other
/// input is trimmed and normalized as in [`spec_normalize_core`].
pub open spec fn spec_normalize_date(v: Option<Seq<char>>) -> Option<Seq<char>> {
    match v {
        None => None,
        Some(s) => {
            let t = spec_trim(s);
            if t.len() == 0 {
                None
            } else {
                Some(spec_normalize_core(t))
            }
        },
    }
}

fn try_layout(s: &str, a: usize, b: usize, c: usize, sep: char) -> (r: Option<(u32, u32, u32)>)
    requires
        1 <= a <= 4,
        1 <= b <= 4,
        1 <= c <= 4,
    ensures
        r is Some <==> layout_ok(s@, a as int, b as int, c as int, sep),
        r matches Some(v) ==> v.0 as int == layout_val1(s@, a as int) && v.1 as int == layout_val2(
            s@,
            a as int,
            b as int,
        ) && v.2 as int == layout_val3(s@, a as int, b as int),
        r matches Some(v) ==> v.0 <= 9999 && v.1 <= 9999 && v.2 <= 9999,
{
    let n = s.unicode_len();
    if n != a + b + c + 2 {
        return None;
    }
    if s.get_char(a) != sep {
        return None;
    }
    if s.get_char(a + 1 + b) != sep {
        return None;
    }
    let p1 = match parse_uint(s, 0, a) {
        Some(v) => v,
        None => {
            return None;
        },
    };
    let p2 = match parse_uint(s, a + 1, a + 1 + b) {
        Some(v) => v,
        None => {
            return None;
        },
    };
    let p3 = match parse_uint(s, a + 2 + b, n) {
        Some(v) => v,
        None => {
            return None;
        },
    };
    proof {
        lemma_digits_val_bound(s@.subrange(0, a as int));
        lemma_digits_val_bound(s@.subrange(a + 1, a + 1 + b));
        lemma_digits_val_bound(s@.subrange(a + 2 + b, s@.len() as int));
        assert(pow10(4) == 10000) by {
            reveal_with_fuel(pow10, 5);
        }
        crate::text::lemma_pow10_mono(s@.subrange(0, a as int).len() as nat, 4);
        crate::text::lemma_pow10_mono(s@.subrange(a + 1, a + 1 + b).len() as nat, 4);
        crate::text::lemma_pow10_mono(s@.subrange(a + 2 + b, s@.len() as int).len() as nat, 4);
    }
    Some((p1 as u32, p2 as u32, p3 as u32))
}

fn try_format(s: &str, sep: char, ymd: bool) -> (r: Option<(u32, u32, u32)>)
    ensures
        match r {
            Some(v) => spec_try_format(s@, sep, ymd) == Some(
                (v.0 as int, v.1 as int, v.2 as int),
            ) && v.0 <= 9999 && v.1 <= 9999 && v.2 <= 9999,
            None => spec_try_format(s@, sep, ymd) is None,
        },
{
    let shape: Option<(u32, u32, u32)> = if ymd {
        if let Some(v) = try_layout(s, 4, 1, 1, sep) {
            Some(v)
        } else if let Some(v) = try_layout(s, 4, 1, 2, sep) {
            Some(v)
        } else if let Some(v) = try_layout(s, 4, 2, 1, sep) {
            Some(v)
        } else if let Some(v) = try_layout(s, 4, 2, 2, sep) {
            Some(v)
        } else {
            None
        }
    } else {
        if let Some(v) = try_layout(s, 1, 1, 4, sep) {
            Some((v.2, v.1, v.0))
        } else if let Some(v) = try_layout(s, 1, 2, 4, sep) {
            Some((v.2, v.1, v.0))
        } else if let Some(v) = try_layout(s, 2, 1, 4, sep) {
            Some((v.2, v.1, v.0))
        } else if let Some(v) = try_layout(s, 2, 2, 4, sep) {
            Some((v.2, v.1, v.0))
        } else {
            None
        }
    };
    match shape {
        Some((y, m, d)) => {
            if is_valid_date(y, m, d) {
                Some((y, m, d))
            } else {
                None
            }
        },
        None => None,
    }
}

/// Renders a date in canonical zero-padded form.
pub fn format_date(y: u32, m: u32, d: u32) -> (r: String)
    requires
        y <= 9999,
        m <= 99,
        d <= 99,
    ensures
        r@ == spec_format_date(y as int, m as int, d as int),
{
    let mut s = String::new();
    push_char(&mut s, DIGITS[(y / 1000 % 10) as usize]);
    push_char(&mut s, DIGITS[(y / 100 % 10) as usize]);
    push_char(&mut s, DIGITS[(y / 10 % 10) as usize]);
    push_char(&mut s, DIGITS[(y % 10) as usize]);
    push_char(&mut s, '-');
    push_char(&mut s, DIGITS[(m / 10 % 10) as usize]);
    push_char(&mut s, DIGITS[(m % 10) as usize]);
    push_char(&mut s, '-');
    push_char(&mut s, DIGITS[(d / 10 % 10) as usize]);
    push_char(&mut s, DIGITS[(d % 10) as usize]);
    proof {
        assert(s@ =~= spec_format_date(y as int, m as int, d as int));
    }
    s
}

fn normalize_core(t: &str) -> (r: String)
    ensures
        r@ == spec_normalize_core(t@),
{
    if let Some((y, m, d)) = try_format(t, '-', true) {
        return format_date(y, m, d);
    }
    if let Some((y, m, d)) = try_format(t, '.', false) {
        return format_date(y, m, d);
    }
    if let Some((y, m, d)) = try_format(t, '/', false) {
        return format_date(y, m, d);
    }
    if let Some((y, m, d)) = try_format(t, '/', true) {
        return format_date(y, m, d);
    }
    if let Some((y, m, d)) = try_format(t, '.', true) {
        return format_date(y, m, d);
    }
    t.to_owned()
}

/// Normalizes an optional date text to canonical `YYYY-MM-DD` form, keeping
/// unrecognised text unchanged and turning blank input into `None`.
pub fn normalize_date(value: Option<String>) -> (r: Option<String>)
    ensures
        opt_str_view(r) == spec_normalize_date(opt_str_view(value)),
{
    match value {
        None => None,
        Some(v) => {
            let t = trim_str(v.as_str());
            if t.as_str().unicode_len() == 0 {
                None
            } else {
                Some(normalize_core(t.as_str()))
            }
        },
    }
}

} // verus!
