//! The grammar shared by integer ranges and date-time ranges.
use vstd::prelude::*;
use crate::text::{
    all_digits, char_is_digit, digits_end, exec_digits_end, exec_skip_spaces, lemma_number_below_pow10,
    number, parse_number, pow10, skip_spaces,
};

verus! {

/// What the endpoints of a range are written as.
#[derive(Clone, Copy, Debug, PartialEq, Eq, Structural)]
pub enum RangeKind {
    /// Decimal integers.
    Integer,
    /// Local wall-clock date-times, counted in seconds.
    DateTime,
}

/// A comparison operator written before or after a value.
#[derive(Clone, Copy, Debug, PartialEq, Eq, Structural)]
pub enum Comparison {
    Lt,
    Le,
    Gt,
    Ge,
}

/// Lower bound of a date-time range that sets none: every earlier instant is admitted.
pub const MIN_WALL_SECONDS: i64 = i64::MIN;

/// Upper bound of a date-time range that sets none: every later instant is admitted.
pub const MAX_WALL_SECONDS: i64 = i64::MAX;

/// Days between 0001-01-01 (day 1 of the common era) and 1970-01-01.
pub const CE_DAYS_AT_EPOCH: i32 = 719163;

pub open spec fn is_leap_year(y: int) -> bool {
    y % 4 == 0 && (y % 100 != 0 || y % 400 == 0)
}

pub open spec fn days_in_month(y: int, m: int) -> int {
    if m == 2 {
        if is_leap_year(y) {
            29
        } else {
            28
        }
    } else if m == 4 || m == 6 || m == 9 || m == 11 {
        30
    } else {
        31
    }
}

pub open spec fn valid_date(y: int, m: int, d: int) -> bool {
    1 <= m <= 12 && 1 <= d <= days_in_month(y, m)
}

/// Days from 1970-01-01 to the given proleptic Gregorian date.
pub open spec fn days_from_civil(y: int, m: int, d: int) -> int {
    let yy = if m <= 2 {
        y - 1
    } else {
        y
    };
    let era = yy / 400;
    let yoe = yy % 400;
    let mp = if m > 2 {
        m - 3
    } else {
        m + 9
    };
    let doy = (153 * mp + 2) / 5 + d - 1;
    let doe = yoe * 365 + yoe / 4 - yoe / 100 + doy;
    era * 146097 + doe - 719468
}

/// Seconds from 1970-01-01 00:00:00 to a wall-clock date-time, ignoring time zones.
pub open spec fn wall_seconds(y: int, m: int, d: int, h: int, mi: int, s: int) -> int {
    days_from_civil(y, m, d) * 86400 + h * 3600 + mi * 60 + s
}

pub open spec fn valid_wall_clock(y: int, m: int, d: int, h: int, mi: int, s: int) -> bool {
    valid_date(y, m, d) && 0 <= h < 24 && 0 <= mi < 60 && 0 <= s < 60
}

pub proof fn lemma_days_from_civil_bounds(y: int, m: int, d: int)
    requires
        0 <= y <= 9999,
        1 <= m <= 12,
        1 <= d <= 31,
    ensures
        -800000 <= days_from_civil(y, m, d) <= 3000000,
{
    let yy = if m <= 2 {
        y - 1
    } else {
        y
    };
    let mp = if m > 2 {
        m - 3
    } else {
        m + 9
    };
    assert(-1 <= yy / 400 <= 25) by (nonlinear_arith)
        requires
            -1 <= yy <= 9999,
    ;
    assert(0 <= yy % 400 < 400) by (nonlinear_arith)
        requires
            -1 <= yy <= 9999,
    ;
    let yoe = yy % 400;
    assert(0 <= (153 * mp + 2) / 5 <= 400) by (nonlinear_arith)
        requires
            0 <= mp <= 11,
    ;
    assert(0 <= yoe / 4 <= 100 && 0 <= yoe / 100 <= 4) by (nonlinear_arith)
        requires
            0 <= yoe < 400,
    ;
    assert(0 <= yoe * 365 <= 400 * 365) by (nonlinear_arith)
        requires
            0 <= yoe < 400,
    ;
    assert(-146097 <= (yy / 400) * 146097 <= 25 * 146097) by (nonlinear_arith)
        requires
            -1 <= yy / 400 <= 25,
    ;
}

pub open spec fn comparison_at(s: Seq<char>, i: int) -> Option<(Comparison, int)> {
    if 0 <= i < s.len() && (s[i] == '<' || s[i] == '>') {
        let eq = i + 1 < s.len() && s[i + 1] == '=';
        let op = if s[i] == '<' {
            if eq {
                Comparison::Le
            } else {
                Comparison::Lt
            }
        } else {
            if eq {
                Comparison::Ge
            } else {
                Comparison::Gt
            }
        };
        Some((
            op,
            if eq {
                i + 2
            } else {
                i + 1
            },
        ))
    } else {
        None
    }
}

/// `..` (inclusive, `true`) or `...` (upper end excluded, `false`) at `i`, and where it ends.
pub open spec fn dots_at(s: Seq<char>, i: int) -> Option<(bool, int)> {
    if 0 <= i && i + 3 <= s.len() && s[i] == '.' && s[i + 1] == '.' && s[i + 2] == '.' {
        Some((false, i + 3))
    } else if 0 <= i && i + 2 <= s.len() && s[i] == '.' && s[i + 1] == '.' {
        Some((true, i + 2))
    } else {
        None
    }
}

pub open spec fn integer_token(s: Seq<char>, i: int) -> Option<(int, int)> {
    let e = digits_end(s, i);
    if i < e && number(s, i, e) <= i64::MAX {
        Some((number(s, i, e), e))
    } else {
        None
    }
}

/// `YYYY-MM-DD`, then optionally `THH:MM` or ` HH:MM`, then optionally `:SS`.
pub open spec fn datetime_token(s: Seq<char>, i: int) -> Option<(int, int)> {
    if all_digits(s, i, 4) && i + 10 <= s.len() && s[i + 4] == '-' && all_digits(s, i + 5, 2)
        && s[i + 7] == '-' && all_digits(s, i + 8, 2) {
        let y = number(s, i, i + 4);
        let m = number(s, i + 5, i + 7);
        let d = number(s, i + 8, i + 10);
        let has_time = s.len() - i >= 16 && (s[i + 10] == 'T' || s[i + 10] == ' ') && all_digits(
            s,
            i + 11,
            2,
        ) && s[i + 13] == ':' && all_digits(s, i + 14, 2);
        let has_sec = has_time && s.len() - i >= 19 && s[i + 16] == ':' && all_digits(
            s,
            i + 17,
            2,
        );
        let h = if has_time {
            number(s, i + 11, i + 13)
        } else {
            0
        };
        let mi = if has_time {
            number(s, i + 14, i + 16)
        } else {
            0
        };
        let sec = if has_sec {
            number(s, i + 17, i + 19)
        } else {
            0
        };
        let end = if has_sec {
            i + 19
        } else if has_time {
            i + 16
        } else {
            i + 10
        };
        if valid_wall_clock(y, m, d, h, mi, sec) {
            Some((wall_seconds(y, m, d, h, mi, sec), end))
        } else {
            None
        }
    } else {
        None
    }
}

/// The value written at `i`, and where it ends.
pub open spec fn token(kind: RangeKind, s: Seq<char>, i: int) -> Option<(int, int)> {
    match kind {
        RangeKind::Integer => integer_token(s, i),
        RangeKind::DateTime => datetime_token(s, i),
    }
}

/// The bounds of an empty, or unreadable, range.
pub open spec fn full_range(kind: RangeKind) -> (int, int) {
    match kind {
        RangeKind::Integer => (i64::MIN as int, i64::MAX as int),
        RangeKind::DateTime => (MIN_WALL_SECONDS as int, MAX_WALL_SECONDS as int),
    }
}

/// Bounds of `X op`: the input is on the right of the operator.
pub open spec fn value_then_op(op: Comparison, v: int, full: (int, int)) -> (int, int) {
    match op {
        Comparison::Lt => (v + 1, full.1),
        Comparison::Le => (v, full.1),
        Comparison::Gt => (full.0, v - 1),
        Comparison::Ge => (full.0, v),
    }
}

/// Bounds of `op X`: the input is on the left of the operator.
pub open spec fn op_then_value(op: Comparison, v: int, full: (int, int)) -> (int, int) {
    match op {
        Comparison::Lt => (full.0, v - 1),
        Comparison::Le => (full.0, v),
        Comparison::Gt => (v + 1, full.1),
        Comparison::Ge => (v, full.1),
    }
}

/// Bounds of `A..B` (inclusive) or `A...B` (upper end reduced by one unit), lower bound first.
pub open spec fn span(a: int, b: int, inclusive: bool) -> (int, int) {
    let hi = if inclusive {
        b
    } else {
        b - 1
    };
    if a <= hi {
        (a, hi)
    } else {
        (hi, a)
    }
}

/// Bounds written by the whole of `t` (already trimmed), before checking that they fit.
pub open spec fn written_bounds(kind: RangeKind, t: Seq<char>) -> Option<(int, int)> {
    if t.len() == 0 {
        Some(full_range(kind))
    } else {
        match token(kind, t, 0) {
            Some((v, e)) => {
                if e == t.len() {
                    Some((v, v))
                } else {
                    let k = skip_spaces(t, e);
                    match comparison_at(t, k) {
                        Some((op, e2)) => if e2 == t.len() {
                            Some(value_then_op(op, v, full_range(kind)))
                        } else {
                            None
                        },
                        None => match dots_at(t, k) {
                            Some((inclusive, e2)) => {
                                let k2 = skip_spaces(t, e2);
                                match token(kind, t, k2) {
                                    Some((w, e3)) => if e3 == t.len() {
                                        Some(span(v, w, inclusive))
                                    } else {
                                        None
                                    },
                                    None => None,
                                }
                            },
                            None => None,
                        },
                    }
                }
            },
            None => match comparison_at(t, 0) {
                Some((op, e)) => {
                    let k = skip_spaces(t, e);
                    match token(kind, t, k) {
                        Some((v, e2)) => if e2 == t.len() {
                            Some(op_then_value(op, v, full_range(kind)))
                        } else {
                            None
                        },
                        None => None,
                    }
                },
                None => None,
            },
        }
    }
}

pub open spec fn fits_i64(x: int) -> bool {
    i64::MIN <= x <= i64::MAX
}

/// The range written by `t` (already trimmed): `None` when `t` does not follow the grammar
/// or a bound falls outside `i64`.
pub open spec fn range_of(kind: RangeKind, t: Seq<char>) -> Option<(int, int)> {
    match written_bounds(kind, t) {
        Some((lo, hi)) => if fits_i64(lo) && fits_i64(hi) {
            Some((lo, hi))
        } else {
            None
        },
        None => None,
    }
}

/// Relies on chrono's `NaiveDate::from_ymd_opt`, which accepts exactly the valid
/// proleptic Gregorian dates, and `Datelike::num_days_from_ce`, which counts days
/// so that 0001-01-01 is day 1.
#[verifier::external_body]
fn ce_day_number(y: i32, m: u32, d: u32) -> (r: Option<i32>)
    requires
        0 <= y <= 9999,
    ensures
        r is Some <==> valid_date(y as int, m as int, d as int),
        r matches Some(n) ==> n == days_from_civil(y as int, m as int, d as int)
            + CE_DAYS_AT_EPOCH,
{
    match chrono::NaiveDate::from_ymd_opt(y, m, d) {
        Some(date) => Some(chrono::Datelike::num_days_from_ce(&date)),
        None => None,
    }
}

/// Seconds from 1970-01-01 00:00:00 to the wall-clock date-time, when it is a valid one.
pub fn wall_clock_seconds(y: u32, m: u32, d: u32, h: u32, mi: u32, s: u32) -> (r: Option<i64>)
    requires
        y <= 9999,
    ensures
        r is Some <==> valid_wall_clock(y as int, m as int, d as int, h as int, mi as int, s as int),
        r matches Some(v) ==> v == wall_seconds(
            y as int,
            m as int,
            d as int,
            h as int,
            mi as int,
            s as int,
        ),
{
    if h >= 24 || mi >= 60 || s >= 60 {
        return None;
    }
    match ce_day_number(y as i32, m, d) {
        Some(n) => {
            proof {
                lemma_days_from_civil_bounds(y as int, m as int, d as int);
            }
            let days = n as i64 - CE_DAYS_AT_EPOCH as i64;
            Some(days * 86400 + h as i64 * 3600 + mi as i64 * 60 + s as i64)
        },
        None => None,
    }
}

fn exec_comparison_at(s: &Vec<char>, i: usize) -> (r: Option<(Comparison, usize)>)
    requires
        i <= s.len(),
    ensures
        match r {
            Some((op, e)) => comparison_at(s@, i as int) == Some((op, e as int)) && e <= s.len(),
            None => comparison_at(s@, i as int) is None,
        },
{
    if i < s.len() && (s[i] == '<' || s[i] == '>') {
        let eq = i + 1 < s.len() && s[i + 1] == '=';
        let op = if s[i] == '<' {
            if eq {
                Comparison::Le
            } else {
                Comparison::Lt
            }
        } else {
            if eq {
                Comparison::Ge
            } else {
                Comparison::Gt
            }
        };
        Some((
            op,
            if eq {
                i + 2
            } else {
                i + 1
            },
        ))
    } else {
        None
    }
}

fn exec_dots_at(s: &Vec<char>, i: usize) -> (r: Option<(bool, usize)>)
    requires
        i <= s.len(),
    ensures
        match r {
            Some((inclusive, e)) => dots_at(s@, i as int) == Some((inclusive, e as int)) && e
                <= s.len(),
            None => dots_at(s@, i as int) is None,
        },
{
    if s.len() - i >= 3 && s[i] == '.' && s[i + 1] == '.' && s[i + 2] == '.' {
        Some((false, i + 3))
    } else if s.len() - i >= 2 && s[i] == '.' && s[i + 1] == '.' {
        Some((true, i + 2))
    } else {
        None
    }
}

fn exec_all_digits(s: &Vec<char>, i: usize, n: usize) -> (r: bool)
    requires
        i <= s.len(),
        n <= 4,
    ensures
        r == all_digits(s@, i as int, n as int),
{
    if s.len() - i < n {
        return false;
    }
    let mut k = i;
    while k < i + n
        invariant
            i <= k <= i + n <= s.len(),
            all_digits(s@, i as int, k - i),
        decreases i + n - k,
    {
        if !char_is_digit(s[k]) {
            return false;
        }
        k += 1;
    }
    true
}

fn exec_integer_token(s: &Vec<char>, i: usize) -> (r: Option<(i64, usize)>)
    requires
        i <= s.len(),
    ensures
        match r {
            Some((v, e)) => integer_token(s@, i as int) == Some((v as int, e as int)) && i < e
                <= s.len(),
            None => integer_token(s@, i as int) is None,
        },
{
    let e = exec_digits_end(s, i);
    if e == i {
        return None;
    }
    match parse_number(s, i, e, i64::MAX as u64) {
        Some(v) => Some((v as i64, e)),
        None => None,
    }
}

fn exec_datetime_token(s: &Vec<char>, i: usize) -> (r: Option<(i64, usize)>)
    requires
        i <= s.len(),
    ensures
        match r {
            Some((v, e)) => datetime_token(s@, i as int) == Some((v as int, e as int)) && i < e
                <= s.len(),
            None => datetime_token(s@, i as int) is None,
        },
{
    if !(exec_all_digits(s, i, 4) && s.len() - i >= 10 && s[i + 4] == '-' && exec_all_digits(
        s,
        i + 5,
        2,
    ) && s[i + 7] == '-' && exec_all_digits(s, i + 8, 2)) {
        return None;
    }
    proof {
        lemma_number_below_pow10(s@, i as int, i + 4);
        lemma_number_below_pow10(s@, i + 5, i + 7);
        lemma_number_below_pow10(s@, i + 8, i + 10);
        reveal_with_fuel(pow10, 5);
        assert(pow10(4) == 10000 && pow10(2) == 100);
    }
    let y = parse_number(s, i, i + 4, 9999).unwrap();
    let m = parse_number(s, i + 5, i + 7, 99).unwrap();
    let d = parse_number(s, i + 8, i + 10, 99).unwrap();
    let has_time = s.len() - i >= 16 && (s[i + 10] == 'T' || s[i + 10] == ' ') && exec_all_digits(
        s,
        i + 11,
        2,
    ) && s[i + 13] == ':' && exec_all_digits(s, i + 14, 2);
    let has_sec = has_time && s.len() - i >= 19 && s[i + 16] == ':' && exec_all_digits(
        s,
        i + 17,
        2,
    );
    proof {
        if has_time {
            lemma_number_below_pow10(s@, i + 11, i + 13);
            lemma_number_below_pow10(s@, i + 14, i + 16);
        }
        if has_sec {
            lemma_number_below_pow10(s@, i + 17, i + 19);
        }
        reveal_with_fuel(pow10, 3);
    }
    let h = if has_time {
        parse_number(s, i + 11, i + 13, 99).unwrap()
    } else {
        0
    };
    let mi = if has_time {
        parse_number(s, i + 14, i + 16, 99).unwrap()
    } else {
        0
    };
    let sec = if has_sec {
        parse_number(s, i + 17, i + 19, 99).unwrap()
    } else {
        0
    };
    let end = if has_sec {
        i + 19
    } else if has_time {
        i + 16
    } else {
        i + 10
    };
    match wall_clock_seconds(y as u32, m as u32, d as u32, h as u32, mi as u32, sec as u32) {
        Some(v) => Some((v, end)),
        None => None,
    }
}

fn exec_token(kind: RangeKind, s: &Vec<char>, i: usize) -> (r: Option<(i64, usize)>)
    requires
        i <= s.len(),
    ensures
        match r {
            Some((v, e)) => token(kind, s@, i as int) == Some((v as int, e as int)) && i < e
                <= s.len(),
            None => token(kind, s@, i as int) is None,
        },
{
    match kind {
        RangeKind::Integer => exec_integer_token(s, i),
        RangeKind::DateTime => exec_datetime_token(s, i),
    }
}

fn exec_full_range(kind: RangeKind) -> (r: (i64, i64))
    ensures
        (r.0 as int, r.1 as int) == full_range(kind),
{
    match kind {
        RangeKind::Integer => (i64::MIN, i64::MAX),
        RangeKind::DateTime => (MIN_WALL_SECONDS, MAX_WALL_SECONDS),
    }
}

fn exec_value_then_op(op: Comparison, v: i128, full: (i64, i64)) -> (r: (i128, i128))
    requires
        i64::MIN <= v <= i64::MAX,
    ensures
        (r.0 as int, r.1 as int) == value_then_op(op, v as int, (full.0 as int, full.1 as int)),
{
    match op {
        Comparison::Lt => (v + 1, full.1 as i128),
        Comparison::Le => (v, full.1 as i128),
        Comparison::Gt => (full.0 as i128, v - 1),
        Comparison::Ge => (full.0 as i128, v),
    }
}

fn exec_op_then_value(op: Comparison, v: i128, full: (i64, i64)) -> (r: (i128, i128))
    requires
        i64::MIN <= v <= i64::MAX,
    ensures
        (r.0 as int, r.1 as int) == op_then_value(op, v as int, (full.0 as int, full.1 as int)),
{
    match op {
        Comparison::Lt => (full.0 as i128, v - 1),
        Comparison::Le => (full.0 as i128, v),
        Comparison::Gt => (v + 1, full.1 as i128),
        Comparison::Ge => (v, full.1 as i128),
    }
}

fn exec_span(a: i128, b: i128, inclusive: bool) -> (r: (i128, i128))
    requires
        i64::MIN <= a <= i64::MAX,
        i64::MIN <= b <= i64::MAX,
    ensures
        (r.0 as int, r.1 as int) == span(a as int, b as int, inclusive),
{
    let hi = if inclusive {
        b
    } else {
        b - 1
    };
    if a <= hi {
        (a, hi)
    } else {
        (hi, a)
    }
}

/// Reads the range that `t` (already trimmed) writes.
pub fn parse_range(kind: RangeKind, t: &Vec<char>) -> (r: Option<(i64, i64)>)
    ensures
        match r {
            Some((lo, hi)) => range_of(kind, t@) == Some((lo as int, hi as int)),
            None => range_of(kind, t@) is None,
        },
{
    let full = exec_full_range(kind);
    let bounds: Option<(i128, i128)> = if t.len() == 0 {
        Some((full.0 as i128, full.1 as i128))
    } else {
        match exec_token(kind, t, 0) {
            Some((v, e)) => {
                if e == t.len() {
                    Some((v as i128, v as i128))
                } else {
                    let k = exec_skip_spaces(t, e);
                    match exec_comparison_at(t, k) {
                        Some((op, e2)) => if e2 == t.len() {
                            Some(exec_value_then_op(op, v as i128, full))
                        } else {
                            None
                        },
                        None => match exec_dots_at(t, k) {
                            Some((inclusive, e2)) => {
                                let k2 = exec_skip_spaces(t, e2);
                                match exec_token(kind, t, k2) {
                                    Some((w, e3)) => if e3 == t.len() {
                                        Some(exec_span(v as i128, w as i128, inclusive))
                                    } else {
                                        None
                                    },
                                    None => None,
                                }
                            },
                            None => None,
                        },
                    }
                }
            },
            None => match exec_comparison_at(t, 0) {
                Some((op, e)) => {
                    let k = exec_skip_spaces(t, e);
                    match exec_token(kind, t, k) {
                        Some((v, e2)) => if e2 == t.len() {
                            Some(exec_op_then_value(op, v as i128, full))
                        } else {
                            None
                        },
                        None => None,
                    }
                },
                None => None,
            },
        }
    };
    match bounds {
        Some((lo, hi)) => {
            if i64::MIN as i128 <= lo && lo <= i64::MAX as i128 && i64::MIN as i128 <= hi && hi
                <= i64::MAX as i128 {
                Some((lo as i64, hi as i64))
            } else {
                None
            }
        },
        None => None,
    }
}

} // verus!
