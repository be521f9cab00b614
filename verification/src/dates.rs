use vstd::prelude::*;

verus! {

/// A calendar date from the provider's `yyyy-mm-dd` strings, held as plain
/// numbers.
#[derive(Clone, Copy, PartialEq, Eq, Structural, Debug)]
pub struct CalendarDate {
    pub year: u32,
    pub month: u32,
    pub day: u32,
}

pub open spec fn is_leap_year(y: int) -> bool {
    (y % 4 == 0 && y % 100 != 0) || y % 400 == 0
}

pub open spec fn days_in_month(y: int, m: int) -> int {
    if m == 2 {
        if is_leap_year(y) {
            29
        } else {
            28
        }
    } else if m == 4 || m == 6 || m == 9 || m == 11 {
        30
    } else {
        31
    }
}

/// The dates the library accepts: the menu provider serves dates of this era,
/// and the timestamp arithmetic below stays far from any overflow.
pub open spec fn date_valid(y: int, m: int, d: int) -> bool {
    &&& 1970 <= y <= 9999
    &&& 1 <= m <= 12
    &&& 1 <= d <= days_in_month(y, m)
}

/// Days since 1970-01-01 of a calendar date in the Gregorian calendar.
pub open spec fn days_from_civil(y: int, m: int, d: int) -> int {
    let shifted_year = if m <= 2 {
        y - 1
    } else {
        y
    };
    let era = shifted_year / 400;
    let year_of_era = shifted_year - era * 400;
    let shifted_month = if m > 2 {
        m - 3
    } else {
        m + 9
    };
    let day_of_year = (153 * shifted_month + 2) / 5 + d - 1;
    let day_of_era = year_of_era * 365 + year_of_era / 4 - year_of_era / 100 + day_of_year;
    era * 146097 + day_of_era - 719468
}

/// The canonical display instant of a stored date: noon at the fixed UTC-5
/// offset, that is 17:00 UTC of the same calendar day, in seconds since the
/// epoch.
pub open spec fn noon_utc_minus5_seconds(y: int, m: int, d: int) -> int {
    86400 * days_from_civil(y, m, d) + 61200
}

pub open spec fn is_digit_char(c: char) -> bool {
    48 <= c as int <= 57
}

pub open spec fn digit_value(c: char) -> int {
    c as int - 48
}

/// A date string is well-formed when it reads `yyyy-mm-dd`.
pub open spec fn date_text_well_formed(s: Seq<char>) -> bool {
    &&& s.len() == 10
    &&& s[4] == '-'
    &&& s[7] == '-'
    &&& is_digit_char(s[0])
    &&& is_digit_char(s[1])
    &&& is_digit_char(s[2])
    &&& is_digit_char(s[3])
    &&& is_digit_char(s[5])
    &&& is_digit_char(s[6])
    &&& is_digit_char(s[8])
    &&& is_digit_char(s[9])
}

pub open spec fn text_year(s: Seq<char>) -> int {
    1000 * digit_value(s[0]) + 100 * digit_value(s[1]) + 10 * digit_value(s[2]) + digit_value(s[3])
}

pub open spec fn text_month(s: Seq<char>) -> int {
    10 * digit_value(s[5]) + digit_value(s[6])
}

pub open spec fn text_day(s: Seq<char>) -> int {
    10 * digit_value(s[8]) + digit_value(s[9])
}

/// What parsing a stored date string yields: the calendar date it denotes,
/// or nothing when the text is not a valid `yyyy-mm-dd` date.
pub open spec fn parse_date_spec(s: Seq<char>) -> Option<CalendarDate> {
    if date_text_well_formed(s) && date_valid(text_year(s), text_month(s), text_day(s)) {
        Some(
            CalendarDate {
                year: text_year(s) as u32,
                month: text_month(s) as u32,
                day: text_day(s) as u32,
            },
        )
    } else {
        None
    }
}

fn days_in_month_exec(y: u32, m: u32) -> (r: u32)
    requires
        1 <= m <= 12,
    ensures
        r as int == days_in_month(y as int, m as int),
{
    if m == 2 {
        if (y % 4 == 0 && y % 100 != 0) || y % 400 == 0 {
            29
        } else {
            28
        }
    } else if m == 4 || m == 6 || m == 9 || m == 11 {
        30
    } else {
        31
    }
}

/// Reads the digit at position `i` of `s`, or `None` when that character is
/// not a digit.
fn digit_at(s: &str, i: usize) -> (r: Option<u32>)
    requires
        i < s@.len(),
    ensures
        match r {
            Some(v) => is_digit_char(s@[i as int]) && v as int == digit_value(s@[i as int]),
            None => !is_digit_char(s@[i as int]),
        },
{
    let c = s.get_char(i);
    let v = c as u32;
    if 48 <= v && v <= 57 {
        Some(v - 48)
    } else {
        None
    }
}

/// Parses a stored `yyyy-mm-dd` date string into a calendar date, rejecting
/// any text that is not a valid date of that shape.
pub fn parse_date(s: &str) -> (r: Option<CalendarDate>)
    ensures
        r == parse_date_spec(s@),
{
    if s.unicode_len() != 10 {
        return None;
    }
    if s.get_char(4) != '-' || s.get_char(7) != '-' {
        return None;
    }
    let d0 = match digit_at(s, 0) {
        Some(v) => v,
        None => { return None },
    };
    let d1 = match digit_at(s, 1) {
        Some(v) => v,
        None => { return None },
    };
    let d2 = match digit_at(s, 2) {
        Some(v) => v,
        None => { return None },
    };
    let d3 = match digit_at(s, 3) {
        Some(v) => v,
        None => { return None },
    };
    let d5 = match digit_at(s, 5) {
        Some(v) => v,
        None => { return None },
    };
    let d6 = match digit_at(s, 6) {
        Some(v) => v,
        None => { return None },
    };
    let d8 = match digit_at(s, 8) {
        Some(v) => v,
        None => { return None },
    };
    let d9 = match digit_at(s, 9) {
        Some(v) => v,
        None => { return None },
    };
    let year = 1000 * d0 + 100 * d1 + 10 * d2 + d3;
    let month = 10 * d5 + d6;
    let day = 10 * d8 + d9;
    if year < 1970 || month < 1 || month > 12 {
        return None;
    }
    if day < 1 || day > days_in_month_exec(year, month) {
        return None;
    }
    Some(CalendarDate { year, month, day })
}

/// Relies on chrono's `DateTime::parse_from_rfc3339` and `timestamp`: for a
/// valid calendar date, parsing `yyyy-mm-ddT12:00:00-05:00` succeeds and
/// yields the instant whose epoch second count is `noon_utc_minus5_seconds`
/// of that date.
#[verifier::external_body]
fn noon_utc_minus5_epoch(year: u32, month: u32, day: u32) -> (r: i64)
    requires
        date_valid(year as int, month as int, day as int),
    ensures
        r == noon_utc_minus5_seconds(year as int, month as int, day as int),
{
    let text = format!("{:04}-{:02}-{:02}T12:00:00-05:00", year, month, day);
    match chrono::DateTime::parse_from_rfc3339(&text) {
        Ok(instant) => instant.timestamp(),
        Err(_) => i64::MIN,
    }
}

/// The canonical timestamp of a calendar date: noon at the fixed UTC-5
/// offset.
pub fn date_to_timestamp(date: &CalendarDate) -> (r: i64)
    requires
        date_valid(date.year as int, date.month as int, date.day as int),
    ensures
        r == noon_utc_minus5_seconds(date.year as int, date.month as int, date.day as int),
{
    noon_utc_minus5_epoch(date.year, date.month, date.day)
}

/// What resolving a stored date string into a display timestamp yields.
pub open spec fn date_timestamp_spec(s: Seq<char>) -> Option<int> {
    match parse_date_spec(s) {
        Some(d) => Some(noon_utc_minus5_seconds(d.year as int, d.month as int, d.day as int)),
        None => None,
    }
}

/// Resolves a stored `yyyy-mm-dd` date string into its canonical display
/// timestamp, noon at the fixed UTC-5 offset; `None` when the text is not a
/// valid date.
pub fn date_timestamp(s: &str) -> (r: Option<i64>)
    ensures
        match r {
            Some(t) => date_timestamp_spec(s@) == Some(t as int),
            None => date_timestamp_spec(s@) is None,
        },
{
    match parse_date(s) {
        Some(date) => Some(date_to_timestamp(&date)),
        None => None,
    }
}

/// Law (round trip, day part): reading the canonical display timestamp of a
/// stored date back at the fixed UTC-5 offset lands on exactly that
/// calendar day, at noon: subtracting the five-hour offset and splitting
/// into whole days and seconds-of-day recovers the date's day number and
/// 12:00:00.
pub proof fn lemma_timestamp_recovers_day(y: int, m: int, d: int)
    requires
        date_valid(y, m, d),
    ensures
        (noon_utc_minus5_seconds(y, m, d) - 18000) / 86400 == days_from_civil(y, m, d),
        (noon_utc_minus5_seconds(y, m, d) - 18000) % 86400 == 43200,
{
    let n = days_from_civil(y, m, d);
    assert(noon_utc_minus5_seconds(y, m, d) - 18000 == n * 86400 + 43200) by (nonlinear_arith)
        requires
            noon_utc_minus5_seconds(y, m, d) == 86400 * n + 61200,
    ;
    vstd::arithmetic::div_mod::lemma_fundamental_div_mod_converse(
        n * 86400 + 43200,
        86400,
        n,
        43200,
    );
}

/// The calendar successor of a valid date.
pub open spec fn next_date(y: int, m: int, d: int) -> (int, int, int) {
    if d < days_in_month(y, m) {
        (y, m, d + 1)
    } else if m < 12 {
        (y, m + 1, 1)
    } else {
        (y + 1, 1, 1)
    }
}

proof fn lemma_feb_mar(y: int)
    requires
        1970 <= y <= 9999,
    ensures
        days_from_civil(y, 3, 1) == days_from_civil(y, 2, days_in_month(y, 2)) + 1,
{
    let e1 = (y - 1) / 400;
    let r1 = (y - 1) % 400;
    let e2 = y / 400;
    let r2 = y % 400;
    vstd::arithmetic::div_mod::lemma_fundamental_div_mod(y - 1, 400);
    vstd::arithmetic::div_mod::lemma_fundamental_div_mod(y, 400);
    vstd::arithmetic::div_mod::lemma_mod_bound(y - 1, 400);
    vstd::arithmetic::div_mod::lemma_mod_bound(y, 400);
    if r1 < 399 {
        assert(r2 == r1 + 1 && e2 == e1) by (nonlinear_arith)
            requires
                y - 1 == 400 * e1 + r1,
                y == 400 * e2 + r2,
                0 <= r1 < 399,
                0 <= r2 < 400,
        ;
        assert(y % 4 == (r1 + 1) % 4 && y % 100 == (r1 + 1) % 100) by (nonlinear_arith)
            requires
                y == 400 * e1 + r1 + 1,
        ;
        assert((r1 + 1) / 4 == r1 / 4 + (if (r1 + 1) % 4 == 0 { 1int } else { 0 })) by (nonlinear_arith)
            requires
                0 <= r1,
        ;
        assert((r1 + 1) / 100 == r1 / 100 + (if (r1 + 1) % 100 == 0 { 1int } else { 0 })) by (nonlinear_arith)
            requires
                0 <= r1,
        ;
        assert(y % 400 != 0) by (nonlinear_arith)
            requires
                y == 400 * e1 + r1 + 1,
                0 <= r1 < 399,
        ;
    } else {
        assert(r2 == 0 && e2 == e1 + 1) by (nonlinear_arith)
            requires
                y - 1 == 400 * e1 + r1,
                y == 400 * e2 + r2,
                r1 == 399,
                0 <= r2 < 400,
        ;
        assert(y % 4 == 0 && y % 100 == 0) by (nonlinear_arith)
            requires
                y == 400 * (e1 + 1),
        ;
    }
}

/// Every valid date's successor lies one day later in the day count.
proof fn lemma_days_from_civil_succ(y: int, m: int, d: int)
    requires
        date_valid(y, m, d),
        !(y == 9999 && m == 12 && d == 31),
    ensures
        days_from_civil(next_date(y, m, d).0, next_date(y, m, d).1, next_date(y, m, d).2)
            == days_from_civil(y, m, d) + 1,
{
    if d < days_in_month(y, m) {
    } else if m < 12 {
        if m == 2 {
            lemma_feb_mar(y);
        }
    }
}

pub open spec fn date_lex_lt(y1: int, m1: int, d1: int, y2: int, m2: int, d2: int) -> bool {
    y1 < y2 || (y1 == y2 && (m1 < m2 || (m1 == m2 && d1 < d2)))
}

/// The day count grows strictly along the calendar order.
proof fn lemma_days_from_civil_monotonic(y1: int, m1: int, d1: int, y2: int, m2: int, d2: int)
    requires
        date_valid(y1, m1, d1),
        date_valid(y2, m2, d2),
        date_lex_lt(y1, m1, d1, y2, m2, d2),
    ensures
        days_from_civil(y1, m1, d1) < days_from_civil(y2, m2, d2),
    decreases y2 * 372 + m2 * 31 + d2,
{
    let (py, pm, pd) = if d2 > 1 {
        (y2, m2, d2 - 1)
    } else if m2 > 1 {
        (y2, m2 - 1, days_in_month(y2, m2 - 1))
    } else {
        (y2 - 1, 12, 31)
    };
    assert(date_valid(py, pm, pd));
    assert(next_date(py, pm, pd) == (y2, m2, d2));
    lemma_days_from_civil_succ(py, pm, pd);
    if y1 == py && m1 == pm && d1 == pd {
    } else {
        assert(date_lex_lt(y1, m1, d1, py, pm, pd));
        lemma_days_from_civil_monotonic(y1, m1, d1, py, pm, pd);
    }
}

/// Law (round trip): the canonical display timestamp determines the stored
/// date. Two valid dates with the same noon-UTC-5 timestamp are the same
/// date; with `lemma_timestamp_recovers_day`, reading a timestamp back at
/// the fixed offset therefore recovers exactly the date that was stored.
pub proof fn lemma_timestamp_identifies_date(
    y1: int,
    m1: int,
    d1: int,
    y2: int,
    m2: int,
    d2: int,
)
    requires
        date_valid(y1, m1, d1),
        date_valid(y2, m2, d2),
        noon_utc_minus5_seconds(y1, m1, d1) == noon_utc_minus5_seconds(y2, m2, d2),
    ensures
        y1 == y2 && m1 == m2 && d1 == d2,
{
    assert(days_from_civil(y1, m1, d1) == days_from_civil(y2, m2, d2));
    if date_lex_lt(y1, m1, d1, y2, m2, d2) {
        lemma_days_from_civil_monotonic(y1, m1, d1, y2, m2, d2);
    } else if date_lex_lt(y2, m2, d2, y1, m1, d1) {
        lemma_days_from_civil_monotonic(y2, m2, d2, y1, m1, d1);
    }
}

/// Produces the week anchors of a search window: `window_weeks` timestamps,
/// the i-th exactly `7 * 86400` seconds after the (i-1)-th, starting at
/// `anchor`.
pub fn week_anchors(anchor: i64, window_weeks: usize) -> (r: Vec<i64>)
    requires
        window_weeks >= 1,
        0 <= anchor,
        anchor + 604800 * (window_weeks as int) <= i64::MAX,
    ensures
        r@.len() == window_weeks,
        forall|i: int| 0 <= i < window_weeks ==> r@[i] == anchor + 604800 * i,
        forall|i: int| 1 <= i < window_weeks ==> #[trigger] r@[i] - r@[i - 1] == 604800,
{
    let mut anchors: Vec<i64> = Vec::new();
    let mut i: usize = 0;
    while i < window_weeks
        invariant
            i <= window_weeks,
            0 <= anchor,
            anchor + 604800 * (window_weeks as int) <= i64::MAX,
            anchors@.len() == i,
            forall|j: int| 0 <= j < i ==> anchors@[j] == anchor + 604800 * j,
        decreases window_weeks - i,
    {
        proof {
            assert(604800 * (i as int) < 604800 * (window_weeks as int)) by (nonlinear_arith)
                requires
                    i < window_weeks,
            ;
            assert(604800 * (i as int) >= 0) by (nonlinear_arith)
                requires
                    i >= 0,
            ;
        }
        anchors.push(anchor + 604800 * (i as i64));
        i = i + 1;
    }
    anchors
}

} // verus!
