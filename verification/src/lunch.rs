use vstd::prelude::*;

verus! {

pub open spec fn matches_at(s: Seq<char>, pat: Seq<char>, i: int) -> bool {
    0 <= i && i + pat.len() <= s.len() && s.subrange(i, i + pat.len()) == pat
}

pub open spec fn contains_seq(s: Seq<char>, pat: Seq<char>) -> bool {
    exists|i: int| matches_at(s, pat, i)
}

/// The number of non-overlapping occurrences of `pat` in `s`, scanning from
/// the left.
pub open spec fn count_occurrences(s: Seq<char>, pat: Seq<char>) -> int
    decreases s.len(),
{
    if pat.len() == 0 || s.len() < pat.len() {
        0
    } else if s.subrange(0, pat.len() as int) == pat {
        1 + count_occurrences(s.skip(pat.len() as int), pat)
    } else {
        count_occurrences(s.skip(1), pat)
    }
}

/// Whether `pat` occurs in `s` starting at position `i`.
fn match_at(s: &str, pat: &str, i: usize) -> (r: bool)
    requires
        i + pat@.len() <= s@.len() <= usize::MAX,
    ensures
        r == matches_at(s@, pat@, i as int),
{
    let m = pat.unicode_len();
    let mut j: usize = 0;
    while j < m
        invariant
            j <= m,
            m == pat@.len(),
            i + m <= s@.len() <= usize::MAX,
            forall|k: int| 0 <= k < j ==> s@[i + k] == pat@[k],
        decreases m - j,
    {
        if s.get_char(i + j) != pat.get_char(j) {
            proof {
                assert(s@.subrange(i as int, i + m)[j as int] != pat@[j as int]);
            }
            return false;
        }
        j = j + 1;
    }
    proof {
        assert(s@.subrange(i as int, i + m) =~= pat@);
    }
    true
}

/// Whether `pat` occurs anywhere in `s`.
pub fn contains_pattern(s: &str, pat: &str) -> (r: bool)
    requires
        pat@.len() >= 1,
    ensures
        r == contains_seq(s@, pat@),
{
    let n = s.unicode_len();
    let m = pat.unicode_len();
    if m > n {
        proof {
            if contains_seq(s@, pat@) {
                let i = choose|i: int| matches_at(s@, pat@, i);
                assert(false);
            }
        }
        return false;
    }
    let mut i: usize = 0;
    while i <= n - m
        invariant
            1 <= m <= n,
            n == s@.len(),
            m == pat@.len(),
            i <= n,
            forall|k: int| 0 <= k < i ==> !matches_at(s@, pat@, k),
        decreases n - i,
    {
        if match_at(s, pat, i) {
            return true;
        }
        i = i + 1;
    }
    proof {
        if contains_seq(s@, pat@) {
            let k = choose|k: int| matches_at(s@, pat@, k);
            assert(false);
        }
    }
    false
}

/// Counts the non-overlapping occurrences of `pat` in `s`, scanning from
/// the left, as the standard library's `matches` does.
pub fn count_matches(s: &str, pat: &str) -> (r: usize)
    requires
        pat@.len() > 0,
    ensures
        r as int == count_occurrences(s@, pat@),
        r <= s@.len(),
{
    let n = s.unicode_len();
    let m = pat.unicode_len();
    if m > n {
        proof {
            assert(count_occurrences(s@, pat@) == 0);
        }
        return 0;
    }
    let mut i: usize = 0;
    let mut cnt: usize = 0;
    proof {
        assert(s@.skip(0) =~= s@);
    }
    while i <= n - m
        invariant
            m == pat@.len(),
            n == s@.len(),
            1 <= m <= n,
            i <= n,
            cnt <= i,
            cnt + count_occurrences(s@.skip(i as int), pat@) == count_occurrences(s@, pat@),
        decreases n - i,
    {
        if match_at(s, pat, i) {
            proof {
                assert(s@.skip(i as int).subrange(0, m as int) =~= s@.subrange(i as int, i + m));
                assert(s@.skip(i as int).skip(m as int) =~= s@.skip(i + m));
            }
            cnt = cnt + 1;
            i = i + m;
        } else {
            proof {
                assert(s@.skip(i as int).subrange(0, m as int) =~= s@.subrange(i as int, i + m));
                assert(s@.skip(i as int).skip(1) =~= s@.skip(i + 1));
            }
            i = i + 1;
        }
    }
    proof {
        assert(s@.skip(i as int).len() < m);
        assert(count_occurrences(s@.skip(i as int), pat@) == 0);
    }
    cnt
}

/// The weekday name patterns looked for in a message, Monday first. The
/// shortened stems match the same messages as the spelled-out names with
/// optional endings: a message contains `tuesday` exactly when it contains
/// `tues`.
pub open spec fn weekday_pattern(i: int) -> Seq<char> {
    if i == 0 {
        "monday"@
    } else if i == 1 {
        "tues"@
    } else if i == 2 {
        "wed"@
    } else if i == 3 {
        "thurs"@
    } else {
        "fri"@
    }
}

/// The first weekday pattern, in Monday-first order, that a message
/// mentions.
pub open spec fn matched_weekday(s: Seq<char>) -> Option<int> {
    if contains_seq(s, weekday_pattern(0)) {
        Some(0)
    } else if contains_seq(s, weekday_pattern(1)) {
        Some(1)
    } else if contains_seq(s, weekday_pattern(2)) {
        Some(2)
    } else if contains_seq(s, weekday_pattern(3)) {
        Some(3)
    } else if contains_seq(s, weekday_pattern(4)) {
        Some(4)
    } else {
        None
    }
}

/// How many days ahead of today the asked-for lunch day lies: the first
/// weekday the message mentions, counted from today's weekday and pushed a
/// week ahead when it has already passed; plus one day for every `tmr` or
/// `tomorrow` in the message.
pub open spec fn target_day_offset_spec(s: Seq<char>, weekday_from_monday: int) -> int {
    let base = match matched_weekday(s) {
        Some(i) => if i - weekday_from_monday < 0 {
            i - weekday_from_monday + 7
        } else {
            i - weekday_from_monday
        },
        None => 0,
    };
    base + count_occurrences(s, "tmr"@) + count_occurrences(s, "tomorrow"@)
}

/// Picks the day a lower-cased message asks about, as days from today.
/// `weekday_from_monday` is today's weekday, 0 for Monday through 6 for
/// Sunday.
pub fn target_day_offset(content: &str, weekday_from_monday: u32) -> (r: i64)
    requires
        weekday_from_monday <= 6,
        content@.len() < 0x2000000000000000,
    ensures
        r as int == target_day_offset_spec(content@, weekday_from_monday as int),
{
    proof {
        reveal_strlit("monday");
        reveal_strlit("tues");
        reveal_strlit("wed");
        reveal_strlit("thurs");
        reveal_strlit("fri");
        reveal_strlit("tmr");
        reveal_strlit("tomorrow");
    }
    let wd = weekday_from_monday as i64;
    let mut days: i64 = 0;
    if contains_pattern(content, "monday") {
        days = 0 - wd;
    } else if contains_pattern(content, "tues") {
        days = 1 - wd;
    } else if contains_pattern(content, "wed") {
        days = 2 - wd;
    } else if contains_pattern(content, "thurs") {
        days = 3 - wd;
    } else if contains_pattern(content, "fri") {
        days = 4 - wd;
    }
    if days < 0 {
        days = days + 7;
    }
    let tmr = count_matches(content, "tmr");
    let tomorrow = count_matches(content, "tomorrow");
    days + (tmr as i64) + (tomorrow as i64)
}

} // verus!
