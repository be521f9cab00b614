use vstd::prelude::*;
use crate::menu::MenuDay;
use crate::menu::MenuItem;

verus! {

/// The closed set of ways a weekly fetch can fail, independent of any
/// particular HTTP client; the caller maps its transport errors into these.
#[derive(Clone, Debug)]
pub enum FetchError {
    Network(String),
    Parse(String),
    HttpStatus(u16),
    NoLunchForDate(String),
}

/// A non-fatal, reportable partial failure: one week's fetch failed, one
/// document could not be added, the commit failed, or the committed index
/// could not be searched. Warnings never abort the invocation.
#[derive(Clone, Debug)]
pub enum Warning {
    FetchFailed(FetchError),
    DocumentRejected(String),
    CommitFailed(String),
    SearchFailed(String),
}

pub open spec fn fetch_error_text(e: FetchError) -> Seq<char> {
    match e {
        FetchError::Network(d) => "network error: "@ + d@,
        FetchError::Parse(d) => "parse error: "@ + d@,
        FetchError::HttpStatus(_) => "received non-success status code"@,
        FetchError::NoLunchForDate(d) => "no lunch found for date "@ + d@,
    }
}

pub open spec fn warning_text(w: Warning) -> Seq<char> {
    match w {
        Warning::FetchFailed(e) => "failed to fetch a week of lunch, result may be missing entries: "@
            + fetch_error_text(e),
        Warning::DocumentRejected(d) => "failed to add document to index, result may be missing entries: "@
            + d@,
        Warning::CommitFailed(d) => "failed to commit index, result may be missing entries: "@
            + d@,
        Warning::SearchFailed(d) => "failed to search index, result may be empty: "@ + d@,
    }
}

impl FetchError {
    /// A human-readable rendering of the failure.
    pub fn message(&self) -> (r: String)
        ensures
            r@ == fetch_error_text(*self),
    {
        match self {
            FetchError::Network(d) => {
                let mut s = String::from_str("network error: ");
                s.append(d.as_str());
                s
            },
            FetchError::Parse(d) => {
                let mut s = String::from_str("parse error: ");
                s.append(d.as_str());
                s
            },
            FetchError::HttpStatus(_) => String::from_str("received non-success status code"),
            FetchError::NoLunchForDate(d) => {
                let mut s = String::from_str("no lunch found for date ");
                s.append(d.as_str());
                s
            },
        }
    }
}

impl Warning {
    /// A human-readable rendering of the partial failure, for best-effort
    /// display alongside the results.
    pub fn message(&self) -> (r: String)
        ensures
            r@ == warning_text(*self),
    {
        match self {
            Warning::FetchFailed(e) => {
                let mut s = String::from_str(
                    "failed to fetch a week of lunch, result may be missing entries: ",
                );
                let detail = e.message();
                s.append(detail.as_str());
                s
            },
            Warning::DocumentRejected(d) => {
                let mut s = String::from_str(
                    "failed to add document to index, result may be missing entries: ",
                );
                s.append(d.as_str());
                s
            },
            Warning::CommitFailed(d) => {
                let mut s = String::from_str(
                    "failed to commit index, result may be missing entries: ",
                );
                s.append(d.as_str());
                s
            },
            Warning::SearchFailed(d) => {
                let mut s = String::from_str("failed to search index, result may be empty: ");
                s.append(d.as_str());
                s
            },
        }
    }
}

/// The payloads of the successful fetches, in the order the results were
/// handed in. Completion order across fetch tasks is unspecified, so no
/// ordering among the weeks is assumed beyond the order of this sequence.
pub open spec fn ok_payloads(results: Seq<Result<Vec<MenuDay>, FetchError>>) -> Seq<Vec<MenuDay>>
    decreases results.len(),
{
    if results.len() == 0 {
        Seq::empty()
    } else {
        let rest = ok_payloads(results.drop_last());
        match results.last() {
            Ok(w) => rest.push(w),
            Err(_) => rest,
        }
    }
}

/// One warning per failed fetch, in the order the results were handed in.
pub open spec fn fetch_warnings(results: Seq<Result<Vec<MenuDay>, FetchError>>) -> Seq<Warning>
    decreases results.len(),
{
    if results.len() == 0 {
        Seq::empty()
    } else {
        let rest = fetch_warnings(results.drop_last());
        match results.last() {
            Ok(_) => rest,
            Err(e) => rest.push(Warning::FetchFailed(e)),
        }
    }
}

/// The stage of the invocation a warning comes from: failed fetches first,
/// then rejected documents, then a failed commit, then a failed search.
/// An invocation's warnings are reported in this order.
pub open spec fn warning_phase(w: Warning) -> int {
    match w {
        Warning::FetchFailed(_) => 0,
        Warning::DocumentRejected(_) => 1,
        Warning::CommitFailed(_) => 2,
        Warning::SearchFailed(_) => 3,
    }
}

/// Every warning the merge produces reports a failed fetch.
pub proof fn lemma_fetch_warnings_phase(results: Seq<Result<Vec<MenuDay>, FetchError>>)
    ensures
        forall|j: int|
            0 <= j < fetch_warnings(results).len() ==> warning_phase(
                #[trigger] fetch_warnings(results)[j],
            ) == 0,
    decreases results.len(),
{
    if results.len() > 0 {
        lemma_fetch_warnings_phase(results.drop_last());
        assert(forall|j: int|
            0 <= j < fetch_warnings(results.drop_last()).len() ==> #[trigger] fetch_warnings(
                results,
            )[j] == fetch_warnings(results.drop_last())[j]);
    }
}

/// Law: merging splits the fetch results exactly: every success is kept and
/// every failure becomes one warning, so the counts add up to the number of
/// fetches.
pub proof fn lemma_collect_counts(results: Seq<Result<Vec<MenuDay>, FetchError>>)
    ensures
        ok_payloads(results).len() + fetch_warnings(results).len() == results.len(),
    decreases results.len(),
{
    if results.len() > 0 {
        lemma_collect_counts(results.drop_last());
    }
}

/// Law: when every weekly fetch succeeds, the merge produces no warnings and
/// keeps every fetched week, in order.
pub proof fn lemma_all_fetches_succeed(results: Seq<Result<Vec<MenuDay>, FetchError>>)
    requires
        forall|i: int| 0 <= i < results.len() ==> results[i] is Ok,
    ensures
        fetch_warnings(results).len() == 0,
        ok_payloads(results).len() == results.len(),
        forall|i: int|
            0 <= i < results.len() ==> #[trigger] ok_payloads(results)[i] == results[i]->Ok_0,
    decreases results.len(),
{
    if results.len() > 0 {
        lemma_all_fetches_succeed(results.drop_last());
        assert(results.last() is Ok);
        assert(forall|i: int|
            0 <= i < results.len() - 1 ==> #[trigger] ok_payloads(results)[i] == ok_payloads(
                results.drop_last(),
            )[i]);
    }
}

/// Law: when exactly one weekly fetch fails, the merge yields exactly one
/// warning, for that failure, and keeps exactly the other weeks, in order.
pub proof fn lemma_one_fetch_fails(results: Seq<Result<Vec<MenuDay>, FetchError>>, k: int)
    requires
        0 <= k < results.len(),
        results[k] is Err,
        forall|i: int| 0 <= i < results.len() && i != k ==> results[i] is Ok,
    ensures
        fetch_warnings(results).len() == 1,
        fetch_warnings(results)[0] == Warning::FetchFailed(results[k]->Err_0),
        ok_payloads(results).len() == results.len() - 1,
        forall|i: int| 0 <= i < k ==> #[trigger] ok_payloads(results)[i] == results[i]->Ok_0,
        forall|i: int|
            k <= i < results.len() - 1 ==> #[trigger] ok_payloads(results)[i] == results[i
                + 1]->Ok_0,
    decreases results.len(),
{
    if k == results.len() - 1 {
        lemma_all_fetches_succeed(results.drop_last());
    } else {
        lemma_one_fetch_fails(results.drop_last(), k);
        assert(results.last() is Ok);
        assert(forall|i: int|
            0 <= i < results.len() - 2 ==> #[trigger] ok_payloads(results.drop_last())[i]
                == ok_payloads(results)[i]);
        assert(ok_payloads(results).last() == results.last()->Ok_0);
    }
}

/// Merges the per-week fetch outcomes, whatever order they completed in:
/// successes are collected for indexing, each failure becomes one warning,
/// and no failure aborts the merge.
pub fn collect_fetch_results(results: Vec<Result<Vec<MenuDay>, FetchError>>) -> (r: (
    Vec<Vec<MenuDay>>,
    Vec<Warning>,
))
    ensures
        r.0@ == ok_payloads(results@),
        r.1@ == fetch_warnings(results@),
{
    let ghost orig = results@;
    let mut rest = results;
    let mut successes: Vec<Vec<MenuDay>> = Vec::new();
    let mut warnings: Vec<Warning> = Vec::new();
    let ghost mut p: int = 0;
    while rest.len() > 0
        invariant
            0 <= p <= orig.len(),
            rest@ == orig.skip(p),
            successes@ == ok_payloads(orig.take(p)),
            warnings@ == fetch_warnings(orig.take(p)),
        decreases rest@.len(),
    {
        let item = rest.remove(0);
        proof {
            assert(orig.skip(p)[0] == orig[p]);
            assert(item == orig[p]);
            assert(rest@ =~= orig.skip(p + 1));
            assert(orig.take(p + 1).drop_last() =~= orig.take(p));
            assert(orig.take(p + 1).last() == orig[p]);
        }
        match item {
            Ok(week) => successes.push(week),
            Err(e) => warnings.push(Warning::FetchFailed(e)),
        }
        proof {
            p = p + 1;
        }
    }
    proof {
        assert(orig.take(orig.len() as int) =~= orig);
    }
    (successes, warnings)
}

/// The position of the first day of a fetched week carrying the wanted
/// date, if any.
pub open spec fn find_day_index_spec(week: Seq<MenuDay>, date: Seq<char>) -> Option<int>
    decreases week.len(),
{
    if week.len() == 0 {
        None
    } else if week.first().date@ == date {
        Some(0)
    } else {
        match find_day_index_spec(week.drop_first(), date) {
            Some(i) => Some(i + 1),
            None => None,
        }
    }
}

proof fn lemma_find_day_at(week: Seq<MenuDay>, date: Seq<char>, i: int)
    requires
        0 <= i < week.len(),
        week[i].date@ == date,
        forall|j: int| 0 <= j < i ==> (#[trigger] week[j]).date@ != date,
    ensures
        find_day_index_spec(week, date) == Some(i),
    decreases i,
{
    if i == 0 {
    } else {
        assert(week.first().date@ != date);
        assert(week.drop_first()[i - 1] == week[i]);
        assert(forall|j: int|
            0 <= j < i - 1 ==> (#[trigger] week.drop_first()[j]).date@ != date) by {
            assert(forall|j: int|
                0 <= j < i - 1 ==> #[trigger] week.drop_first()[j] == week[j + 1]);
        }
        lemma_find_day_at(week.drop_first(), date, i - 1);
    }
}

proof fn lemma_find_day_none(week: Seq<MenuDay>, date: Seq<char>)
    requires
        forall|j: int| 0 <= j < week.len() ==> (#[trigger] week[j]).date@ != date,
    ensures
        find_day_index_spec(week, date) is None,
    decreases week.len(),
{
    if week.len() > 0 {
        assert(week.first().date@ != date);
        assert(forall|j: int|
            0 <= j < week.len() - 1 ==> #[trigger] week.drop_first()[j] == week[j + 1]);
        lemma_find_day_none(week.drop_first(), date);
    }
}

/// Compares two strings by their characters.
pub fn str_eq(a: &str, b: &str) -> (r: bool)
    ensures
        r == (a@ == b@),
{
    let n = a.unicode_len();
    if n != b.unicode_len() {
        return false;
    }
    let mut i: usize = 0;
    while i < n
        invariant
            i <= n,
            n == a@.len(),
            n == b@.len(),
            forall|j: int| 0 <= j < i ==> a@[j] == b@[j],
        decreases n - i,
    {
        if a.get_char(i) != b.get_char(i) {
            return false;
        }
        i = i + 1;
    }
    proof {
        assert(a@ =~= b@);
    }
    true
}

/// Takes the menu items of the first day with the given `yyyy-mm-dd` date
/// out of a fetched week; when the week has no such day, that date has no
/// lunch, the week is left unchanged and the lookup fails with exactly that
/// error.
pub fn take_day(week: &mut Vec<MenuDay>, date_str: &str) -> (r: Result<Vec<MenuItem>, FetchError>)
    ensures
        match r {
            Ok(items) => find_day_index_spec(old(week)@, date_str@) matches Some(i) && items@
                == old(week)@[i].menu_items@ && final(week)@ == old(week)@.remove(i),
            Err(e) => find_day_index_spec(old(week)@, date_str@) is None && final(week)@ == old(
                week,
            )@ && (e matches FetchError::NoLunchForDate(s) && s@ == date_str@),
        },
{
    let n = week.len();
    let mut idx: usize = 0;
    while idx < n
        invariant
            idx <= n,
            n == week@.len(),
            week@ == old(week)@,
            forall|j: int| 0 <= j < idx ==> (#[trigger] week@[j]).date@ != date_str@,
        decreases n - idx,
    {
        if str_eq(week[idx].date.as_str(), date_str) {
            proof {
                lemma_find_day_at(week@, date_str@, idx as int);
            }
            let day = week.remove(idx);
            return Ok(day.menu_items);
        }
        idx = idx + 1;
    }
    proof {
        lemma_find_day_none(week@, date_str@);
    }
    Err(FetchError::NoLunchForDate(date_str.to_owned()))
}

} // verus!
