use vstd::prelude::*;
use crate::fetch::FetchError;
use crate::fetch::Warning;
use crate::fetch::collect_fetch_results;
use crate::fetch::fetch_warnings;
use crate::fetch::lemma_fetch_warnings_phase;
use crate::fetch::ok_payloads;
use crate::fetch::warning_phase;
use crate::index::build_index;
use crate::index::query_parses;
use crate::index::search_results;
use crate::menu::MenuDay;
use crate::menu::weeks_docs;
use crate::query::HitSpec;
use crate::query::RankedHit;
use crate::query::hit_specs;
use crate::query::resolve_all;
use crate::query::run_query;

verus! {

/// What one search invocation hands back: the ranked hits and the warnings
/// accumulated along the way, fetch warnings first, then index warnings,
/// then a search warning if any. Warnings never abort the invocation.
pub struct SearchOutcome {
    pub hits: Vec<RankedHit>,
    pub warnings: Vec<Warning>,
}

/// The two ways a search invocation fails outright rather than degrading:
/// the ephemeral index could not even be created, or the query term was
/// rejected as malformed — distinct from a valid empty result.
#[derive(Clone, Debug)]
pub enum SearchError {
    IndexUnavailable(String),
    InvalidQuery(String),
}

/// The ranked hits an invocation yields when nothing fails along the way: a
/// function of the fetch results, the term and the limit alone.
pub open spec fn clean_hits(
    results: Seq<Result<Vec<MenuDay>, FetchError>>,
    term: Seq<char>,
    limit: int,
) -> Seq<HitSpec> {
    resolve_all(search_results(weeks_docs(ok_payloads(results)), term, limit))
}

/// Runs one search invocation from the joined fetch results: merges them
/// into successes and warnings, builds and commits the ephemeral index, and
/// queries it. Per-week failures, rejected documents, a failed commit and a
/// failed search each degrade to a warning, reported in exactly that order;
/// only a failure to create the index, or a term the engine's parser
/// refuses, aborts. The term is non-empty and trimmed, enforced upstream.
pub fn run_search(
    results: Vec<Result<Vec<MenuDay>, FetchError>>,
    term: &str,
    limit: usize,
) -> (r: Result<SearchOutcome, SearchError>)
    requires
        term@.len() > 0,
    ensures
        r matches Err(SearchError::InvalidQuery(_)) ==> limit >= 1 && !query_parses(term@),
        r matches Ok(_) ==> (limit >= 1 ==> query_parses(term@)),
        r matches Ok(out) ==> {
            &&& out.hits@.len() <= limit
            &&& fetch_warnings(results@).len() <= out.warnings@.len()
            &&& out.warnings@.take(fetch_warnings(results@).len() as int) == fetch_warnings(
                results@,
            )
            &&& (forall|j: int|
                fetch_warnings(results@).len() <= j < out.warnings@.len() ==> warning_phase(
                    #[trigger] out.warnings@[j],
                ) >= 1)
            &&& (forall|j1: int, j2: int|
                0 <= j1 <= j2 < out.warnings@.len() ==> warning_phase(#[trigger] out.warnings@[j1])
                    <= warning_phase(#[trigger] out.warnings@[j2]))
            &&& (out.warnings@.len() == fetch_warnings(results@).len() && limit >= 1
                ==> hit_specs(out.hits@) == clean_hits(results@, term@, limit as int))
            &&& (limit == 0 ==> out.hits@.len() == 0)
        },
{
    let (successes, mut warnings) = collect_fetch_results(results);
    let ghost n_fetch = warnings@.len() as int;
    let pair = match build_index(&successes) {
        Ok(pair) => pair,
        Err(m) => { return Err(SearchError::IndexUnavailable(m)) },
    };
    let ix = pair.0;
    let mut build_warns = pair.1;
    let qpair = match run_query(&ix, term, limit) {
        Ok(qpair) => qpair,
        Err(m) => { return Err(SearchError::InvalidQuery(m)) },
    };
    let hits = qpair.0;
    let mut query_warns = qpair.1;
    let ghost bw = build_warns@;
    let ghost qw = query_warns@;
    warnings.append(&mut build_warns);
    warnings.append(&mut query_warns);
    proof {
        lemma_fetch_warnings_phase(results@);
        let fw = fetch_warnings(results@);
        let ws = warnings@;
        assert(ws == fw + bw + qw);
        assert(ws.take(n_fetch) =~= fw);
        assert forall|j: int| n_fetch <= j < ws.len() implies warning_phase(#[trigger] ws[j])
            >= 1 by {
            if j < n_fetch + bw.len() {
                assert(ws[j] == bw[j - n_fetch]);
            } else {
                assert(ws[j] == qw[j - n_fetch - bw.len()]);
            }
        }
        assert forall|j1: int, j2: int| 0 <= j1 <= j2 < ws.len() implies warning_phase(
            #[trigger] ws[j1],
        ) <= warning_phase(#[trigger] ws[j2]) by {
            if j1 < n_fetch {
                assert(ws[j1] == fw[j1]);
                assert(warning_phase(ws[j1]) == 0);
                if j2 < n_fetch {
                    assert(ws[j2] == fw[j2]);
                } else if j2 < n_fetch + bw.len() {
                    assert(ws[j2] == bw[j2 - n_fetch]);
                } else {
                    assert(ws[j2] == qw[j2 - n_fetch - bw.len()]);
                }
            } else if j1 < n_fetch + bw.len() {
                assert(ws[j1] == bw[j1 - n_fetch]);
                if j2 < n_fetch + bw.len() {
                    assert(ws[j2] == bw[j2 - n_fetch]);
                    if j1 < j2 {
                        assert(bw[j1 - n_fetch] matches Warning::DocumentRejected(_));
                    }
                } else {
                    assert(ws[j2] == qw[j2 - n_fetch - bw.len()]);
                    assert(warning_phase(ws[j2]) == 3);
                }
            } else {
                assert(ws[j1] == qw[j1 - n_fetch - bw.len()]);
                assert(ws[j2] == qw[j2 - n_fetch - bw.len()]);
            }
        }
    }
    Ok(SearchOutcome { hits, warnings })
}

/// Law (idempotence): the pipeline after the fetch join point is a function
/// of the fetch results, the term and the limit alone, so rebuilding the
/// index from the same fetch results and querying the same term twice
/// yields the same ranked hits — contents, dates, timestamps and scores.
/// Two clean outcomes of `run_search` on equal inputs therefore agree.
pub proof fn lemma_search_deterministic(
    results: Seq<Result<Vec<MenuDay>, FetchError>>,
    term: Seq<char>,
    limit: int,
    h1: Seq<HitSpec>,
    h2: Seq<HitSpec>,
)
    requires
        h1 == clean_hits(results, term, limit),
        h2 == clean_hits(results, term, limit),
    ensures
        h1 == h2,
{
}

} // verus!
