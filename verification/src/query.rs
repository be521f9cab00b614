use vstd::prelude::*;
use crate::dates::date_to_timestamp;
use crate::dates::noon_utc_minus5_seconds;
use crate::dates::parse_date;
use crate::dates::parse_date_spec;
use crate::fetch::Warning;
use crate::index::MenuIndex;
use crate::index::RawHit;
use crate::index::SearchIssue;
use crate::index::committed_docs;
use crate::index::query_parses;
use crate::index::raw_view;
use crate::index::raw_views;
use crate::index::search_results;

verus! {

/// One ranked result: a resolved document — rank, food name, stored date,
/// canonical display timestamp (noon at the fixed UTC-5 offset of that
/// date) and relevance score rendered as text — or, where the stored
/// document could not be resolved at query time, a placeholder carrying an
/// error message at that rank, leaving the other hits unaffected.
pub enum RankedHit {
    Resolved { rank: usize, content: String, date: String, timestamp: i64, score: String },
    Unresolved { rank: usize, message: String },
}

/// The ghost shape of one ranked result.
pub enum HitSpec {
    Resolved { rank: int, content: Seq<char>, date: Seq<char>, timestamp: int, score: Seq<char> },
    Unresolved { rank: int, message: Seq<char> },
}

pub open spec fn hit_spec_of(h: RankedHit) -> HitSpec {
    match h {
        RankedHit::Resolved { rank, content, date, timestamp, score } => HitSpec::Resolved {
            rank: rank as int,
            content: content@,
            date: date@,
            timestamp: timestamp as int,
            score: score@,
        },
        RankedHit::Unresolved { rank, message } => HitSpec::Unresolved {
            rank: rank as int,
            message: message@,
        },
    }
}

pub open spec fn hit_specs(s: Seq<RankedHit>) -> Seq<HitSpec> {
    s.map_values(|h: RankedHit| hit_spec_of(h))
}

pub open spec fn unresolved_message() -> Seq<char> {
    "error retrieving document"@
}

/// What one raw match resolves to at a given rank: the stored date combined
/// with the fixed offset, or the placeholder when a field is missing or the
/// stored date is not a valid `yyyy-mm-dd` date.
pub open spec fn resolve_raw(
    rank: int,
    rv: (Seq<char>, Option<Seq<char>>, Option<Seq<char>>),
) -> HitSpec {
    match (rv.1, rv.2) {
        (Some(content), Some(date)) => match parse_date_spec(date) {
            Some(d) => HitSpec::Resolved {
                rank,
                content,
                date,
                timestamp: noon_utc_minus5_seconds(d.year as int, d.month as int, d.day as int),
                score: rv.0,
            },
            None => HitSpec::Unresolved { rank, message: unresolved_message() },
        },
        _ => HitSpec::Unresolved { rank, message: unresolved_message() },
    }
}

/// The final result set of a query: each raw match resolved at its rank.
pub open spec fn resolve_all(
    raws: Seq<(Seq<char>, Option<Seq<char>>, Option<Seq<char>>)>,
) -> Seq<HitSpec> {
    Seq::new(raws.len(), |j: int| resolve_raw(j, raws[j]))
}

/// Resolves the raw ranked matches into the final result set, rank by
/// position: the stored date is combined with the fixed offset into the
/// display timestamp; an unresolvable document yields a placeholder at its
/// rank rather than aborting the result set.
pub fn resolve_hits(raw: &Vec<RawHit>) -> (r: Vec<RankedHit>)
    ensures
        r@.len() == raw@.len(),
        hit_specs(r@) == resolve_all(raw_views(raw@)),
{
    let mut out: Vec<RankedHit> = Vec::new();
    let mut i: usize = 0;
    while i < raw.len()
        invariant
            i <= raw@.len(),
            out@.len() == i,
            forall|j: int|
                0 <= j < i ==> hit_spec_of(#[trigger] out@[j]) == resolve_raw(
                    j,
                    raw_view(raw@[j]),
                ),
        decreases raw@.len() - i,
    {
        let h = &raw[i];
        let hit = match (&h.content, &h.date) {
            (Some(c), Some(d)) => match parse_date(d.as_str()) {
                Some(cd) => RankedHit::Resolved {
                    rank: i,
                    content: c.clone(),
                    date: d.clone(),
                    timestamp: date_to_timestamp(&cd),
                    score: h.score.clone(),
                },
                None => RankedHit::Unresolved {
                    rank: i,
                    message: String::from_str("error retrieving document"),
                },
            },
            _ => RankedHit::Unresolved {
                rank: i,
                message: String::from_str("error retrieving document"),
            },
        };
        out.push(hit);
        i = i + 1;
    }
    proof {
        assert(hit_specs(out@) =~= resolve_all(raw_views(raw@)));
    }
    out
}

/// Runs the free-text query against the committed index: at most `limit`
/// hits, ranked by descending relevance with ties by insertion order, each
/// resolved into its stored fields and display timestamp, or into a
/// placeholder where resolution fails. A term the engine's parser refuses
/// is fatal for the call — exactly then does the call fail — distinct from
/// a valid empty result; a failed search degrades to an empty result with
/// one warning; a zero limit yields no hits without consulting the engine.
/// The term is non-empty and trimmed, enforced upstream.
pub fn run_query(ix: &MenuIndex, term: &str, limit: usize) -> (r: Result<
    (Vec<RankedHit>, Vec<Warning>),
    String,
>)
    requires
        term@.len() > 0,
    ensures
        r is Err <==> limit >= 1 && !query_parses(term@),
        r matches Ok((hits, warns)) ==> {
            &&& hits@.len() <= limit
            &&& warns@.len() <= 1
            &&& (forall|j: int|
                0 <= j < warns@.len() ==> #[trigger] warns@[j] matches Warning::SearchFailed(_))
            &&& (warns@.len() == 0 && limit >= 1 ==> hit_specs(hits@) == resolve_all(
                search_results(committed_docs(*ix), term@, limit as int),
            ))
            &&& (limit == 0 ==> hits@.len() == 0 && warns@.len() == 0)
        },
{
    if limit == 0 {
        return Ok((Vec::new(), Vec::new()));
    }
    match ix.search(term, limit) {
        Ok(raw) => {
            let hits = resolve_hits(&raw);
            Ok((hits, Vec::new()))
        },
        Err(SearchIssue::BadQuery(m)) => Err(m),
        Err(SearchIssue::Failed(m)) => {
            let mut warns: Vec<Warning> = Vec::new();
            warns.push(Warning::SearchFailed(m));
            Ok((Vec::new(), warns))
        },
    }
}

} // verus!
