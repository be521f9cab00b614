use vstd::prelude::*;
use tantivy::schema::Value;
use crate::fetch::Warning;
use crate::menu::MenuDay;
use crate::menu::build_documents;
use crate::menu::doc_views;
use crate::menu::docs_subsequence;
use crate::menu::lemma_subsequence_push_right;
use crate::menu::weeks_docs;

verus! {

/// One raw ranked match handed back by the full-text engine: its relevance
/// score rendered as text, and the stored fields of the matched document
/// where retrieving them succeeded.
pub struct RawHit {
    pub score: String,
    pub content: Option<String>,
    pub date: Option<String>,
}

pub open spec fn raw_view(h: RawHit) -> (Seq<char>, Option<Seq<char>>, Option<Seq<char>>) {
    (
        h.score@,
        match h.content {
            Some(c) => Some(c@),
            None => None,
        },
        match h.date {
            Some(d) => Some(d@),
            None => None,
        },
    )
}

pub open spec fn raw_views(s: Seq<RawHit>) -> Seq<(Seq<char>, Option<Seq<char>>, Option<Seq<char>>)> {
    s.map_values(|h: RawHit| raw_view(h))
}

/// Why a query produced no ranked matches: the term was rejected as
/// malformed, which is fatal for the call, or the search itself failed,
/// which degrades to a warning and an empty result.
#[derive(Clone, Debug)]
pub enum SearchIssue {
    BadQuery(String),
    Failed(String),
}

/// Every resolved hit carries a document that the index holds.
pub open spec fn hits_from_docs(hits: Seq<RawHit>, docs: Seq<(Seq<char>, Seq<char>)>) -> bool {
    forall|j: int|
        0 <= j < hits.len() ==> match ((#[trigger] hits[j]).content, hits[j].date) {
            (Some(c), Some(d)) => docs.contains((c@, d@)),
            _ => true,
        }
}

/// The add phase of one invocation's index: a single-threaded writer that
/// queues documents in insertion order. `commit` consumes the builder, so
/// every committed index is built by exactly one commit of one insertion
/// sequence — the discipline the search contracts below rest on.
#[verifier::external_body]
pub struct IndexBuilder {
    index: tantivy::Index,
    writer: tantivy::IndexWriter,
    content_field: tantivy::schema::Field,
    date_field: tantivy::schema::Field,
}

/// The committed, immutable full-text index of one search invocation: built
/// fresh from the current fetch results by `IndexBuilder::commit`, queried,
/// then discarded. It wraps tantivy's in-memory index, whose state Verus
/// cannot see; the functions below name what it holds.
#[verifier::external_body]
pub struct MenuIndex {
    index: tantivy::Index,
    content_field: tantivy::schema::Field,
    date_field: tantivy::schema::Field,
}

/// The `(content, date)` documents queued with the builder, in insertion
/// order, not yet visible to queries.
pub uninterp spec fn pending_docs(b: IndexBuilder) -> Seq<(Seq<char>, Seq<char>)>;

/// The `(content, date)` documents a committed index makes visible to
/// queries, in insertion order.
pub uninterp spec fn committed_docs(i: MenuIndex) -> Seq<(Seq<char>, Seq<char>)>;

/// The ranked matches a query finds in a committed index: for each match,
/// its relevance score rendered as text and the engine's address of the
/// matched document, at most `limit` of them, ordered by descending score
/// with ties by insertion order. The exact ranking is the engine's. It is a
/// function of these three arguments alone because every committed index
/// arises from one single-threaded, insertion-ordered commit (the types
/// allow no other build), which fixes the segment layout, the document
/// numbering and the scoring statistics from the documents themselves.
pub uninterp spec fn top_matches(
    docs: Seq<(Seq<char>, Seq<char>)>,
    term: Seq<char>,
    limit: int,
) -> Seq<(Seq<char>, u32, u32)>;

/// Whether an engine address points inside an index built by committing
/// `docs` once: addresses the ranked search hands out are in range, and
/// only in-range addresses may be given back for stored-field retrieval.
pub uninterp spec fn address_in_range(
    docs: Seq<(Seq<char>, Seq<char>)>,
    segment: int,
    doc_id: int,
) -> bool;

/// The stored `(content, date)` pair at an in-range engine address of an
/// index built by committing `docs` once, where both stored fields can be
/// retrieved. Like `top_matches`, a function of its arguments alone under
/// the one-commit build discipline.
pub uninterp spec fn doc_at(
    docs: Seq<(Seq<char>, Seq<char>)>,
    segment: int,
    doc_id: int,
) -> Option<(Seq<char>, Seq<char>)>;

/// Whether the engine's query parser accepts a term. The parser sees only
/// the term, the fixed two-field schema and the default tokenizers, so this
/// is a function of the term alone.
pub uninterp spec fn query_parses(term: Seq<char>) -> bool;

pub open spec fn top_views(s: Seq<(String, u32, u32)>) -> Seq<(Seq<char>, u32, u32)> {
    s.map_values(|p: (String, u32, u32)| (p.0@, p.1, p.2))
}

/// What querying a committed index resolves to before ranks are assigned:
/// each ranked match paired with its stored fields, where they can be
/// retrieved.
pub open spec fn search_results(
    docs: Seq<(Seq<char>, Seq<char>)>,
    term: Seq<char>,
    limit: int,
) -> Seq<(Seq<char>, Option<Seq<char>>, Option<Seq<char>>)> {
    top_matches(docs, term, limit).map_values(
        |t: (Seq<char>, u32, u32)|
            match doc_at(docs, t.1 as int, t.2 as int) {
                Some(p) => (t.0, Some(p.0), Some(p.1)),
                None => (t.0, Option::<Seq<char>>::None, Option::<Seq<char>>::None),
            },
    )
}

impl IndexBuilder {
    /// Relies on tantivy's `Schema` builder, `Index::create_in_ram` and
    /// `Index::writer_with_num_threads`: a fresh in-memory index holds no
    /// documents. The writer gets a single indexing thread, which tantivy
    /// documents as giving a deterministic, insertion-ordered numbering of
    /// documents.
    #[verifier::external_body]
    pub(crate) fn new() -> (r: Result<IndexBuilder, String>)
        ensures
            r matches Ok(b) ==> pending_docs(b) == Seq::<(Seq<char>, Seq<char>)>::empty(),
    {
        let mut builder = tantivy::schema::Schema::builder();
        let content_field = builder.add_text_field(
            "content",
            tantivy::schema::TEXT | tantivy::schema::STORED,
        );
        let date_field = builder.add_text_field("date", tantivy::schema::STORED);
        let index = tantivy::Index::create_in_ram(builder.build());
        match index.writer_with_num_threads(1, 50_000_000) {
            Ok(writer) => Ok(IndexBuilder { index, writer, content_field, date_field }),
            Err(e) => Err(e.to_string()),
        }
    }

    /// Relies on tantivy's `IndexWriter::add_document`: on success the
    /// document joins the pending additions, in insertion order; on failure
    /// (a dead indexing pipeline) nothing was added. Nothing becomes visible
    /// to queries before the commit.
    #[verifier::external_body]
    pub(crate) fn add_document(&mut self, content: &str, date: &str) -> (r: Result<(), String>)
        ensures
            r is Ok ==> pending_docs(*final(self)) == pending_docs(*old(self)).push(
                (content@, date@),
            ),
            r is Err ==> pending_docs(*final(self)) == pending_docs(*old(self)),
    {
        let mut doc = tantivy::TantivyDocument::new();
        doc.add_text(self.content_field, content);
        doc.add_text(self.date_field, date);
        match self.writer.add_document(doc) {
            Ok(_) => Ok(()),
            Err(e) => Err(e.to_string()),
        }
    }

    /// Relies on tantivy's `IndexWriter::commit`: a successful commit
    /// publishes exactly the pending additions, in order, as the committed
    /// index's documents. Consuming the builder here is what guarantees
    /// that no committed index ever sees a second add or commit. After a
    /// failed commit the visible state is deliberately left unclaimed: this
    /// library keeps the policy of searching the index anyway for a
    /// best-effort result.
    #[verifier::external_body]
    pub(crate) fn commit(self) -> (r: (MenuIndex, Result<(), String>))
        ensures
            r.1 is Ok ==> committed_docs(r.0) == pending_docs(self),
    {
        let IndexBuilder { index, mut writer, content_field, date_field } = self;
        let outcome = match writer.commit() {
            Ok(_) => Ok(()),
            Err(e) => Err(e.to_string()),
        };
        (MenuIndex { index, content_field, date_field }, outcome)
    }
}

impl MenuIndex {
    /// Relies on tantivy's `QueryParser::parse_query`, `Index::reader` and
    /// `Searcher::search` with `TopDocs::with_limit(..).order_by_score()`:
    /// whether the term parses depends on the term and the fixed schema
    /// alone, and parsing is the first thing done, so `BadQuery` comes back
    /// exactly when the term does not parse. On success at most `limit`
    /// matches come back, ordered by descending score with ties by
    /// ascending document address, every address inside this index; the
    /// scoring statistics are summed over the whole index, so with the
    /// one-commit build discipline the result is a function of the
    /// committed documents, the term and the limit. `TopDocs::with_limit`
    /// panics on a zero limit, so that is required away.
    #[verifier::external_body]
    fn search_top(&self, term: &str, limit: usize) -> (r: Result<
        Vec<(String, u32, u32)>,
        SearchIssue,
    >)
        requires
            limit >= 1,
        ensures
            (r matches Err(SearchIssue::BadQuery(_))) <==> !query_parses(term@),
            r matches Ok(v) ==> top_views(v@) == top_matches(
                committed_docs(*self),
                term@,
                limit as int,
            ) && v@.len() <= limit && (forall|j: int|
                0 <= j < v@.len() ==> address_in_range(
                    committed_docs(*self),
                    (#[trigger] v@[j]).1 as int,
                    v@[j].2 as int,
                )),
    {
        let parser = tantivy::query::QueryParser::for_index(&self.index, vec![self.content_field]);
        let query = parser.parse_query(term).map_err(|e| SearchIssue::BadQuery(e.to_string()))?;
        let reader = self.index.reader().map_err(|e| SearchIssue::Failed(e.to_string()))?;
        let searcher = reader.searcher();
        let collector = tantivy::collector::TopDocs::with_limit(limit).order_by_score();
        let top = searcher.search(&query, &collector).map_err(|e| SearchIssue::Failed(e.to_string()))?;
        Ok(top.into_iter().map(|(s, a)| (s.to_string(), a.segment_ord, a.doc_id)).collect())
    }

    /// Relies on tantivy's `Index::reader`, `Searcher::doc` and stored-field
    /// retrieval on `TantivyDocument`: what comes back at an in-range
    /// address of the committed index is the stored `(content, date)` pair
    /// of the document there, if both fields can be read, and so is always
    /// a pair the index holds; a failure to reach the index at all is an
    /// error apart. `Searcher::doc` indexes its segment list unchecked and
    /// panics on an out-of-range segment ordinal, so only in-range
    /// addresses — the ones the ranked search hands out — are admitted.
    #[verifier::external_body]
    fn fetch_stored(&self, segment: u32, doc_id: u32) -> (r: Result<
        Option<(String, String)>,
        String,
    >)
        requires
            address_in_range(committed_docs(*self), segment as int, doc_id as int),
        ensures
            match r {
                Ok(Some(p)) => doc_at(committed_docs(*self), segment as int, doc_id as int)
                    == Some((p.0@, p.1@)) && committed_docs(*self).contains((p.0@, p.1@)),
                Ok(None) => doc_at(committed_docs(*self), segment as int, doc_id as int) is None,
                Err(_) => true,
            },
    {
        let searcher = self.index.reader().map_err(|e| e.to_string())?.searcher();
        let addr = tantivy::DocAddress::new(segment, doc_id);
        let doc: tantivy::TantivyDocument = match searcher.doc(addr) {
            Ok(d) => d,
            Err(_) => { return Ok(None); },
        };
        let content = doc.get_first(self.content_field).and_then(|v| v.as_str()).map(|t| t.to_string());
        let date = doc.get_first(self.date_field).and_then(|v| v.as_str()).map(|t| t.to_string());
        match (content, date) {
            (Some(c), Some(d)) => Ok(Some((c, d))),
            _ => Ok(None),
        }
    }

    /// Queries the committed index: finds the ranked matches and retrieves
    /// each one's stored fields, handing back one raw hit per match in rank
    /// order. The term is rejected as `BadQuery` exactly when the engine's
    /// parser refuses it. A failure to reach the index degrades the whole
    /// query, never a single hit; a document whose stored fields cannot be
    /// read yields a raw hit without them, which the caller turns into a
    /// placeholder.
    pub(crate) fn search(&self, term: &str, limit: usize) -> (r: Result<Vec<RawHit>, SearchIssue>)
        requires
            limit >= 1,
        ensures
            (r matches Err(SearchIssue::BadQuery(_))) <==> !query_parses(term@),
            r matches Ok(v) ==> raw_views(v@) == search_results(
                committed_docs(*self),
                term@,
                limit as int,
            ) && v@.len() <= limit && hits_from_docs(v@, committed_docs(*self)),
    {
        let top = match self.search_top(term, limit) {
            Ok(top) => top,
            Err(issue) => { return Err(issue) },
        };
        proof {
            assert(query_parses(term@));
        }
        let ghost tops = top_matches(committed_docs(*self), term@, limit as int);
        let mut out: Vec<RawHit> = Vec::new();
        let mut i: usize = 0;
        while i < top.len()
            invariant
                query_parses(term@),
                i <= top@.len(),
                top_views(top@) == tops,
                tops == top_matches(committed_docs(*self), term@, limit as int),
                forall|j: int|
                    0 <= j < top@.len() ==> address_in_range(
                        committed_docs(*self),
                        (#[trigger] top@[j]).1 as int,
                        top@[j].2 as int,
                    ),
                out@.len() == i,
                forall|j: int|
                    0 <= j < i ==> raw_view(#[trigger] out@[j]) == search_results(
                        committed_docs(*self),
                        term@,
                        limit as int,
                    )[j],
                hits_from_docs(out@, committed_docs(*self)),
            decreases top@.len() - i,
        {
            let entry = &top[i];
            proof {
                let ti = top@[i as int];
                assert(top_views(top@)[i as int] == (ti.0@, ti.1, ti.2));
            }
            let fields = match self.fetch_stored(entry.1, entry.2) {
                Ok(fields) => fields,
                Err(m) => { return Err(SearchIssue::Failed(m)) },
            };
            let hit = match fields {
                Some(pair) => RawHit {
                    score: entry.0.clone(),
                    content: Some(pair.0),
                    date: Some(pair.1),
                },
                None => RawHit { score: entry.0.clone(), content: None, date: None },
            };
            out.push(hit);
            i = i + 1;
        }
        proof {
            assert(raw_views(out@) =~= search_results(committed_docs(*self), term@, limit as int));
        }
        Ok(out)
    }
}

/// Builds and commits the ephemeral index of one invocation from the
/// successfully fetched weeks, in two phases. Add phase: every
/// (day, item-with-food) pair becomes one document; a rejected document
/// becomes a warning and the remaining documents are still added, so what
/// is committed stays, in order, a subsequence of the full document list.
/// Commit phase: one commit; a failed commit also becomes a warning — the
/// last one — and the caller searches whatever the index then holds. Only a
/// failure to create the index at all aborts.
pub fn build_index(weeks: &Vec<Vec<MenuDay>>) -> (r: Result<(MenuIndex, Vec<Warning>), String>)
    ensures
        r matches Ok((ix, warns)) ==> {
            &&& (warns@.len() == 0 ==> committed_docs(ix) == weeks_docs(weeks@))
            &&& ((forall|j: int|
                0 <= j < warns@.len() ==> #[trigger] warns@[j] matches Warning::DocumentRejected(_))
                ==> committed_docs(ix).len() + warns@.len() == weeks_docs(weeks@).len()
                    && docs_subsequence(committed_docs(ix), weeks_docs(weeks@)))
            &&& (forall|j: int|
                0 <= j < warns@.len() ==> (#[trigger] warns@[j] matches Warning::DocumentRejected(_)
                    || warns@[j] matches Warning::CommitFailed(_)))
            &&& forall|j: int|
                0 <= j < warns@.len() - 1 ==> #[trigger] warns@[j] matches Warning::DocumentRejected(_)
        },
{
    let docs = build_documents(weeks);
    let mut builder = match IndexBuilder::new() {
        Ok(builder) => builder,
        Err(m) => { return Err(m) },
    };
    let mut warnings: Vec<Warning> = Vec::new();
    let mut i: usize = 0;
    while i < docs.len()
        invariant
            i <= docs@.len(),
            doc_views(docs@) == weeks_docs(weeks@),
            pending_docs(builder).len() + warnings@.len() == i,
            warnings@.len() == 0 ==> pending_docs(builder) == doc_views(docs@).take(i as int),
            docs_subsequence(pending_docs(builder), doc_views(docs@).take(i as int)),
            forall|j: int|
                0 <= j < warnings@.len() ==> #[trigger] warnings@[j] matches Warning::DocumentRejected(_),
        decreases docs@.len() - i,
    {
        let d = &docs[i];
        let ghost pre = pending_docs(builder);
        proof {
            assert(doc_views(docs@)[i as int] == (docs@[i as int].content@, docs@[i as int].date@));
            assert(doc_views(docs@).take(i + 1) =~= doc_views(docs@).take(i as int).push(
                doc_views(docs@)[i as int],
            ));
        }
        match builder.add_document(d.content.as_str(), d.date.as_str()) {
            Ok(_) => {
                proof {
                    let dv = doc_views(docs@)[i as int];
                    assert(pending_docs(builder) == pre.push(dv));
                    assert(pre.push(dv).drop_last() =~= pre);
                    assert(doc_views(docs@).take(i as int).push(dv).drop_last() =~= doc_views(
                        docs@,
                    ).take(i as int));
                    assert(docs_subsequence(pending_docs(builder), doc_views(docs@).take(i + 1)));
                }
            },
            Err(m) => {
                warnings.push(Warning::DocumentRejected(m));
                proof {
                    lemma_subsequence_push_right(
                        pre,
                        doc_views(docs@).take(i as int),
                        doc_views(docs@)[i as int],
                    );
                }
            },
        }
        i = i + 1;
    }
    proof {
        assert(doc_views(docs@).take(docs@.len() as int) =~= doc_views(docs@));
    }
    let ghost pre_pending = pending_docs(builder);
    let committed = builder.commit();
    let ix = committed.0;
    match committed.1 {
        Ok(_) => {
            proof {
                assert(committed_docs(ix) == pre_pending);
            }
        },
        Err(m) => {
            warnings.push(Warning::CommitFailed(m));
            proof {
                assert(warnings@.last() matches Warning::CommitFailed(_));
            }
        },
    }
    Ok((ix, warnings))
}

} // verus!
