//! Query execution and result hydration.
//!
//! A search runs under shared access: the engine executes the query and hands
//! back raw ranked hits, the total matching count, the resolved query terms
//! and the facet aggregates; the caller then fetches the stored fields of
//! each hit — in rank order, honoring the field projection — and this module
//! assembles the response.  A hit whose hydration failed (its document may
//! have been deleted after matching) is dropped silently rather than failing
//! the whole call.  Every hydrated hit carries two synthetic fields, the
//! internal document id and the relevance score; the suggestion list is a
//! placeholder and always empty.
use vstd::prelude::*;

use crate::handle::IndexHandle;
use crate::types::{
    DocField, GetDocumentRequest, HydratedDoc, RankedHit, RawSearchResult, SearchRequestObject,
    SearchResultObject,
};

verus! {

/// The hits that survive hydration, in rank order: for each hit whose stored
/// fields were fetched, the fields together with the hit's document id and
/// score; a hit whose fetch failed is dropped.
pub open spec fn hydrate_seq(
    hits: Seq<RankedHit>,
    fetched: Seq<Option<Vec<DocField>>>,
) -> Seq<HydratedDoc>
    recommends
        hits.len() == fetched.len(),
    decreases hits.len(),
{
    if hits.len() == 0 {
        Seq::empty()
    } else {
        let prefix = hydrate_seq(hits.drop_last(), fetched.drop_last());
        match fetched.last() {
            Some(fields) => prefix.push(
                HydratedDoc {
                    doc_id: hits.last().doc_id,
                    score_bits: hits.last().score_bits,
                    fields,
                },
            ),
            None => prefix,
        }
    }
}

/// Whether the query path computes highlights: only an index with stored
/// content hydrates, and only a request with highlight specs snippets — using
/// the resolved query terms, not the raw input.
pub fn query_highlight_plan(handle: &IndexHandle, search_request: &SearchRequestObject) -> (r:
    bool)
    ensures
        r <==> (handle.has_stored_fields && search_request.highlights@.len() > 0),
{
    handle.has_stored_fields && search_request.highlights.len() > 0
}

/// Whether a single-document fetch computes highlights: only when the request
/// carries both highlight specs and query terms.
pub fn get_document_highlight_plan(request: &GetDocumentRequest) -> (r: bool)
    ensures
        r <==> (request.highlights@.len() > 0 && request.query_terms@.len() > 0),
{
    request.highlights.len() > 0 && request.query_terms.len() > 0
}

/// Fetch one stored document under shared access: the caller's fetch outcome
/// is returned as is when the index retains stored content, and absent
/// otherwise — an index without stored fields never resolves a document.
pub fn get_document_api(handle: &IndexHandle, fetched: Option<Vec<DocField>>) -> (r: Option<
    Vec<DocField>,
>)
    requires
        handle.lock.read_locked(),
    ensures
        handle.has_stored_fields ==> r == fetched,
        !handle.has_stored_fields ==> r is None,
{
    if handle.has_stored_fields {
        fetched
    } else {
        None
    }
}

/// Assemble a search response under shared access.
///
/// `raw` is what the engine's query execution returned (at most one page of
/// hits, so no more than `search_request.length`); `hydrated` holds, per hit
/// and in rank order, the outcome of fetching its stored fields; and
/// `elapsed_time` is the query's duration in nanoseconds.  The response
/// echoes the query and pagination, reports the total matching count beside
/// the returned count, keeps the surviving hits in rank order with their
/// synthetic id and score fields, and leaves the suggestion list empty.  An
/// index without stored fields returns no hydrated results at all.
pub fn query_index_api(
    handle: &IndexHandle,
    search_request: SearchRequestObject,
    raw: RawSearchResult,
    hydrated: Vec<Option<Vec<DocField>>>,
    elapsed_time: u128,
) -> (r: SearchResultObject)
    requires
        handle.lock.read_locked(),
        hydrated@.len() == raw.hits@.len(),
        raw.hits@.len() <= search_request.length,
        raw.hits@.len() <= raw.count_total,
    ensures
        r.query == search_request.query_string,
        r.time == elapsed_time,
        r.offset == search_request.offset,
        r.length == search_request.length,
        r.count == r.results@.len(),
        r.count <= raw.hits@.len() && r.count <= search_request.length,
        r.count <= r.count_total,
        r.count_total == raw.count_total,
        r.query_terms == raw.query_terms,
        r.facets == raw.facets,
        r.suggestions@.len() == 0,
        handle.has_stored_fields ==> r.results@ == hydrate_seq(raw.hits@, hydrated@),
        !handle.has_stored_fields ==> r.results@.len() == 0,
{
    let mut results: Vec<HydratedDoc> = Vec::new();
    if handle.has_stored_fields {
        let n = raw.hits.len();
        let mut pending = hydrated;
        let mut idx: usize = 0;
        while idx < n
            invariant
                idx <= n,
                n == raw.hits@.len(),
                n == hydrated@.len(),
                pending@ == hydrated@.subrange(idx as int, n as int),
                results@ == hydrate_seq(
                    raw.hits@.subrange(0, idx as int),
                    hydrated@.subrange(0, idx as int),
                ),
                results@.len() <= idx,
            decreases n - idx,
        {
            let fetched = pending.remove(0);
            proof {
                assert(fetched == hydrated@[idx as int]);
                assert(pending@ =~= hydrated@.subrange(idx as int + 1, n as int));
                let hits_next = raw.hits@.subrange(0, idx as int + 1);
                let fetched_next = hydrated@.subrange(0, idx as int + 1);
                assert(hits_next.drop_last() =~= raw.hits@.subrange(0, idx as int));
                assert(fetched_next.drop_last() =~= hydrated@.subrange(0, idx as int));
                assert(hits_next.last() == raw.hits@[idx as int]);
                assert(fetched_next.last() == hydrated@[idx as int]);
            }
            match fetched {
                Some(fields) => {
                    let doc = HydratedDoc {
                        doc_id: raw.hits[idx].doc_id,
                        score_bits: raw.hits[idx].score_bits,
                        fields,
                    };
                    results.push(doc);
                },
                None => {},
            }
            idx = idx + 1;
        }
        proof {
            assert(raw.hits@.subrange(0, n as int) =~= raw.hits@);
            assert(hydrated@.subrange(0, n as int) =~= hydrated@);
        }
    }
    let count = results.len();
    SearchResultObject {
        time: elapsed_time,
        query: search_request.query_string,
        offset: search_request.offset,
        length: search_request.length,
        count,
        count_total: raw.count_total,
        query_terms: raw.query_terms,
        results,
        facets: raw.facets,
        suggestions: Vec::new(),
    }
}

} // verus!
