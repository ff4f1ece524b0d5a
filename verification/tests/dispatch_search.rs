use tenancy_core::guard::RwGuardState;
use tenancy_core::handle::{IndexHandle, IndexMeta};
use tenancy_core::search::{
    get_document_api, get_document_highlight_plan, query_highlight_plan, query_index_api,
};
use tenancy_core::types::{
    query_type_api, similarity_type_api, tokenizer_type_api, AccessType, DocField,
    GetDocumentRequest, Highlight, RankedHit, RawSearchResult, ResultType, SchemaField,
    SearchRequestObject,
};
use tenancy_core::ApiError;

fn meta(id: u64) -> IndexMeta {
    IndexMeta {
        id,
        name: "idx".to_string(),
        similarity: similarity_type_api(),
        tokenizer: tokenizer_type_api(),
        access_type: AccessType::Mmap,
    }
}

fn stored_schema() -> Vec<SchemaField> {
    vec![SchemaField { field: "title".to_string(), stored: true, indexed: true, facet: false }]
}

fn unstored_schema() -> Vec<SchemaField> {
    vec![SchemaField { field: "title".to_string(), stored: false, indexed: true, facet: false }]
}

fn writable_handle(schema: Vec<SchemaField>) -> IndexHandle {
    let mut h = IndexHandle::new(meta(0), schema, Vec::new());
    assert!(h.lock.try_acquire_exclusive());
    h
}

fn request(query: &str, offset: usize, length: usize) -> SearchRequestObject {
    SearchRequestObject {
        query_string: query.to_string(),
        offset,
        length,
        result_type: ResultType::TopkCount,
        realtime: false,
        highlights: Vec::new(),
        field_filter: Vec::new(),
        fields: Vec::new(),
        distance_fields: Vec::new(),
        query_facets: Vec::new(),
        facet_filter: Vec::new(),
        result_sort: Vec::new(),
        query_type_default: query_type_api(),
    }
}

fn title_fields() -> Vec<DocField> {
    vec![DocField { name: "title".to_string(), value: "a book".to_string() }]
}

#[test]
fn readers_coexist_and_writers_exclude() {
    let mut g = RwGuardState::new();
    // Several concurrent searches are all admitted while no writer holds the
    // guard.
    assert!(g.try_acquire_shared());
    assert!(g.try_acquire_shared());
    assert!(g.try_acquire_shared());
    // A commit issued while searches are in flight waits: exclusive access is
    // refused until every reader has released.
    assert!(!g.try_acquire_exclusive());
    g.release_shared();
    g.release_shared();
    g.release_shared();
    assert!(g.try_acquire_exclusive());
    // No search is admitted while the flush runs.
    assert!(!g.try_acquire_shared());
    assert!(!g.try_acquire_exclusive());
    g.release_exclusive();
    assert!(g.try_acquire_shared());
}

#[test]
fn commit_returns_preflush_count() {
    let mut h = writable_handle(stored_schema());
    for _ in 0..5 {
        h.index_document_api(title_fields());
    }
    // Commit reports the count captured just before the flush.
    assert_eq!(h.commit_index_api(), 5);
    assert_eq!(h.indexed_doc_count(), 5);
}

#[test]
fn close_returns_count() {
    let mut h = writable_handle(stored_schema());
    h.index_document_api(title_fields());
    h.index_document_api(title_fields());
    assert_eq!(h.close_index_api(), 2);
    assert!(!h.is_open);
}

#[test]
fn batch_indexing_counts_every_document() {
    let mut h = writable_handle(stored_schema());
    let batch = vec![title_fields(), title_fields(), title_fields()];
    assert_eq!(h.index_documents_api(batch), 3);
    assert_eq!(h.index_document_api(title_fields()), 4);
}

#[test]
fn update_and_delete_documents() {
    let mut h = writable_handle(stored_schema());
    h.index_documents_api(vec![title_fields(), title_fields(), title_fields()]);
    // Updating a live document replaces it: the count is unchanged.
    assert_eq!(h.update_document_api((1, title_fields())), 3);
    assert!(!h.contains_doc(1));
    // Deleting one live document shrinks the count by one.
    assert_eq!(h.delete_document_api(0), 2);
    // Deleting an unknown id changes nothing.
    assert_eq!(h.delete_document_api(99), 2);
    // Batch deletion ignores unknown ids.
    assert_eq!(h.delete_documents_api(&vec![2, 99]), 1);
}

#[test]
fn update_documents_batch_counts() {
    let mut h = writable_handle(stored_schema());
    h.index_documents_api(vec![title_fields(), title_fields()]);
    let r = h.update_documents_api(vec![(0, title_fields()), (1, title_fields())]);
    assert_eq!(r, 2);
}

#[test]
fn delete_by_query_converges() {
    let mut h = writable_handle(stored_schema());
    for _ in 0..10 {
        h.index_document_api(title_fields());
    }
    // The engine matched ids 2, 3 and 5 for some query.
    let matched = vec![2u64, 3, 5];
    assert_eq!(h.delete_documents_by_query_api(&matched), 7);
    // Re-running the identical query has nothing left to match.
    for id in matched {
        assert!(!h.contains_doc(id));
    }
}

#[test]
fn failed_extraction_reports_engine_failure() {
    let mut h = writable_handle(stored_schema());
    let r = h.index_file_api(Err("extraction failed".to_string()));
    assert!(matches!(r, Err(ApiError::EngineFailure(_))));
    assert_eq!(h.indexed_doc_count(), 0);
    assert_eq!(h.index_file_api(Ok(())).unwrap(), 1);
}

#[test]
fn synonyms_roundtrip() {
    let mut h = writable_handle(stored_schema());
    let one = tenancy_core::types::Synonym { terms: vec!["car".to_string(), "auto".to_string()] };
    let two = tenancy_core::types::Synonym { terms: vec!["sea".to_string(), "ocean".to_string()] };
    assert_eq!(h.set_synonyms_api(vec![one, two]).unwrap(), 2);
    let three = tenancy_core::types::Synonym { terms: vec!["big".to_string(), "large".to_string()] };
    assert_eq!(h.add_synonyms_api(vec![three]).unwrap(), 3);
    h.lock.release_exclusive();
    assert!(h.lock.try_acquire_shared());
    assert_eq!(h.get_synonyms_api().len(), 3);
}

#[test]
fn pagination_counts_echo_the_engine() {
    let mut h = IndexHandle::new(meta(0), stored_schema(), Vec::new());
    assert!(h.lock.try_acquire_shared());
    // A corpus with 37 matches, of which the engine returns the first page of
    // ten ranked hits.
    let hits: Vec<RankedHit> =
        (0..10u64).map(|i| RankedHit { doc_id: i, score_bits: 1000 - i }).collect();
    let hydrated: Vec<Option<Vec<DocField>>> = (0..10).map(|_| Some(title_fields())).collect();
    let raw = RawSearchResult {
        hits,
        count_total: 37,
        query_terms: vec!["book".to_string()],
        facets: Vec::new(),
    };
    let res = query_index_api(&h, request("book", 0, 10), raw, hydrated, 4321);
    assert!(res.count <= 10);
    assert_eq!(res.count, 10);
    assert_eq!(res.count_total, 37);
    assert_eq!(res.query, "book");
    assert_eq!(res.offset, 0);
    assert_eq!(res.length, 10);
    assert_eq!(res.time, 4321);
    assert_eq!(res.query_terms, vec!["book".to_string()]);
    assert!(res.suggestions.is_empty());
    // Hits stay in rank order and carry the synthetic id and score fields.
    assert_eq!(res.results.len(), 10);
    assert_eq!(res.results[0].doc_id, 0);
    assert_eq!(res.results[0].score_bits, 1000);
    assert_eq!(res.results[9].doc_id, 9);
}

#[test]
fn failed_hydration_is_dropped_silently() {
    let mut h = IndexHandle::new(meta(0), stored_schema(), Vec::new());
    assert!(h.lock.try_acquire_shared());
    let hits: Vec<RankedHit> =
        (0..3u64).map(|i| RankedHit { doc_id: i, score_bits: 30 - i }).collect();
    // The document behind the second hit was deleted after matching.
    let hydrated = vec![Some(title_fields()), None, Some(title_fields())];
    let raw = RawSearchResult {
        hits,
        count_total: 3,
        query_terms: vec!["book".to_string()],
        facets: Vec::new(),
    };
    let res = query_index_api(&h, request("book", 0, 10), raw, hydrated, 1);
    assert_eq!(res.count, 2);
    assert_eq!(res.count_total, 3);
    assert_eq!(res.results[0].doc_id, 0);
    assert_eq!(res.results[1].doc_id, 2);
}

#[test]
fn index_without_stored_fields_returns_no_documents() {
    let mut h = IndexHandle::new(meta(0), unstored_schema(), Vec::new());
    assert!(h.lock.try_acquire_shared());
    let hits = vec![RankedHit { doc_id: 0, score_bits: 5 }];
    let hydrated = vec![Some(title_fields())];
    let raw = RawSearchResult {
        hits,
        count_total: 1,
        query_terms: Vec::new(),
        facets: Vec::new(),
    };
    let res = query_index_api(&h, request("book", 0, 10), raw, hydrated, 1);
    assert_eq!(res.count, 0);
    assert_eq!(res.count_total, 1);
    assert!(get_document_api(&h, Some(title_fields())).is_none());
    assert!(h.get_file_api(Some(vec![1u8, 2, 3])).is_none());
}

#[test]
fn stored_index_hands_documents_through() {
    let mut h = IndexHandle::new(meta(0), stored_schema(), Vec::new());
    assert!(h.lock.try_acquire_shared());
    let doc = get_document_api(&h, Some(title_fields()));
    assert_eq!(doc.unwrap()[0].value, "a book");
    assert!(get_document_api(&h, None).is_none());
    assert_eq!(h.get_file_api(Some(vec![9u8])).unwrap(), vec![9u8]);
}

#[test]
fn highlight_plans_follow_the_request() {
    let mut h = IndexHandle::new(meta(0), stored_schema(), Vec::new());
    let hl = Highlight {
        field: "title".to_string(),
        fragment_number: 1,
        fragment_size: 100,
        highlight_markup: true,
    };
    let mut req = request("book", 0, 10);
    assert!(!query_highlight_plan(&h, &req));
    req.highlights = vec![hl.clone()];
    assert!(query_highlight_plan(&h, &req));
    h.schema = unstored_schema();
    h.has_stored_fields = false;
    assert!(!query_highlight_plan(&h, &req));

    let mut get_req = GetDocumentRequest {
        query_terms: Vec::new(),
        highlights: vec![hl],
        fields: Vec::new(),
        distance_fields: Vec::new(),
    };
    assert!(!get_document_highlight_plan(&get_req));
    get_req.query_terms = vec!["book".to_string()];
    assert!(get_document_highlight_plan(&get_req));
}
