//! Plain data model of the requests, responses and index configuration that
//! the core works with.
//!
//! The engine collaborator has richer types of its own (scores are floats,
//! facet aggregates sit in hash maps, geo points carry float coordinates);
//! the core only routes those values, so each is modeled here by the plain
//! values the core reads: a score as its bit pattern, a coordinate scaled to
//! microdegrees, an aggregate as an ordered list.  The boundary layer
//! converts in both directions.
use vstd::prelude::*;

verus! {

/// How the terms of a query combine.
#[derive(Debug, Clone, Copy, PartialEq, Eq, Structural)]
pub enum QueryType {
    Union,
    Intersection,
    Phrase,
    Not,
}

/// Ranking variant an index was created with.
#[derive(Debug, Clone, Copy, PartialEq, Eq, Structural)]
pub enum SimilarityType {
    Bm25f,
    Bm25fProximity,
}

/// Tokenizer variant an index was created with.
#[derive(Debug, Clone, Copy, PartialEq, Eq, Structural)]
pub enum TokenizerType {
    AsciiAlphabetic,
    UnicodeAlphanumeric,
    UnicodeAlphanumericFolded,
    Whitespace,
    WhitespaceLowercase,
}

/// How the index files are accessed.
#[derive(Debug, Clone, Copy, PartialEq, Eq, Structural)]
pub enum AccessType {
    Ram,
    Mmap,
}

/// Requested shape of a search result.
#[derive(Debug, Clone, Copy, PartialEq, Eq, Structural)]
pub enum ResultType {
    Count,
    Topk,
    TopkCount,
}

/// Sort direction of one result-sort spec.
#[derive(Debug, Clone, Copy, PartialEq, Eq, Structural)]
pub enum SortOrder {
    Ascending,
    Descending,
}

/// The combination mode a query falls back to when the request names none.
pub fn query_type_api() -> (r: QueryType)
    ensures
        r == QueryType::Intersection,
{
    QueryType::Intersection
}

/// The ranking variant an index is created with by default.
pub fn similarity_type_api() -> (r: SimilarityType)
    ensures
        r == SimilarityType::Bm25fProximity,
{
    SimilarityType::Bm25fProximity
}

/// The tokenizer an index is created with by default.
pub fn tokenizer_type_api() -> (r: TokenizerType)
    ensures
        r == TokenizerType::UnicodeAlphanumeric,
{
    TokenizerType::UnicodeAlphanumeric
}

/// One field of an index schema.  `stored` decides whether original content
/// can be fetched back; `indexed` whether the field is searchable.
#[derive(Debug, Clone)]
pub struct SchemaField {
    pub field: String,
    pub stored: bool,
    pub indexed: bool,
    pub facet: bool,
}

/// One synonym rule: a group of terms expanded into one another.
#[derive(Debug, Clone)]
pub struct Synonym {
    pub terms: Vec<String>,
}

/// One highlight spec: which field to snippet and how.
#[derive(Debug, Clone)]
pub struct Highlight {
    pub field: String,
    pub fragment_number: usize,
    pub fragment_size: usize,
    pub highlight_markup: bool,
}

/// One distance-field spec: a derived field holding the distance from a base
/// point, whose coordinates are carried in microdegrees.
#[derive(Debug, Clone)]
pub struct DistanceField {
    pub field: String,
    pub base_field: String,
    pub base_lat_micro: i64,
    pub base_lon_micro: i64,
}

/// One facet request: aggregate the given field over the matching documents.
#[derive(Debug, Clone)]
pub struct QueryFacet {
    pub field: String,
    pub length: usize,
}

/// One facet filter: restrict matches to documents whose field holds one of
/// the given values.
#[derive(Debug, Clone)]
pub struct FacetFilter {
    pub field: String,
    pub values: Vec<String>,
}

/// One result-sort spec.
#[derive(Debug, Clone)]
pub struct ResultSort {
    pub field: String,
    pub order: SortOrder,
}

/// One value of a facet aggregate with its count.
#[derive(Debug, Clone)]
pub struct FacetValue {
    pub value: String,
    pub count: usize,
}

/// A facet aggregate over the matching documents for one field.
#[derive(Debug, Clone)]
pub struct FacetEntry {
    pub field: String,
    pub values: Vec<FacetValue>,
}

/// Numeric range of one facet field over the whole index.
#[derive(Debug, Clone)]
pub struct FacetMinMax {
    pub field: String,
    pub min: i64,
    pub max: i64,
}

/// One stored field of a hydrated document.
#[derive(Debug, Clone)]
pub struct DocField {
    pub name: String,
    pub value: String,
}

/// A search request: query, combination mode, pagination, result shape,
/// realtime flag, filters, facet requests, sorting, highlighting, field
/// projection and distance fields.
#[derive(Debug, Clone)]
pub struct SearchRequestObject {
    pub query_string: String,
    pub offset: usize,
    pub length: usize,
    pub result_type: ResultType,
    pub realtime: bool,
    pub highlights: Vec<Highlight>,
    pub field_filter: Vec<String>,
    pub fields: Vec<String>,
    pub distance_fields: Vec<DistanceField>,
    pub query_facets: Vec<QueryFacet>,
    pub facet_filter: Vec<FacetFilter>,
    pub result_sort: Vec<ResultSort>,
    pub query_type_default: QueryType,
}

/// Request to delete an account, carrying its credential in transport form.
#[derive(Debug, Clone)]
pub struct DeleteApikeyRequest {
    pub apikey_base64: String,
}

/// Request to create an index.
#[derive(Debug, Clone)]
pub struct CreateIndexRequest {
    pub index_name: String,
    pub schema: Vec<SchemaField>,
    pub similarity: SimilarityType,
    pub tokenizer: TokenizerType,
    pub synonyms: Vec<Synonym>,
}

/// Request to fetch one stored document, with optional highlighting.
#[derive(Debug, Clone)]
pub struct GetDocumentRequest {
    pub query_terms: Vec<String>,
    pub highlights: Vec<Highlight>,
    pub fields: Vec<String>,
    pub distance_fields: Vec<DistanceField>,
}

/// One raw ranked hit as the engine reports it: the internal document id and
/// the relevance score's bit pattern.
#[derive(Debug, Clone)]
pub struct RankedHit {
    pub doc_id: u64,
    pub score_bits: u64,
}

/// What the engine's query execution hands back before hydration: ranked
/// hits, the total matching count, the resolved (post-tokenization) query
/// terms, and the facet aggregates.
#[derive(Debug, Clone)]
pub struct RawSearchResult {
    pub hits: Vec<RankedHit>,
    pub count_total: usize,
    pub query_terms: Vec<String>,
    pub facets: Vec<FacetEntry>,
}

/// One hydrated hit: the stored fields plus the two synthetic fields every
/// hit carries, the internal document id and its relevance score.
#[derive(Debug, Clone)]
pub struct HydratedDoc {
    pub doc_id: u64,
    pub score_bits: u64,
    pub fields: Vec<DocField>,
}

/// A complete search response: echoed query and pagination, elapsed time in
/// nanoseconds, returned and total counts, resolved query terms, hydrated
/// hits in rank order, facet aggregates, and the suggestion list (a
/// placeholder that is always empty).
#[derive(Debug, Clone)]
pub struct SearchResultObject {
    pub time: u128,
    pub query: String,
    pub offset: usize,
    pub length: usize,
    pub count: usize,
    pub count_total: usize,
    pub query_terms: Vec<String>,
    pub results: Vec<HydratedDoc>,
    pub facets: Vec<FacetEntry>,
    pub suggestions: Vec<String>,
}

/// Per-index statistics reported to the boundary layer.
#[derive(Debug, Clone)]
pub struct IndexResponseObject {
    pub id: u64,
    pub name: String,
    pub schema: Vec<SchemaField>,
    pub indexed_doc_count: usize,
    pub operations_count: u64,
    pub query_count: u64,
    pub version: String,
    pub facets_minmax: Vec<FacetMinMax>,
}

} // verus!
