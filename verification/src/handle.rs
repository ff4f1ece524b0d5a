//! One live index behind its concurrency guard.
//!
//! An `IndexHandle` owns everything the manager knows about one engine index:
//! its immutable configuration, its synonym rules, the reader/writer guard,
//! and the bookkeeping the dispatchers maintain — the set of live internal
//! document ids (assigned consecutively, so they are kept strictly sorted),
//! the id the next document will get, and the count captured by the last
//! commit.  Readers hold shared access; document mutation, commit, close and
//! synonym updates hold exclusive access, which the contracts below demand.
use vstd::prelude::*;

use crate::guard::RwGuardState;
use crate::types::{AccessType, SchemaField, SimilarityType, Synonym, TokenizerType};
use crate::ApiError;

verus! {

/// Immutable configuration of one index, fixed at creation.
#[derive(Debug, Clone)]
pub struct IndexMeta {
    pub id: u64,
    pub name: String,
    pub similarity: SimilarityType,
    pub tokenizer: TokenizerType,
    pub access_type: AccessType,
}

/// A strictly increasing sequence of ids.
pub open spec fn sorted_strict(s: Seq<u64>) -> bool {
    forall|i: int, j: int| 0 <= i < j < s.len() ==> s[i] < s[j]
}

/// Every id in the sequence is below the bound.
pub open spec fn bounded_by(s: Seq<u64>, bound: u64) -> bool {
    forall|i: int| 0 <= i < s.len() ==> s[i] < bound
}

/// The schema retains original content for at least one field.
pub open spec fn schema_stores_content(s: Seq<SchemaField>) -> bool {
    exists|i: int| 0 <= i < s.len() && s[i].stored
}

/// One live engine index with its guard and bookkeeping.
pub struct IndexHandle {
    pub meta: IndexMeta,
    pub schema: Vec<SchemaField>,
    pub has_stored_fields: bool,
    pub synonyms: Vec<Synonym>,
    pub lock: RwGuardState,
    pub is_open: bool,
    pub live_doc_ids: Vec<u64>,
    pub next_doc_id: u64,
    pub durable_doc_count: usize,
}

impl IndexHandle {
    /// Ids are consecutive and never reused, the guard is consistent, and the
    /// stored-content flag matches the schema.
    pub open spec fn wf(self) -> bool {
        &&& self.lock.wf()
        &&& sorted_strict(self.live_doc_ids@)
        &&& bounded_by(self.live_doc_ids@, self.next_doc_id)
        &&& self.has_stored_fields == schema_stores_content(self.schema@)
    }

    /// The indexed-document count: how many documents are live.
    pub open spec fn doc_count(self) -> nat {
        self.live_doc_ids@.len()
    }

    /// The configuration fixed at creation is the same in both states.
    pub open spec fn same_config(self, other: Self) -> bool {
        &&& self.meta == other.meta
        &&& self.schema == other.schema
        &&& self.has_stored_fields == other.has_stored_fields
    }

    /// The document bookkeeping is the same in both states.
    pub open spec fn same_docs(self, other: Self) -> bool {
        &&& self.live_doc_ids == other.live_doc_ids
        &&& self.next_doc_id == other.next_doc_id
        &&& self.durable_doc_count == other.durable_doc_count
    }

    /// Wrap a freshly created engine index: no documents, no holder on the
    /// guard, open, with the stored-content flag computed from the schema.
    pub fn new(meta: IndexMeta, schema: Vec<SchemaField>, synonyms: Vec<Synonym>) -> (h: Self)
        ensures
            h.wf(),
            h.meta == meta,
            h.schema == schema,
            h.synonyms == synonyms,
            h.live_doc_ids@ == Seq::<u64>::empty(),
            h.next_doc_id == 0,
            h.durable_doc_count == 0,
            h.is_open,
            h.lock.readers == 0 && !h.lock.writer,
            h.has_stored_fields == schema_stores_content(schema@),
    {
        let mut has_stored = false;
        let n = schema.len();
        let mut i: usize = 0;
        while i < n
            invariant
                i <= n,
                n == schema.len(),
                has_stored == exists|k: int| 0 <= k < i && schema@[k].stored,
            decreases n - i,
        {
            if schema[i].stored {
                has_stored = true;
            }
            i = i + 1;
        }
        IndexHandle {
            meta,
            schema,
            has_stored_fields: has_stored,
            synonyms,
            lock: RwGuardState::new(),
            is_open: true,
            live_doc_ids: Vec::new(),
            next_doc_id: 0,
            durable_doc_count: 0,
        }
    }

    /// The indexed-document count, as readers report it.
    pub fn indexed_doc_count(&self) -> (r: usize)
        ensures
            r == self.doc_count(),
    {
        self.live_doc_ids.len()
    }

    /// Whether a document with this internal id is live.
    pub fn contains_doc(&self, doc_id: u64) -> (r: bool)
        ensures
            r == self.live_doc_ids@.contains(doc_id),
    {
        let n = self.live_doc_ids.len();
        let mut i: usize = 0;
        while i < n
            invariant
                i <= n,
                n == self.live_doc_ids.len(),
                forall|k: int| 0 <= k < i ==> self.live_doc_ids@[k] != doc_id,
            decreases n - i,
        {
            if self.live_doc_ids[i] == doc_id {
                return true;
            }
            i = i + 1;
        }
        false
    }

    /// Commit: under exclusive access, capture the indexed-document count
    /// immediately before the flush, make it the durable count, and return
    /// the pre-flush count.  Callers observe the count as of just before
    /// durability — a documented quirk, not a defect.
    pub fn commit_index_api(&mut self) -> (r: u64)
        requires
            old(self).wf(),
            old(self).lock.write_locked(),
        ensures
            final(self).wf(),
            r == old(self).doc_count(),
            final(self).durable_doc_count == old(self).doc_count(),
            final(self).same_config(*old(self)),
            final(self).live_doc_ids == old(self).live_doc_ids,
            final(self).next_doc_id == old(self).next_doc_id,
            final(self).synonyms == old(self).synonyms,
            final(self).lock == old(self).lock,
            final(self).is_open == old(self).is_open,
    {
        let count = self.live_doc_ids.len();
        self.durable_doc_count = count;
        count as u64
    }

    /// Close: under exclusive access, capture the indexed-document count,
    /// release the engine's resources, and return that count.
    pub fn close_index_api(&mut self) -> (r: u64)
        requires
            old(self).wf(),
            old(self).lock.write_locked(),
        ensures
            final(self).wf(),
            r == old(self).doc_count(),
            !final(self).is_open,
            final(self).same_config(*old(self)),
            final(self).same_docs(*old(self)),
            final(self).synonyms == old(self).synonyms,
            final(self).lock == old(self).lock,
    {
        let count = self.live_doc_ids.len();
        self.is_open = false;
        count as u64
    }

    /// Replace the synonym rules under exclusive access; reports how many
    /// rules the index now has.
    pub fn set_synonyms_api(&mut self, synonyms: Vec<Synonym>) -> (r: Result<usize, ApiError>)
        requires
            old(self).wf(),
            old(self).lock.write_locked(),
        ensures
            final(self).wf(),
            final(self).synonyms == synonyms,
            r matches Ok(n) && n == synonyms@.len(),
            final(self).same_config(*old(self)),
            final(self).same_docs(*old(self)),
            final(self).lock == old(self).lock,
            final(self).is_open == old(self).is_open,
    {
        let n = synonyms.len();
        self.synonyms = synonyms;
        Ok(n)
    }

    /// Append synonym rules under exclusive access; reports how many rules
    /// the index now has.
    pub fn add_synonyms_api(&mut self, synonyms: Vec<Synonym>) -> (r: Result<usize, ApiError>)
        requires
            old(self).wf(),
            old(self).lock.write_locked(),
            old(self).synonyms@.len() + synonyms@.len() <= usize::MAX,
        ensures
            final(self).wf(),
            final(self).synonyms@ == old(self).synonyms@ + synonyms@,
            r matches Ok(n) && n == old(self).synonyms@.len() + synonyms@.len(),
            final(self).same_config(*old(self)),
            final(self).same_docs(*old(self)),
            final(self).lock == old(self).lock,
            final(self).is_open == old(self).is_open,
    {
        let mut synonyms = synonyms;
        self.synonyms.append(&mut synonyms);
        Ok(self.synonyms.len())
    }

    /// Read the synonym rules under shared access.
    pub fn get_synonyms_api(&self) -> (r: &Vec<Synonym>)
        requires
            self.lock.read_locked(),
        ensures
            r == &self.synonyms,
    {
        &self.synonyms
    }
}

} // verus!
