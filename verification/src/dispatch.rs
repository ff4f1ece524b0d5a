//! Document operations over one index handle.
//!
//! Every operation here runs under exclusive access (except `get_file_api`,
//! a reader) and either fully updates the bookkeeping and succeeds, or fails
//! entirely with the bookkeeping untouched.  Each call reports the
//! post-operation indexed-document count; batch variants report one combined
//! count after the whole batch.  Document ids are handed out consecutively
//! and never reused; the stored content itself lives in the engine, which the
//! caller drives — the handle decides and records what each call does to the
//! set of live documents.
use vstd::prelude::*;

use crate::handle::{bounded_by, sorted_strict, IndexHandle};
use crate::types::DocField;
use crate::ApiError;

verus! {

/// The live ids after a batch deletion: exactly the ids live before that are
/// not in the removed batch.
pub open spec fn docs_removed(pre: Seq<u64>, post: Seq<u64>, removed: Seq<u64>) -> bool {
    forall|x: u64| post.contains(x) <==> (pre.contains(x) && !removed.contains(x))
}

/// Removing one position from a strictly sorted sequence keeps it strictly
/// sorted and removes exactly that id.
pub proof fn lemma_remove_sorted(s: Seq<u64>, i: int)
    requires
        sorted_strict(s),
        0 <= i < s.len(),
    ensures
        sorted_strict(s.remove(i)),
        forall|x: u64| s.remove(i).contains(x) <==> (s.contains(x) && x != s[i]),
        forall|b: u64| bounded_by(s, b) ==> bounded_by(s.remove(i), b),
{
    let r = s.remove(i);
    assert forall|x: u64| r.contains(x) implies (s.contains(x) && x != s[i]) by {
        let k = choose|k: int| 0 <= k < r.len() && r[k] == x;
        if k < i {
            assert(s[k] == x);
        } else {
            assert(s[k + 1] == x);
        }
    };
    assert forall|x: u64| s.contains(x) && x != s[i] implies r.contains(x) by {
        let k = choose|k: int| 0 <= k < s.len() && s[k] == x;
        if k < i {
            assert(r[k] == x);
        } else {
            assert(k != i);
            assert(r[k - 1] == x);
        }
    };
}

impl IndexHandle {
    /// Index one document: it becomes live under the next fresh id, and the
    /// post-operation count is returned.  The content itself goes to the
    /// engine; `_document` carries it through.
    pub fn index_document_api(&mut self, _document: Vec<DocField>) -> (r: usize)
        requires
            old(self).wf(),
            old(self).lock.write_locked(),
            old(self).next_doc_id < u64::MAX,
            old(self).doc_count() < usize::MAX,
        ensures
            final(self).wf(),
            final(self).live_doc_ids@ == old(self).live_doc_ids@.push(old(self).next_doc_id),
            final(self).next_doc_id == old(self).next_doc_id + 1,
            r == final(self).doc_count() && r == old(self).doc_count() + 1,
            final(self).same_config(*old(self)),
            final(self).synonyms == old(self).synonyms,
            final(self).lock == old(self).lock,
            final(self).is_open == old(self).is_open,
            final(self).durable_doc_count == old(self).durable_doc_count,
    {
        self.live_doc_ids.push(self.next_doc_id);
        self.next_doc_id = self.next_doc_id + 1;
        self.live_doc_ids.len()
    }

    /// Index a batch of documents: each becomes live under the next fresh id,
    /// in order; one combined post-batch count is returned.
    pub fn index_documents_api(&mut self, documents: Vec<Vec<DocField>>) -> (r: usize)
        requires
            old(self).wf(),
            old(self).lock.write_locked(),
            old(self).next_doc_id + documents@.len() <= u64::MAX,
            old(self).doc_count() + documents@.len() <= usize::MAX,
        ensures
            final(self).wf(),
            final(self).doc_count() == old(self).doc_count() + documents@.len(),
            final(self).next_doc_id == old(self).next_doc_id + documents@.len(),
            final(self).live_doc_ids@.subrange(0, old(self).doc_count() as int)
                == old(self).live_doc_ids@,
            forall|k: int| old(self).doc_count() <= k < final(self).doc_count()
                ==> #[trigger] final(self).live_doc_ids@[k]
                    == old(self).next_doc_id + (k - old(self).doc_count()),
            r == final(self).doc_count(),
            final(self).same_config(*old(self)),
            final(self).synonyms == old(self).synonyms,
            final(self).lock == old(self).lock,
            final(self).is_open == old(self).is_open,
            final(self).durable_doc_count == old(self).durable_doc_count,
    {
        let n = documents.len();
        let ghost orig = *self;
        let mut i: usize = 0;
        while i < n
            invariant
                i <= n,
                n == documents@.len(),
                self.wf(),
                self.lock.write_locked(),
                self.doc_count() == orig.doc_count() + i,
                self.next_doc_id == orig.next_doc_id + i,
                self.live_doc_ids@.subrange(0, orig.doc_count() as int) == orig.live_doc_ids@,
                forall|k: int| orig.doc_count() <= k < self.doc_count()
                    ==> #[trigger] self.live_doc_ids@[k]
                        == orig.next_doc_id + (k - orig.doc_count()),
                orig.next_doc_id + n <= u64::MAX,
                orig.doc_count() + n <= usize::MAX,
                self.same_config(orig),
                self.synonyms == orig.synonyms,
                self.lock == orig.lock,
                self.is_open == orig.is_open,
                self.durable_doc_count == orig.durable_doc_count,
            decreases n - i,
        {
            let doc = documents[i].clone();
            let ghost before = self.live_doc_ids@;
            self.index_document_api(doc);
            proof {
                assert(self.live_doc_ids@.subrange(0, orig.doc_count() as int)
                    =~= before.subrange(0, orig.doc_count() as int));
            }
            i = i + 1;
        }
        self.live_doc_ids.len()
    }

    /// Delete one document by internal id.  If the id is live it is removed;
    /// an unknown id leaves the index unchanged.  Returns the post-operation
    /// count.
    pub fn delete_document_api(&mut self, document_id: u64) -> (r: u64)
        requires
            old(self).wf(),
            old(self).lock.write_locked(),
        ensures
            final(self).wf(),
            forall|x: u64| final(self).live_doc_ids@.contains(x)
                <==> (old(self).live_doc_ids@.contains(x) && x != document_id),
            final(self).doc_count() == if old(self).live_doc_ids@.contains(document_id) {
                old(self).doc_count() - 1
            } else {
                old(self).doc_count() as int
            },
            r == final(self).doc_count(),
            final(self).next_doc_id == old(self).next_doc_id,
            final(self).same_config(*old(self)),
            final(self).synonyms == old(self).synonyms,
            final(self).lock == old(self).lock,
            final(self).is_open == old(self).is_open,
            final(self).durable_doc_count == old(self).durable_doc_count,
    {
        match self.find_doc(document_id) {
            Some(i) => {
                proof {
                    lemma_remove_sorted(self.live_doc_ids@, i as int);
                    assert(self.live_doc_ids@.contains(document_id)) by {
                        assert(self.live_doc_ids@[i as int] == document_id);
                    };
                }
                self.live_doc_ids.remove(i);
                self.live_doc_ids.len() as u64
            },
            None => {
                proof {
                    assert forall|x: u64| self.live_doc_ids@.contains(x) implies x
                        != document_id by {
                        let k = choose|k: int|
                            0 <= k < self.live_doc_ids@.len() && self.live_doc_ids@[k] == x;
                    };
                }
                self.live_doc_ids.len() as u64
            },
        }
    }

    /// Position of a live document id, if any.
    fn find_doc(&self, document_id: u64) -> (r: Option<usize>)
        ensures
            match r {
                Some(i) => i < self.live_doc_ids@.len() && self.live_doc_ids@[i as int]
                    == document_id,
                None => forall|k: int| 0 <= k < self.live_doc_ids@.len()
                    ==> self.live_doc_ids@[k] != document_id,
            },
    {
        let n = self.live_doc_ids.len();
        let mut i: usize = 0;
        while i < n
            invariant
                i <= n,
                n == self.live_doc_ids@.len(),
                forall|k: int| 0 <= k < i ==> self.live_doc_ids@[k] != document_id,
            decreases n - i,
        {
            if self.live_doc_ids[i] == document_id {
                return Some(i);
            }
            i = i + 1;
        }
        None
    }

    /// Delete a batch of documents by internal id; unknown ids are ignored.
    /// Returns one combined post-batch count.
    pub fn delete_documents_api(&mut self, document_ids: &Vec<u64>) -> (r: u64)
        requires
            old(self).wf(),
            old(self).lock.write_locked(),
        ensures
            final(self).wf(),
            docs_removed(old(self).live_doc_ids@, final(self).live_doc_ids@, document_ids@),
            r == final(self).doc_count(),
            final(self).next_doc_id == old(self).next_doc_id,
            final(self).same_config(*old(self)),
            final(self).synonyms == old(self).synonyms,
            final(self).lock == old(self).lock,
            final(self).is_open == old(self).is_open,
            final(self).durable_doc_count == old(self).durable_doc_count,
    {
        let n = document_ids.len();
        let ghost orig = *self;
        let mut i: usize = 0;
        while i < n
            invariant
                i <= n,
                n == document_ids@.len(),
                self.wf(),
                self.lock.write_locked(),
                forall|x: u64| self.live_doc_ids@.contains(x)
                    <==> (orig.live_doc_ids@.contains(x)
                        && !document_ids@.subrange(0, i as int).contains(x)),
                self.next_doc_id == orig.next_doc_id,
                self.same_config(orig),
                self.synonyms == orig.synonyms,
                self.lock == orig.lock,
                self.is_open == orig.is_open,
                self.durable_doc_count == orig.durable_doc_count,
            decreases n - i,
        {
            let id = document_ids[i];
            let ghost prev = self.live_doc_ids@;
            self.delete_document_api(id);
            proof {
                let pre = document_ids@.subrange(0, i as int);
                let cur = document_ids@.subrange(0, i as int + 1);
                assert(cur.drop_last() =~= pre);
                assert(cur.last() == document_ids@[i as int]);
                assert forall|x: u64| cur.contains(x) implies (pre.contains(x) || x == id) by {
                    let k = choose|k: int| 0 <= k < cur.len() && cur[k] == x;
                    if k < i as int {
                        assert(pre[k] == x);
                    }
                };
                assert forall|x: u64| pre.contains(x) implies cur.contains(x) by {
                    let k = choose|k: int| 0 <= k < pre.len() && pre[k] == x;
                    assert(cur[k] == x);
                };
                assert(cur.contains(id)) by {
                    assert(cur[i as int] == id);
                };
                assert forall|x: u64| self.live_doc_ids@.contains(x)
                    <==> (orig.live_doc_ids@.contains(x) && !cur.contains(x)) by {
                    assert(self.live_doc_ids@.contains(x) <==> (prev.contains(x) && x != id));
                    assert(prev.contains(x) <==> (orig.live_doc_ids@.contains(x) && !pre.contains(
                        x,
                    )));
                };
            }
            i = i + 1;
        }
        proof {
            assert(document_ids@.subrange(0, n as int) =~= document_ids@);
        }
        self.live_doc_ids.len() as u64
    }

    /// Update one document: the old id (if live) is deleted and the new
    /// content is indexed under a fresh id.  Returns the post-operation count.
    pub fn update_document_api(&mut self, id_document: (u64, Vec<DocField>)) -> (r: u64)
        requires
            old(self).wf(),
            old(self).lock.write_locked(),
            old(self).next_doc_id < u64::MAX,
            old(self).doc_count() < usize::MAX,
        ensures
            final(self).wf(),
            forall|x: u64| final(self).live_doc_ids@.contains(x)
                <==> (x == old(self).next_doc_id
                    || (old(self).live_doc_ids@.contains(x) && x != id_document.0)),
            final(self).next_doc_id == old(self).next_doc_id + 1,
            final(self).doc_count() == if old(self).live_doc_ids@.contains(id_document.0) {
                old(self).doc_count() as int
            } else {
                old(self).doc_count() + 1 as int
            },
            r == final(self).doc_count(),
            final(self).same_config(*old(self)),
            final(self).synonyms == old(self).synonyms,
            final(self).lock == old(self).lock,
            final(self).is_open == old(self).is_open,
            final(self).durable_doc_count == old(self).durable_doc_count,
    {
        let (document_id, document) = id_document;
        self.delete_document_api(document_id);
        let ghost mid = self.live_doc_ids@;
        self.index_document_api(document);
        proof {
            let s = self.live_doc_ids@;
            assert(s.drop_last() =~= mid);
            assert forall|x: u64| s.contains(x) implies (x == old(self).next_doc_id || (old(
                self,
            ).live_doc_ids@.contains(x) && x != document_id)) by {
                let k = choose|k: int| 0 <= k < s.len() && s[k] == x;
                if k < s.len() - 1 {
                    assert(mid.contains(x)) by {
                        assert(mid[k] == x);
                    };
                }
            };
            assert(s.contains(old(self).next_doc_id)) by {
                assert(s[s.len() - 1] == old(self).next_doc_id);
            };
            assert forall|x: u64|
                old(self).live_doc_ids@.contains(x) && x != document_id implies s.contains(x) by {
                assert(mid.contains(x));
                let k = choose|k: int| 0 <= k < mid.len() && mid[k] == x;
                assert(s[k] == x);
            };
        }
        self.live_doc_ids.len() as u64
    }

    /// Update a batch of documents; one combined post-batch count.
    pub fn update_documents_api(&mut self, id_document_vec: Vec<(u64, Vec<DocField>)>) -> (r: u64)
        requires
            old(self).wf(),
            old(self).lock.write_locked(),
            old(self).next_doc_id + id_document_vec@.len() <= u64::MAX,
            old(self).doc_count() + id_document_vec@.len() <= usize::MAX,
        ensures
            final(self).wf(),
            final(self).next_doc_id == old(self).next_doc_id + id_document_vec@.len(),
            r == final(self).doc_count(),
            final(self).same_config(*old(self)),
            final(self).synonyms == old(self).synonyms,
            final(self).lock == old(self).lock,
            final(self).is_open == old(self).is_open,
            final(self).durable_doc_count == old(self).durable_doc_count,
    {
        let mut pending = id_document_vec;
        let ghost n = pending@.len();
        let ghost orig = *self;
        loop
            invariant
                pending@.len() <= n,
                self.wf(),
                self.lock.write_locked(),
                self.next_doc_id == orig.next_doc_id + n - pending@.len(),
                self.doc_count() <= orig.doc_count() + n - pending@.len(),
                orig.next_doc_id + n <= u64::MAX,
                orig.doc_count() + n <= usize::MAX,
                self.same_config(orig),
                self.synonyms == orig.synonyms,
                self.lock == orig.lock,
                self.is_open == orig.is_open,
                self.durable_doc_count == orig.durable_doc_count,
            ensures
                pending@.len() == 0,
                self.wf(),
                self.next_doc_id == orig.next_doc_id + n,
                self.same_config(orig),
                self.synonyms == orig.synonyms,
                self.lock == orig.lock,
                self.is_open == orig.is_open,
                self.durable_doc_count == orig.durable_doc_count,
            decreases pending@.len(),
        {
            match pending.pop() {
                Some(pair) => {
                    self.update_document_api(pair);
                },
                None => {
                    break;
                },
            }
        }
        self.live_doc_ids.len() as u64
    }

    /// Delete every document the engine matched for a query.  The matches are
    /// the engine's answer to the query; afterwards none of them is live, so
    /// re-running the identical query has nothing left to match.  Returns the
    /// post-deletion count.
    pub fn delete_documents_by_query_api(&mut self, matched_ids: &Vec<u64>) -> (r: u64)
        requires
            old(self).wf(),
            old(self).lock.write_locked(),
        ensures
            final(self).wf(),
            docs_removed(old(self).live_doc_ids@, final(self).live_doc_ids@, matched_ids@),
            forall|x: u64| matched_ids@.contains(x) ==> !final(self).live_doc_ids@.contains(x),
            r == final(self).doc_count(),
            final(self).next_doc_id == old(self).next_doc_id,
            final(self).same_config(*old(self)),
            final(self).synonyms == old(self).synonyms,
            final(self).lock == old(self).lock,
            final(self).is_open == old(self).is_open,
            final(self).durable_doc_count == old(self).durable_doc_count,
    {
        let r = self.delete_documents_api(matched_ids);
        proof {
            assert forall|x: u64| matched_ids@.contains(x) implies !self.live_doc_ids@.contains(
                x,
            ) by {
                assert(docs_removed(old(self).live_doc_ids@, self.live_doc_ids@, matched_ids@));
            };
        }
        r
    }

    /// Ingest one binary document through the engine's extraction path.  On a
    /// successful extraction the document becomes live under a fresh id and
    /// the post-index count is returned; an extraction failure surfaces as
    /// `EngineFailure` with the index unchanged.
    pub fn index_file_api(&mut self, extraction: Result<(), String>) -> (r: Result<usize, ApiError>)
        requires
            old(self).wf(),
            old(self).lock.write_locked(),
            old(self).next_doc_id < u64::MAX,
            old(self).doc_count() < usize::MAX,
        ensures
            final(self).wf(),
            r is Ok <==> extraction is Ok,
            extraction is Ok ==> final(self).live_doc_ids@
                == old(self).live_doc_ids@.push(old(self).next_doc_id)
                && (r matches Ok(n) && n == final(self).doc_count()),
            extraction matches Err(s) ==> final(self).same_docs(*old(self))
                && r == Err::<usize, ApiError>(ApiError::EngineFailure(s)),
            final(self).same_config(*old(self)),
            final(self).synonyms == old(self).synonyms,
            final(self).lock == old(self).lock,
            final(self).is_open == old(self).is_open,
    {
        match extraction {
            Ok(()) => {
                let count = self.index_document_api(Vec::new());
                Ok(count)
            },
            Err(e) => Err(ApiError::EngineFailure(e)),
        }
    }

    /// Fetch the original bytes of one stored document.  Only an index that
    /// retains original stored content can answer: without stored fields the
    /// result is absent whatever the engine found.
    pub fn get_file_api(&self, fetched: Option<Vec<u8>>) -> (r: Option<Vec<u8>>)
        requires
            self.lock.read_locked(),
        ensures
            self.has_stored_fields ==> r == fetched,
            !self.has_stored_fields ==> r is None,
    {
        if self.has_stored_fields {
            fetched
        } else {
            None
        }
    }
}

/// Delete-by-query convergence: a query matches the live documents that
/// satisfy its predicate; deleting every match and re-running the identical
/// query over what is left matches nothing.
pub proof fn lemma_delete_by_query_convergence(live: Set<u64>, matches: spec_fn(u64) -> bool)
    ensures
        live.difference(live.filter(matches)).filter(matches) =~= Set::<u64>::empty(),
{
}

} // verus!
