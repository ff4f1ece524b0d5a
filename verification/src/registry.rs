//! The per-account index registry.
//!
//! Each tenant account owns a set of indices, kept sorted by index id.  Index
//! ids are allocated as the smallest unused integer within the account, so an
//! id freed by a deletion is reused by the next creation.  Recovery registers
//! every index the engine could reopen and skips the rest: it is best-effort
//! per index, never all-or-nothing.
use vstd::prelude::*;

use crate::handle::{schema_stores_content, IndexHandle, IndexMeta};
use crate::types::{
    AccessType, FacetMinMax, IndexResponseObject, SchemaField, SimilarityType, Synonym,
    TokenizerType,
};
use crate::ApiError;

verus! {

/// Quota configuration of one account.  The core never reads it; it is
/// carried for the boundary layer, which interprets it.
#[derive(Debug, Clone)]
pub struct ApikeyQuota {
    pub payload: String,
}

/// One tenant account: its id, its credential hash, its quota, and the
/// indices it controls.
pub struct ApikeyAccount {
    pub id: u64,
    pub apikey_hash: u128,
    pub quota: ApikeyQuota,
    pub index_list: Vec<IndexHandle>,
}

/// Handles are strictly sorted by index id.
pub open spec fn handles_sorted(s: Seq<IndexHandle>) -> bool {
    forall|i: int, j: int| 0 <= i < j < s.len() ==> s[i].meta.id < s[j].meta.id
}

/// Some handle in the list carries this index id.
pub open spec fn handles_contain_id(s: Seq<IndexHandle>, index_id: u64) -> bool {
    exists|k: int| 0 <= k < s.len() && s[k].meta.id == index_id
}

/// Where a handle with this id belongs in an id-sorted list: just before the
/// first position whose id is not below it.
pub open spec fn handle_insert_pos(s: Seq<IndexHandle>, index_id: u64) -> int
    decreases s.len(),
{
    if s.len() == 0 {
        0
    } else if s[0].meta.id < index_id {
        1 + handle_insert_pos(s.drop_first(), index_id)
    } else {
        0
    }
}

/// What registering one recovered handle does to the list: an id already
/// present leaves the list as it is; otherwise the handle itself — its
/// configuration, synonyms and documents — joins at its sorted position.
pub open spec fn register_handle_spec(s: Seq<IndexHandle>, h: IndexHandle) -> Seq<IndexHandle> {
    if handles_contain_id(s, h.meta.id) {
        s
    } else {
        s.insert(handle_insert_pos(s, h.meta.id), h)
    }
}

/// What registering a whole recovery batch does to the list, handle by handle
/// in scan order.
pub open spec fn register_handles_spec(s: Seq<IndexHandle>, opened: Seq<IndexHandle>) -> Seq<
    IndexHandle,
>
    decreases opened.len(),
{
    if opened.len() == 0 {
        s
    } else {
        register_handles_spec(register_handle_spec(s, opened[0]), opened.drop_first())
    }
}

/// The scan position where every earlier id is below `index_id` and the
/// position itself (if any) is not is exactly `handle_insert_pos`.
proof fn lemma_handle_insert_pos_unique(s: Seq<IndexHandle>, index_id: u64, p: int)
    requires
        0 <= p <= s.len(),
        forall|k: int| 0 <= k < p ==> (#[trigger] s[k]).meta.id < index_id,
        p < s.len() ==> s[p].meta.id >= index_id,
    ensures
        handle_insert_pos(s, index_id) == p,
    decreases s.len(),
{
    if s.len() == 0 {
    } else if s[0].meta.id < index_id {
        assert(p > 0) by {
            if p == 0 {
                assert(s[0].meta.id >= index_id);
            }
        };
        let d = s.drop_first();
        assert forall|k: int| 0 <= k < p - 1 implies (#[trigger] d[k]).meta.id < index_id by {
            assert(d[k] == s[k + 1]);
        };
        assert(p - 1 < d.len() ==> d[p - 1].meta.id >= index_id) by {
            if p - 1 < d.len() {
                assert(d[p - 1] == s[p]);
            }
        };
        lemma_handle_insert_pos_unique(d, index_id, p - 1);
    } else {
        assert(p == 0) by {
            if p > 0 {
                assert(s[0].meta.id < index_id);
            }
        };
    }
}

/// Registering a batch and then one more handle is registering the extended
/// batch.
proof fn lemma_register_handles_snoc(s: Seq<IndexHandle>, opened: Seq<IndexHandle>, h: IndexHandle)
    ensures
        register_handles_spec(s, opened.push(h)) == register_handle_spec(
            register_handles_spec(s, opened),
            h,
        ),
    decreases opened.len(),
{
    let p = opened.push(h);
    if opened.len() == 0 {
        assert(p.drop_first() =~= Seq::<IndexHandle>::empty());
        assert(p[0] == h);
        assert(register_handles_spec(s, opened) == s);
        assert(register_handles_spec(register_handle_spec(s, h), p.drop_first())
            == register_handle_spec(s, h));
    } else {
        assert(p[0] == opened[0]);
        assert(p.drop_first() =~= opened.drop_first().push(h));
        lemma_register_handles_snoc(register_handle_spec(s, opened[0]), opened.drop_first(), h);
        assert(register_handles_spec(s, p) == register_handles_spec(
            register_handle_spec(s, p[0]),
            p.drop_first(),
        ));
        assert(register_handles_spec(s, opened) == register_handles_spec(
            register_handle_spec(s, opened[0]),
            opened.drop_first(),
        ));
    }
}

impl ApikeyAccount {
    /// The index list is sorted by id (so ids are unique) and every handle is
    /// well formed.
    pub open spec fn wf(self) -> bool {
        &&& handles_sorted(self.index_list@)
        &&& forall|i: int| 0 <= i < self.index_list@.len() ==> self.index_list@[i].wf()
    }

    /// Whether the account controls an index with this id.
    pub open spec fn contains_index(self, index_id: u64) -> bool {
        handles_contain_id(self.index_list@, index_id)
    }

    /// The account's identity and quota are the same in both states.
    pub open spec fn same_identity(self, other: Self) -> bool {
        &&& self.id == other.id
        &&& self.apikey_hash == other.apikey_hash
        &&& self.quota == other.quota
    }

    /// Position of the index with this id, if the account controls one.
    pub fn find_index(&self, index_id: u64) -> (r: Option<usize>)
        ensures
            match r {
                Some(k) => k < self.index_list@.len() && self.index_list@[k as int].meta.id
                    == index_id,
                None => !self.contains_index(index_id),
            },
    {
        let n = self.index_list.len();
        let mut i: usize = 0;
        while i < n
            invariant
                i <= n,
                n == self.index_list@.len(),
                forall|k: int| 0 <= k < i ==> self.index_list@[k].meta.id != index_id,
            decreases n - i,
        {
            if self.index_list[i].meta.id == index_id {
                return Some(i);
            }
            i = i + 1;
        }
        proof {
            assert forall|k: int| 0 <= k < self.index_list@.len() implies self.index_list@[k].meta.id
                != index_id by {};
        }
        None
    }
}

/// Create an index for this account: the id is the smallest integer no index
/// of the account uses, the handle starts empty and open with the given
/// configuration, and it is registered under that id.  The caller performs
/// the engine's creation work for the same configuration.
#[verifier::loop_isolation(false)]
pub fn create_index_api(
    account: &mut ApikeyAccount,
    index_name: String,
    schema: Vec<SchemaField>,
    similarity: SimilarityType,
    tokenizer: TokenizerType,
    synonyms: Vec<Synonym>,
) -> (r: u64)
    requires
        old(account).wf(),
        old(account).index_list@.len() < usize::MAX,
    ensures
        final(account).wf(),
        !old(account).contains_index(r),
        forall|j: u64| j < r ==> old(account).contains_index(j),
        final(account).index_list@.len() == old(account).index_list@.len() + 1,
        forall|id: u64| final(account).contains_index(id)
            <==> (old(account).contains_index(id) || id == r),
        final(account).same_identity(*old(account)),
        ({
            let h = final(account).index_list@[r as int];
            &&& h.meta.id == r
            &&& h.meta.name == index_name
            &&& h.meta.similarity == similarity
            &&& h.meta.tokenizer == tokenizer
            &&& h.meta.access_type == AccessType::Mmap
            &&& h.schema == schema
            &&& h.synonyms == synonyms
            &&& h.live_doc_ids@.len() == 0
            &&& h.next_doc_id == 0
            &&& h.is_open
            &&& h.lock.readers == 0 && !h.lock.writer
            &&& h.has_stored_fields == schema_stores_content(schema@)
        }),
        forall|k: int| 0 <= k < r ==> final(account).index_list@[k]
            == old(account).index_list@[k],
        forall|k: int| r < k < final(account).index_list@.len()
            ==> final(account).index_list@[k] == old(account).index_list@[k - 1],
{
    let n = account.index_list.len();
    let mut i: usize = 0;
    while i < n && account.index_list[i].meta.id == i as u64
        invariant
            i <= n,
            forall|k: int| 0 <= k < i ==> account.index_list@[k].meta.id == k,
        decreases n - i,
    {
        i = i + 1;
    }
    let index_id = i as u64;
    proof {
        assert forall|k: int| 0 <= k < account.index_list@.len()
            implies account.index_list@[k].meta.id != index_id by {
            if k >= i && i < account.index_list@.len() {
                if i > 0 {
                    assert(account.index_list@[i - 1].meta.id == i - 1);
                }
            }
        };
        assert(!account.contains_index(index_id)) by {
            if account.contains_index(index_id) {
                let k = choose|k: int| 0 <= k < account.index_list@.len()
                    && account.index_list@[k].meta.id == index_id;
            }
        };
        assert forall|j: u64| j < index_id implies account.contains_index(j) by {
            assert(account.index_list@[j as int].meta.id == j);
        };
    }
    let meta = IndexMeta {
        id: index_id,
        name: index_name,
        similarity,
        tokenizer,
        access_type: AccessType::Mmap,
    };
    let handle = IndexHandle::new(meta, schema, synonyms);
    let ghost before = account.index_list@;
    account.index_list.insert(i, handle);
    proof {
        before.insert_ensures(i as int, handle);
        assert forall|p: int, q: int|
            0 <= p < q < account.index_list@.len() implies account.index_list@[p].meta.id
            < account.index_list@[q].meta.id by {
            if i > 0 {
                assert(before[i - 1].meta.id == i - 1);
            }
        };
        assert forall|id: u64| account.contains_index(id) implies (old(
            account,
        ).contains_index(id) || id == index_id) by {
            let k = choose|k: int| 0 <= k < account.index_list@.len()
                && account.index_list@[k].meta.id == id;
            if k < i {
                assert(before[k].meta.id == id);
            } else if k > i {
                assert(before[k - 1].meta.id == id);
            }
        };
        assert forall|id: u64| old(account).contains_index(id) implies account.contains_index(
            id,
        ) by {
            let k = choose|k: int| 0 <= k < before.len() && before[k].meta.id == id;
            if k < i {
                assert(account.index_list@[k].meta.id == id);
            } else {
                assert(account.index_list@[k + 1].meta.id == id);
            }
        };
        assert(account.index_list@[index_id as int].meta.id == index_id);
    }
    index_id
}

/// Delete an index by id: an unknown id reports `NotFound`; otherwise the
/// handle is deregistered — the caller, holding the write guard, performs the
/// engine's deletion — and the remaining index count is returned.
pub fn delete_index_api(account: &mut ApikeyAccount, index_id: u64) -> (r: Result<u64, ApiError>)
    requires
        old(account).wf(),
    ensures
        final(account).wf(),
        r is Ok <==> old(account).contains_index(index_id),
        r is Err ==> *final(account) == *old(account) && (r matches Err(e) && e is NotFound),
        r is Ok ==> final(account).index_list@.len() == old(account).index_list@.len() - 1
            && (r matches Ok(n) && n == final(account).index_list@.len()),
        forall|id: u64| final(account).contains_index(id)
            <==> (old(account).contains_index(id) && id != index_id),
        final(account).same_identity(*old(account)),
{
    match account.find_index(index_id) {
        Some(k) => {
            let ghost before = account.index_list@;
            account.index_list.remove(k);
            proof {
                before.remove_ensures(k as int);
                assert forall|id: u64| account.contains_index(id) implies (old(
                    account,
                ).contains_index(id) && id != index_id) by {
                    let p = choose|p: int| 0 <= p < account.index_list@.len()
                        && account.index_list@[p].meta.id == id;
                    if p < k {
                        assert(before[p].meta.id == id);
                    } else {
                        assert(before[p + 1].meta.id == id);
                    }
                };
                assert forall|id: u64|
                    old(account).contains_index(id) && id != index_id implies account
                    .contains_index(id) by {
                    let p = choose|p: int| 0 <= p < before.len() && before[p].meta.id == id;
                    if p < k {
                        assert(account.index_list@[p].meta.id == id);
                    } else {
                        assert(p != k);
                        assert(account.index_list@[p - 1].meta.id == id);
                    }
                };
            }
            Ok(account.index_list.len() as u64)
        },
        None => Err(ApiError::NotFound),
    }
}

/// Copy a schema field by field.
fn clone_schema(schema: &Vec<SchemaField>) -> (r: Vec<SchemaField>)
    ensures
        r@ == schema@,
{
    let n = schema.len();
    let mut out: Vec<SchemaField> = Vec::new();
    let mut i: usize = 0;
    while i < n
        invariant
            i <= n,
            n == schema@.len(),
            out@ == schema@.subrange(0, i as int),
        decreases n - i,
    {
        let f = SchemaField {
            field: schema[i].field.clone(),
            stored: schema[i].stored,
            indexed: schema[i].indexed,
            facet: schema[i].facet,
        };
        proof {
            assert(f == schema@[i as int]);
        }
        out.push(f);
        proof {
            assert(out@ =~= schema@.subrange(0, i as int + 1));
        }
        i = i + 1;
    }
    proof {
        assert(out@ =~= schema@);
    }
    out
}

/// Report one index's statistics under shared access: its configuration, the
/// indexed-document count, and the facet ranges the caller obtained from the
/// engine.  An unknown id reports `NotFound`.
pub fn get_index_stats_api(
    account: &ApikeyAccount,
    index_id: u64,
    version: String,
    facets_minmax: Vec<FacetMinMax>,
) -> (r: Result<IndexResponseObject, ApiError>)
    requires
        account.wf(),
    ensures
        r is Ok <==> account.contains_index(index_id),
        r matches Ok(stats) ==> exists|k: int|
            {
                &&& 0 <= k < account.index_list@.len()
                &&& #[trigger] account.index_list@[k].meta.id == index_id
                &&& stats.id == index_id
                &&& stats.name == account.index_list@[k].meta.name
                &&& stats.schema@ == account.index_list@[k].schema@
                &&& stats.indexed_doc_count == account.index_list@[k].doc_count()
                &&& stats.operations_count == 0
                &&& stats.query_count == 0
                &&& stats.version == version
                &&& stats.facets_minmax == facets_minmax
            },
        r is Err ==> (r matches Err(e) && e is NotFound),
{
    match account.find_index(index_id) {
        Some(k) => {
            let handle = &account.index_list[k];
            let stats = IndexResponseObject {
                id: index_id,
                name: handle.meta.name.clone(),
                schema: clone_schema(&handle.schema),
                indexed_doc_count: handle.indexed_doc_count(),
                operations_count: 0,
                query_count: 0,
                version,
                facets_minmax,
            };
            proof {
                assert(account.index_list@[k as int].meta.id == index_id);
            }
            Ok(stats)
        },
        None => Err(ApiError::NotFound),
    }
}

/// Register the indices recovery could reopen below one account, in scan
/// order: each opened handle itself — configuration, synonyms, documents —
/// joins the registry under its id, an id already present is left exactly as
/// it is, and a failure to open one index never blocks the others — the
/// caller simply omits it from `opened`.  A scan that opened nothing leaves
/// the registry unchanged.
pub fn open_all_indices(account: &mut ApikeyAccount, opened: Vec<IndexHandle>)
    requires
        old(account).wf(),
        forall|k: int| 0 <= k < opened@.len() ==> (#[trigger] opened@[k]).wf(),
        old(account).index_list@.len() + opened@.len() <= usize::MAX,
    ensures
        final(account).wf(),
        final(account).index_list@ == register_handles_spec(
            old(account).index_list@,
            opened@,
        ),
        opened@.len() == 0 ==> final(account).index_list@ == old(account).index_list@,
        forall|k: int| 0 <= k < opened@.len()
            ==> final(account).contains_index((#[trigger] opened@[k]).meta.id),
        forall|id: u64| old(account).contains_index(id) ==> final(account).contains_index(id),
        forall|id: u64| final(account).contains_index(id) ==> (old(account).contains_index(id)
            || exists|k: int| 0 <= k < opened@.len() && (#[trigger] opened@[k]).meta.id == id),
        final(account).same_identity(*old(account)),
{
    let mut pending = opened;
    let ghost orig = *old(account);
    let ghost all = opened@;
    let n = pending.len();
    proof {
        assert(all.subrange(0, 0) =~= Seq::<IndexHandle>::empty());
        assert(register_handles_spec(orig.index_list@, all.subrange(0, 0)) == orig.index_list@);
    }
    let mut i: usize = 0;
    while i < n
        invariant
            i <= n,
            n == all.len(),
            pending@ == all.subrange(i as int, n as int),
            account.wf(),
            account.index_list@ == register_handles_spec(
                orig.index_list@,
                all.subrange(0, i as int),
            ),
            forall|k: int| 0 <= k < i
                ==> account.contains_index((#[trigger] all[k]).meta.id),
            forall|id: u64| orig.contains_index(id) ==> account.contains_index(id),
            forall|id: u64| account.contains_index(id) ==> (orig.contains_index(id)
                || exists|k: int| 0 <= k < all.len() && (#[trigger] all[k]).meta.id == id),
            forall|k: int| 0 <= k < all.len() ==> (#[trigger] all[k]).wf(),
            account.index_list@.len() + (n - i) <= usize::MAX,
            account.same_identity(orig),
        decreases n - i,
    {
        let handle = pending.remove(0);
        proof {
            assert(handle == all[i as int]);
            assert(pending@ =~= all.subrange(i as int + 1, n as int));
        }
        register_recovered_index(account, handle);
        proof {
            let prefix = all.subrange(0, i as int);
            let prefix1 = all.subrange(0, i as int + 1);
            assert(prefix1 =~= prefix.push(all[i as int]));
            lemma_register_handles_snoc(orig.index_list@, prefix, all[i as int]);
        }
        i = i + 1;
    }
    proof {
        assert(all.subrange(0, n as int) =~= all);
    }
}

/// Register one recovered handle: an id already present leaves the registry
/// exactly as it is; otherwise the handle itself joins at its sorted
/// position.
#[verifier::loop_isolation(false)]
fn register_recovered_index(account: &mut ApikeyAccount, handle: IndexHandle)
    requires
        old(account).wf(),
        handle.wf(),
        old(account).index_list@.len() < usize::MAX,
    ensures
        final(account).wf(),
        final(account).index_list@ == register_handle_spec(old(account).index_list@, handle),
        old(account).contains_index(handle.meta.id) ==> *final(account) == *old(account),
        final(account).contains_index(handle.meta.id),
        forall|id: u64| old(account).contains_index(id) ==> final(account).contains_index(id),
        forall|id: u64| final(account).contains_index(id)
            ==> (old(account).contains_index(id) || id == handle.meta.id),
        final(account).index_list@.len() <= old(account).index_list@.len() + 1,
        final(account).same_identity(*old(account)),
{
    let n = account.index_list.len();
    let mut i: usize = 0;
    while i < n && account.index_list[i].meta.id < handle.meta.id
        invariant
            i <= n,
            forall|k: int| 0 <= k < i ==> account.index_list@[k].meta.id < handle.meta.id,
        decreases n - i,
    {
        i = i + 1;
    }
    if i < n && account.index_list[i].meta.id == handle.meta.id {
        proof {
            assert(account.contains_index(handle.meta.id)) by {
                assert(account.index_list@[i as int].meta.id == handle.meta.id);
            };
            assert(register_handle_spec(account.index_list@, handle) == account.index_list@);
        }
        return;
    }
    proof {
        assert forall|k: int| i <= k < account.index_list@.len()
            implies account.index_list@[k].meta.id > handle.meta.id by {
            if k > i {
                assert(account.index_list@[i as int].meta.id < account.index_list@[k].meta.id);
            }
        };
        assert(!handles_contain_id(account.index_list@, handle.meta.id)) by {
            if handles_contain_id(account.index_list@, handle.meta.id) {
                let k = choose|k: int| 0 <= k < account.index_list@.len()
                    && account.index_list@[k].meta.id == handle.meta.id;
            }
        };
        assert forall|k: int| 0 <= k < i as int
            implies (#[trigger] account.index_list@[k]).meta.id < handle.meta.id by {};
        lemma_handle_insert_pos_unique(account.index_list@, handle.meta.id, i as int);
    }
    let ghost before = account.index_list@;
    account.index_list.insert(i, handle);
    proof {
        before.insert_ensures(i as int, handle);
        assert(account.index_list@ == register_handle_spec(before, handle));
        assert(account.contains_index(handle.meta.id)) by {
            assert(account.index_list@[i as int].meta.id == handle.meta.id);
        };
        assert forall|id: u64| old(account).contains_index(id) implies account.contains_index(
            id,
        ) by {
            let k = choose|k: int| 0 <= k < before.len() && before[k].meta.id == id;
            if k < i {
                assert(account.index_list@[k].meta.id == id);
            } else {
                assert(account.index_list@[k + 1].meta.id == id);
            }
        };
        assert forall|id: u64| account.contains_index(id) implies (old(
            account,
        ).contains_index(id) || id == handle.meta.id) by {
            let k = choose|k: int| 0 <= k < account.index_list@.len()
                && account.index_list@[k].meta.id == id;
            if k < i {
                assert(before[k].meta.id == id);
            } else if k > i {
                assert(before[k - 1].meta.id == id);
            }
        };
    }
}

} // verus!
