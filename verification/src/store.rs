//! The store of tenant accounts.
//!
//! Accounts are looked up by credential hash (each hash owns exactly one
//! account) and kept sorted by account id.  Ids are allocated as the smallest
//! non-negative integer not currently assigned, so the id freed by a deletion
//! is reused by the next creation — and no sibling account is ever renumbered.
//! Startup recovery registers every account whose metadata could be read and
//! skips a corrupt entry without aborting the scan of the others.
use vstd::prelude::*;

use crate::registry::{ApikeyAccount, ApikeyQuota};
use crate::ApiError;

verus! {

/// Accounts are strictly sorted by account id.
pub open spec fn accounts_sorted(s: Seq<ApikeyAccount>) -> bool {
    forall|i: int, j: int| 0 <= i < j < s.len() ==> s[i].id < s[j].id
}

/// No two accounts share a credential hash.
pub open spec fn hashes_unique(s: Seq<ApikeyAccount>) -> bool {
    forall|i: int, j: int| 0 <= i < j < s.len() ==> s[i].apikey_hash != s[j].apikey_hash
}

/// Some account in the list carries this id.
pub open spec fn accounts_contain_id(s: Seq<ApikeyAccount>, id: u64) -> bool {
    exists|k: int| 0 <= k < s.len() && s[k].id == id
}

/// Some account in the list carries this credential hash.
pub open spec fn accounts_contain_hash(s: Seq<ApikeyAccount>, apikey_hash: u128) -> bool {
    exists|k: int| 0 <= k < s.len() && s[k].apikey_hash == apikey_hash
}

/// Where an account with this id belongs in an id-sorted list: just before
/// the first position whose id is not below it.
pub open spec fn account_insert_pos(s: Seq<ApikeyAccount>, id: u64) -> int
    decreases s.len(),
{
    if s.len() == 0 {
        0
    } else if s[0].id < id {
        1 + account_insert_pos(s.drop_first(), id)
    } else {
        0
    }
}

/// What registering one recovered account does to the list: an id or hash
/// already claimed leaves the list exactly as it is; otherwise the loaded
/// account itself — id, hash, quota and index list — joins at its sorted
/// position.
pub open spec fn register_account_spec(s: Seq<ApikeyAccount>, a: ApikeyAccount) -> Seq<
    ApikeyAccount,
> {
    if accounts_contain_id(s, a.id) || accounts_contain_hash(s, a.apikey_hash) {
        s
    } else {
        s.insert(account_insert_pos(s, a.id), a)
    }
}

/// What one scan entry does to the list: a corrupt entry (`None`) leaves it
/// as it is; a loaded account registers.
pub open spec fn register_entry_spec(
    s: Seq<ApikeyAccount>,
    entry: Option<ApikeyAccount>,
) -> Seq<ApikeyAccount> {
    match entry {
        Some(a) => register_account_spec(s, a),
        None => s,
    }
}

/// What a whole recovery scan does to the list, entry by entry in scan order.
pub open spec fn register_entries_spec(
    s: Seq<ApikeyAccount>,
    entries: Seq<Option<ApikeyAccount>>,
) -> Seq<ApikeyAccount>
    decreases entries.len(),
{
    if entries.len() == 0 {
        s
    } else {
        register_entries_spec(register_entry_spec(s, entries[0]), entries.drop_first())
    }
}

/// The insert position never leaves the list's bounds.
proof fn lemma_account_insert_pos_bounds(s: Seq<ApikeyAccount>, id: u64)
    ensures
        0 <= account_insert_pos(s, id) <= s.len(),
    decreases s.len(),
{
    if s.len() > 0 && s[0].id < id {
        lemma_account_insert_pos_bounds(s.drop_first(), id);
    }
}

/// The scan position where every earlier id is below `id` and the position
/// itself (if any) is not is exactly `account_insert_pos`.
proof fn lemma_account_insert_pos_unique(s: Seq<ApikeyAccount>, id: u64, p: int)
    requires
        0 <= p <= s.len(),
        forall|k: int| 0 <= k < p ==> (#[trigger] s[k]).id < id,
        p < s.len() ==> s[p].id >= id,
    ensures
        account_insert_pos(s, id) == p,
    decreases s.len(),
{
    if s.len() == 0 {
    } else if s[0].id < id {
        assert(p > 0) by {
            if p == 0 {
                assert(s[0].id >= id);
            }
        };
        let d = s.drop_first();
        assert forall|k: int| 0 <= k < p - 1 implies (#[trigger] d[k]).id < id by {
            assert(d[k] == s[k + 1]);
        };
        assert(p - 1 < d.len() ==> d[p - 1].id >= id) by {
            if p - 1 < d.len() {
                assert(d[p - 1] == s[p]);
            }
        };
        lemma_account_insert_pos_unique(d, id, p - 1);
    } else {
        assert(p == 0) by {
            if p > 0 {
                assert(s[0].id < id);
            }
        };
    }
}

/// Registering a scan and then one more entry is registering the extended
/// scan.
proof fn lemma_register_entries_snoc(
    s: Seq<ApikeyAccount>,
    entries: Seq<Option<ApikeyAccount>>,
    entry: Option<ApikeyAccount>,
)
    ensures
        register_entries_spec(s, entries.push(entry)) == register_entry_spec(
            register_entries_spec(s, entries),
            entry,
        ),
    decreases entries.len(),
{
    let p = entries.push(entry);
    if entries.len() == 0 {
        assert(p.drop_first() =~= Seq::<Option<ApikeyAccount>>::empty());
        assert(p[0] == entry);
        assert(register_entries_spec(s, entries) == s);
        assert(register_entries_spec(register_entry_spec(s, entry), p.drop_first())
            == register_entry_spec(s, entry));
    } else {
        assert(p[0] == entries[0]);
        assert(p.drop_first() =~= entries.drop_first().push(entry));
        lemma_register_entries_snoc(
            register_entry_spec(s, entries[0]),
            entries.drop_first(),
            entry,
        );
        assert(register_entries_spec(s, p) == register_entries_spec(
            register_entry_spec(s, p[0]),
            p.drop_first(),
        ));
        assert(register_entries_spec(s, entries) == register_entries_spec(
            register_entry_spec(s, entries[0]),
            entries.drop_first(),
        ));
    }
}

/// All tenant accounts of one deployment.
pub struct ApikeyStore {
    pub accounts: Vec<ApikeyAccount>,
}

impl ApikeyStore {
    /// Ids are unique (the list is sorted by them), hashes are unique, and
    /// every account is well formed.
    pub open spec fn wf(self) -> bool {
        &&& accounts_sorted(self.accounts@)
        &&& hashes_unique(self.accounts@)
        &&& forall|i: int| 0 <= i < self.accounts@.len() ==> self.accounts@[i].wf()
    }

    /// Whether some account has this id.
    pub open spec fn contains_id(self, id: u64) -> bool {
        accounts_contain_id(self.accounts@, id)
    }

    /// Whether some account has this credential hash.
    pub open spec fn contains_hash(self, apikey_hash: u128) -> bool {
        accounts_contain_hash(self.accounts@, apikey_hash)
    }

    /// An empty store.
    pub fn new() -> (s: Self)
        ensures
            s.wf(),
            s.accounts@.len() == 0,
    {
        ApikeyStore { accounts: Vec::new() }
    }

    /// How many accounts are registered.
    pub fn account_count(&self) -> (r: usize)
        ensures
            r == self.accounts@.len(),
    {
        self.accounts.len()
    }

    /// Position of the account with this credential hash, if any.
    pub fn find_account(&self, apikey_hash: u128) -> (r: Option<usize>)
        ensures
            match r {
                Some(k) => k < self.accounts@.len() && self.accounts@[k as int].apikey_hash
                    == apikey_hash,
                None => !self.contains_hash(apikey_hash),
            },
    {
        let n = self.accounts.len();
        let mut i: usize = 0;
        while i < n
            invariant
                i <= n,
                n == self.accounts@.len(),
                forall|k: int| 0 <= k < i ==> self.accounts@[k].apikey_hash != apikey_hash,
            decreases n - i,
        {
            if self.accounts[i].apikey_hash == apikey_hash {
                return Some(i);
            }
            i = i + 1;
        }
        None
    }

    /// Create an account for a freshly derived credential hash: its id is the
    /// smallest non-negative integer no account uses (so an id freed by a
    /// deletion is reused), it starts without indices, and it is registered
    /// under its hash.  The caller creates the account's directory and
    /// persists its metadata atomically.
    #[verifier::loop_isolation(false)]
    pub fn create_apikey_api(&mut self, apikey_hash: u128, quota: ApikeyQuota) -> (r: u64)
        requires
            old(self).wf(),
            !old(self).contains_hash(apikey_hash),
            old(self).accounts@.len() < usize::MAX,
        ensures
            final(self).wf(),
            !old(self).contains_id(r),
            forall|j: u64| j < r ==> old(self).contains_id(j),
            final(self).accounts@.len() == old(self).accounts@.len() + 1,
            forall|id: u64| final(self).contains_id(id)
                <==> (old(self).contains_id(id) || id == r),
            forall|h: u128| final(self).contains_hash(h)
                <==> (old(self).contains_hash(h) || h == apikey_hash),
            ({
                let a = final(self).accounts@[r as int];
                &&& a.id == r
                &&& a.apikey_hash == apikey_hash
                &&& a.quota == quota
                &&& a.index_list@.len() == 0
            }),
            forall|k: int| 0 <= k < r ==> final(self).accounts@[k] == old(self).accounts@[k],
            forall|k: int| r < k < final(self).accounts@.len()
                ==> final(self).accounts@[k] == old(self).accounts@[k - 1],
    {
        let n = self.accounts.len();
        let mut i: usize = 0;
        while i < n && self.accounts[i].id == i as u64
            invariant
                i <= n,
                forall|k: int| 0 <= k < i ==> self.accounts@[k].id == k,
            decreases n - i,
        {
            i = i + 1;
        }
        let apikey_id = i as u64;
        proof {
            assert forall|k: int| 0 <= k < self.accounts@.len() implies self.accounts@[k].id
                != apikey_id by {
                if k >= i && i < self.accounts@.len() {
                    if i > 0 {
                        assert(self.accounts@[i - 1].id == i - 1);
                    }
                }
            };
            assert(!self.contains_id(apikey_id)) by {
                if self.contains_id(apikey_id) {
                    let k = choose|k: int| 0 <= k < self.accounts@.len() && self.accounts@[k].id
                        == apikey_id;
                }
            };
            assert forall|j: u64| j < apikey_id implies self.contains_id(j) by {
                assert(self.accounts@[j as int].id == j);
            };
        }
        let account = ApikeyAccount {
            id: apikey_id,
            apikey_hash,
            quota,
            index_list: Vec::new(),
        };
        let ghost before = self.accounts@;
        self.accounts.insert(i, account);
        proof {
            before.insert_ensures(i as int, account);
            assert forall|p: int, q: int|
                0 <= p < q < self.accounts@.len() implies self.accounts@[p].id
                < self.accounts@[q].id by {
                if i > 0 {
                    assert(before[i - 1].id == i - 1);
                }
            };
            assert forall|id: u64| self.contains_id(id) implies (old(self).contains_id(id) || id
                == apikey_id) by {
                let k = choose|k: int| 0 <= k < self.accounts@.len() && self.accounts@[k].id == id;
                if k < i {
                    assert(before[k].id == id);
                } else if k > i {
                    assert(before[k - 1].id == id);
                }
            };
            assert forall|id: u64| old(self).contains_id(id) implies self.contains_id(id) by {
                let k = choose|k: int| 0 <= k < before.len() && before[k].id == id;
                if k < i {
                    assert(self.accounts@[k].id == id);
                } else {
                    assert(self.accounts@[k + 1].id == id);
                }
            };
            assert forall|h: u128| self.contains_hash(h) implies (old(self).contains_hash(h) || h
                == apikey_hash) by {
                let k = choose|k: int| 0 <= k < self.accounts@.len()
                    && self.accounts@[k].apikey_hash == h;
                if k < i {
                    assert(before[k].apikey_hash == h);
                } else if k > i {
                    assert(before[k - 1].apikey_hash == h);
                }
            };
            assert forall|h: u128| old(self).contains_hash(h) implies self.contains_hash(h) by {
                let k = choose|k: int| 0 <= k < before.len() && before[k].apikey_hash == h;
                if k < i {
                    assert(self.accounts@[k].apikey_hash == h);
                } else {
                    assert(self.accounts@[k + 1].apikey_hash == h);
                }
            };
            assert(self.contains_hash(apikey_hash)) by {
                assert(self.accounts@[i as int].apikey_hash == apikey_hash);
            };
            assert(self.contains_id(apikey_id)) by {
                assert(self.accounts@[i as int].id == apikey_id);
            };
        }
        apikey_id
    }

    /// Delete the account owning this credential hash: an unknown hash
    /// reports `NotFound`; otherwise the account is deregistered — the caller
    /// removes its directory tree — and the remaining account count is
    /// returned.  Sibling accounts keep their ids; the freed id becomes the
    /// next candidate for reuse.
    pub fn delete_apikey_api(&mut self, apikey_hash: u128) -> (r: Result<u64, ApiError>)
        requires
            old(self).wf(),
        ensures
            final(self).wf(),
            r is Ok <==> old(self).contains_hash(apikey_hash),
            r is Err ==> *final(self) == *old(self) && (r matches Err(e) && e is NotFound),
            r is Ok ==> final(self).accounts@.len() == old(self).accounts@.len() - 1
                && (r matches Ok(n) && n == final(self).accounts@.len())
                && !final(self).contains_hash(apikey_hash),
            forall|h: u128| h != apikey_hash
                ==> (final(self).contains_hash(h) <==> old(self).contains_hash(h)),
            r is Ok ==> exists|k: int|
                {
                    &&& 0 <= k < old(self).accounts@.len()
                    &&& (#[trigger] old(self).accounts@[k]).apikey_hash == apikey_hash
                    &&& final(self).accounts@ == old(self).accounts@.remove(k)
                },
    {
        match self.find_account(apikey_hash) {
            Some(k) => {
                let ghost before = self.accounts@;
                self.accounts.remove(k);
                proof {
                    before.remove_ensures(k as int);
                    assert forall|h: u128| self.contains_hash(h) implies (old(
                        self,
                    ).contains_hash(h) && h != apikey_hash) by {
                        let p = choose|p: int| 0 <= p < self.accounts@.len()
                            && self.accounts@[p].apikey_hash == h;
                        if p < k {
                            assert(before[p].apikey_hash == h);
                        } else {
                            assert(before[p + 1].apikey_hash == h);
                        }
                    };
                    assert forall|h: u128|
                        old(self).contains_hash(h) && h != apikey_hash implies self.contains_hash(
                        h,
                    ) by {
                        let p = choose|p: int| 0 <= p < before.len() && before[p].apikey_hash == h;
                        if p < k {
                            assert(self.accounts@[p].apikey_hash == h);
                        } else {
                            assert(p != k);
                            assert(self.accounts@[p - 1].apikey_hash == h);
                        }
                    };
                }
                Ok(self.accounts.len() as u64)
            },
            None => Err(ApiError::NotFound),
        }
    }

    /// Register one account loaded during the startup scan: an entry whose
    /// metadata could not be read arrives as `None` and is skipped without
    /// aborting anything; a loaded account — its id, hash, quota and index
    /// list — itself joins the store unless its id or hash is already taken,
    /// in which case the store keeps its existing accounts untouched.
    /// Reports whether an account was loaded.
    pub fn open_apikey(&mut self, loaded: Option<ApikeyAccount>) -> (r: bool)
        requires
            old(self).wf(),
            loaded matches Some(a) ==> a.wf(),
            old(self).accounts@.len() < usize::MAX,
        ensures
            final(self).wf(),
            r <==> loaded is Some,
            final(self).accounts@ == register_entry_spec(old(self).accounts@, loaded),
            loaded matches Some(a) ==> ((!old(self).contains_id(a.id) && !old(self).contains_hash(
                a.apikey_hash,
            )) ==> exists|k: int|
                0 <= k <= old(self).accounts@.len() && final(self).accounts@ == old(
                    self,
                ).accounts@.insert(k, a)),
            loaded matches Some(a) ==> (final(self).contains_id(a.id)
                || old(self).contains_hash(a.apikey_hash)),
            forall|id: u64| old(self).contains_id(id) ==> final(self).contains_id(id),
            forall|h: u128| old(self).contains_hash(h) ==> final(self).contains_hash(h),
            forall|h: u128| final(self).contains_hash(h) ==> (old(self).contains_hash(h)
                || (loaded matches Some(a) && a.apikey_hash == h)),
            forall|id: u64| final(self).contains_id(id) ==> (old(self).contains_id(id)
                || (loaded matches Some(a) && a.id == id)),
            final(self).accounts@.len() <= old(self).accounts@.len() + 1,
            loaded is None ==> *final(self) == *old(self),
    {
        match loaded {
            Some(account) => {
                let ghost a = account;
                let ghost pre = self.accounts@;
                self.register_recovered_account(account);
                proof {
                    if !accounts_contain_id(pre, a.id) && !accounts_contain_hash(
                        pre,
                        a.apikey_hash,
                    ) {
                        lemma_account_insert_pos_bounds(pre, a.id);
                        assert(self.accounts@ == pre.insert(account_insert_pos(pre, a.id), a));
                    }
                }
                true
            },
            None => false,
        }
    }

    /// Register one recovered account: an id or hash already claimed leaves
    /// the store exactly as it is; otherwise the loaded account itself joins
    /// at its sorted position.
    #[verifier::loop_isolation(false)]
    fn register_recovered_account(&mut self, account: ApikeyAccount)
        requires
            old(self).wf(),
            account.wf(),
            old(self).accounts@.len() < usize::MAX,
        ensures
            final(self).wf(),
            final(self).accounts@ == register_account_spec(old(self).accounts@, account),
            (old(self).contains_id(account.id) || old(self).contains_hash(account.apikey_hash))
                ==> *final(self) == *old(self),
            final(self).contains_id(account.id) || old(self).contains_hash(account.apikey_hash),
            forall|id: u64| old(self).contains_id(id) ==> final(self).contains_id(id),
            forall|h: u128| old(self).contains_hash(h) ==> final(self).contains_hash(h),
            forall|h: u128| final(self).contains_hash(h)
                ==> (old(self).contains_hash(h) || h == account.apikey_hash),
            forall|id: u64| final(self).contains_id(id)
                ==> (old(self).contains_id(id) || id == account.id),
            final(self).accounts@.len() <= old(self).accounts@.len() + 1,
    {
        match self.find_account(account.apikey_hash) {
            Some(k) => {
                // The hash is already claimed: hash uniqueness keeps the
                // existing account, and the colliding entry is skipped.
                proof {
                    assert(old(self).contains_hash(account.apikey_hash)) by {
                        assert(self.accounts@[k as int].apikey_hash == account.apikey_hash);
                    };
                    assert(register_account_spec(self.accounts@, account) == self.accounts@);
                }
            },
            None => {
                self.insert_account_sorted(account);
            },
        }
    }

    /// Register an account whose hash is fresh: an id already present leaves
    /// the store exactly as it is; otherwise the account itself joins at its
    /// sorted position.
    #[verifier::loop_isolation(false)]
    fn insert_account_sorted(&mut self, account: ApikeyAccount)
        requires
            old(self).wf(),
            account.wf(),
            !old(self).contains_hash(account.apikey_hash),
            old(self).accounts@.len() < usize::MAX,
        ensures
            final(self).wf(),
            final(self).accounts@ == register_account_spec(old(self).accounts@, account),
            old(self).contains_id(account.id) ==> *final(self) == *old(self),
            final(self).contains_id(account.id),
            forall|id: u64| old(self).contains_id(id) ==> final(self).contains_id(id),
            forall|h: u128| old(self).contains_hash(h) ==> final(self).contains_hash(h),
            forall|h: u128| final(self).contains_hash(h)
                ==> (old(self).contains_hash(h) || h == account.apikey_hash),
            forall|id: u64| final(self).contains_id(id)
                ==> (old(self).contains_id(id) || id == account.id),
            final(self).accounts@.len() <= old(self).accounts@.len() + 1,
    {
        let n = self.accounts.len();
        let mut i: usize = 0;
        while i < n && self.accounts[i].id < account.id
            invariant
                i <= n,
                forall|k: int| 0 <= k < i ==> self.accounts@[k].id < account.id,
            decreases n - i,
        {
            i = i + 1;
        }
        if i < n && self.accounts[i].id == account.id {
            proof {
                assert(self.contains_id(account.id)) by {
                    assert(self.accounts@[i as int].id == account.id);
                };
                assert(register_account_spec(self.accounts@, account) == self.accounts@);
            }
            return;
        }
        proof {
            assert forall|k: int| i <= k < self.accounts@.len() implies self.accounts@[k].id
                > account.id by {
                if k > i {
                    assert(self.accounts@[i as int].id < self.accounts@[k].id);
                }
            };
            assert(!accounts_contain_id(self.accounts@, account.id)) by {
                if accounts_contain_id(self.accounts@, account.id) {
                    let k = choose|k: int| 0 <= k < self.accounts@.len() && self.accounts@[k].id
                        == account.id;
                }
            };
            assert forall|k: int| 0 <= k < i as int
                implies (#[trigger] self.accounts@[k]).id < account.id by {};
            lemma_account_insert_pos_unique(self.accounts@, account.id, i as int);
        }
        let ghost before = self.accounts@;
        self.accounts.insert(i, account);
        proof {
            before.insert_ensures(i as int, account);
            assert(self.accounts@ == register_account_spec(before, account));
            assert forall|h: u128| self.contains_hash(h) implies (old(self).contains_hash(h) || h
                == account.apikey_hash) by {
                let k = choose|k: int| 0 <= k < self.accounts@.len()
                    && self.accounts@[k].apikey_hash == h;
                if k < i {
                    assert(before[k].apikey_hash == h);
                } else if k > i {
                    assert(before[k - 1].apikey_hash == h);
                }
            };
            assert(self.contains_id(account.id)) by {
                assert(self.accounts@[i as int].id == account.id);
            };
            assert forall|p: int, q: int|
                0 <= p < q < self.accounts@.len() implies self.accounts@[p].apikey_hash
                != self.accounts@[q].apikey_hash by {
                if p < i && q > i {
                    assert(before[p].apikey_hash != before[q - 1].apikey_hash);
                }
                if p == i {
                    assert(!old(self).contains_hash(account.apikey_hash));
                    if self.accounts@[q].apikey_hash == account.apikey_hash {
                        assert(before[q - 1].apikey_hash == account.apikey_hash);
                        assert(old(self).contains_hash(account.apikey_hash));
                    }
                }
                if q == i {
                    if self.accounts@[p].apikey_hash == account.apikey_hash {
                        assert(before[p].apikey_hash == account.apikey_hash);
                        assert(old(self).contains_hash(account.apikey_hash));
                    }
                }
            };
            assert forall|id: u64| old(self).contains_id(id) implies self.contains_id(id) by {
                let k = choose|k: int| 0 <= k < before.len() && before[k].id == id;
                if k < i {
                    assert(self.accounts@[k].id == id);
                } else {
                    assert(self.accounts@[k + 1].id == id);
                }
            };
            assert forall|id: u64| self.contains_id(id) implies (old(self).contains_id(id) || id
                == account.id) by {
                let k = choose|k: int| 0 <= k < self.accounts@.len() && self.accounts@[k].id == id;
                if k < i {
                    assert(before[k].id == id);
                } else if k > i {
                    assert(before[k - 1].id == id);
                }
            };
            assert forall|h: u128| old(self).contains_hash(h) implies self.contains_hash(h) by {
                let k = choose|k: int| 0 <= k < before.len() && before[k].apikey_hash == h;
                if k < i {
                    assert(self.accounts@[k].apikey_hash == h);
                } else {
                    assert(self.accounts@[k + 1].apikey_hash == h);
                }
            };
        }
    }

    /// Recover every account found below the root, in scan order: each entry
    /// is either a loaded account or `None` for one whose metadata could not
    /// be read.  A corrupt entry is skipped without aborting the scan; every
    /// loaded account itself registers unless its id or hash is already
    /// claimed, and a scan that loaded nothing leaves the store unchanged.
    /// Reports whether at least one account was loaded.
    pub fn open_all_apikeys(&mut self, loaded: Vec<Option<ApikeyAccount>>) -> (r: bool)
        requires
            old(self).wf(),
            forall|k: int| 0 <= k < loaded@.len()
                ==> ((#[trigger] loaded@[k]) matches Some(a) ==> a.wf()),
            old(self).accounts@.len() + loaded@.len() <= usize::MAX,
        ensures
            final(self).wf(),
            r <==> exists|k: int| 0 <= k < loaded@.len() && (#[trigger] loaded@[k]) is Some,
            final(self).accounts@ == register_entries_spec(old(self).accounts@, loaded@),
            loaded@.len() == 0 ==> final(self).accounts@ == old(self).accounts@,
            forall|k: int| 0 <= k < loaded@.len()
                ==> ((#[trigger] loaded@[k]) matches Some(a)
                    ==> (final(self).contains_id(a.id)
                        || final(self).contains_hash(a.apikey_hash))),
            forall|id: u64| old(self).contains_id(id) ==> final(self).contains_id(id),
            forall|id: u64| final(self).contains_id(id) ==> (old(self).contains_id(id)
                || exists|k: int| 0 <= k < loaded@.len()
                    && ((#[trigger] loaded@[k]) matches Some(a) && a.id == id)),
    {
        let mut pending = loaded;
        let ghost orig = *old(self);
        let ghost all = loaded@;
        let n = pending.len();
        proof {
            assert(all.subrange(0, 0) =~= Seq::<Option<ApikeyAccount>>::empty());
            assert(register_entries_spec(orig.accounts@, all.subrange(0, 0)) == orig.accounts@);
        }
        let mut any_loaded = false;
        let mut i: usize = 0;
        while i < n
            invariant
                i <= n,
                n == all.len(),
                pending@ == all.subrange(i as int, n as int),
                self.wf(),
                self.accounts@ == register_entries_spec(
                    orig.accounts@,
                    all.subrange(0, i as int),
                ),
                any_loaded <==> exists|k: int| 0 <= k < i && (#[trigger] all[k]) is Some,
                forall|k: int| 0 <= k < i
                    ==> ((#[trigger] all[k]) matches Some(a)
                        ==> (self.contains_id(a.id) || self.contains_hash(a.apikey_hash))),
                forall|id: u64| orig.contains_id(id) ==> self.contains_id(id),
                forall|h: u128| orig.contains_hash(h) ==> self.contains_hash(h),
                forall|id: u64| self.contains_id(id) ==> (orig.contains_id(id)
                    || exists|k: int| 0 <= k < all.len()
                        && ((#[trigger] all[k]) matches Some(a) && a.id == id)),
                forall|k: int| 0 <= k < all.len()
                    ==> ((#[trigger] all[k]) matches Some(a) ==> a.wf()),
                self.accounts@.len() + (n - i) <= usize::MAX,
            decreases n - i,
        {
            let entry = pending.remove(0);
            proof {
                assert(entry == all[i as int]);
                assert(pending@ =~= all.subrange(i as int + 1, n as int));
            }
            let opened = self.open_apikey(entry);
            any_loaded = any_loaded || opened;
            proof {
                let prefix = all.subrange(0, i as int);
                let prefix1 = all.subrange(0, i as int + 1);
                assert(prefix1 =~= prefix.push(all[i as int]));
                lemma_register_entries_snoc(orig.accounts@, prefix, all[i as int]);
            }
            i = i + 1;
        }
        proof {
            assert(all.subrange(0, n as int) =~= all);
            if all.len() == 0 {
                assert(register_entries_spec(orig.accounts@, all) == orig.accounts@);
            }
        }
        any_loaded
    }
}

} // verus!
