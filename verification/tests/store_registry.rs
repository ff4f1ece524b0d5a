use tenancy_core::registry::{
    create_index_api, delete_index_api, get_index_stats_api, open_all_indices, ApikeyAccount,
    ApikeyQuota,
};
use tenancy_core::handle::{IndexHandle, IndexMeta};
use tenancy_core::persist::AtomicFile;
use tenancy_core::store::ApikeyStore;
use tenancy_core::types::{
    query_type_api, similarity_type_api, tokenizer_type_api, AccessType, QueryType, SchemaField,
    SimilarityType, TokenizerType,
};
use tenancy_core::ApiError;

fn quota() -> ApikeyQuota {
    ApikeyQuota { payload: String::new() }
}

fn account(id: u64, apikey_hash: u128) -> ApikeyAccount {
    ApikeyAccount { id, apikey_hash, quota: quota(), index_list: Vec::new() }
}

fn meta(id: u64) -> IndexMeta {
    IndexMeta {
        id,
        name: "idx".to_string(),
        similarity: similarity_type_api(),
        tokenizer: tokenizer_type_api(),
        access_type: AccessType::Mmap,
    }
}

#[test]
fn apikey_id_reuse_after_delete() {
    let mut store = ApikeyStore::new();
    assert_eq!(store.create_apikey_api(11, quota()), 0);
    assert_eq!(store.create_apikey_api(22, quota()), 1);
    assert_eq!(store.create_apikey_api(33, quota()), 2);
    // Delete the account with id 2 (hash 33); two accounts remain.
    assert_eq!(store.delete_apikey_api(33).unwrap(), 2);
    // The freed id is reused: the new account gets 2, not 3.
    assert_eq!(store.create_apikey_api(44, quota()), 2);
}

#[test]
fn apikey_smallest_gap_is_reused() {
    let mut store = ApikeyStore::new();
    assert_eq!(store.create_apikey_api(11, quota()), 0);
    assert_eq!(store.create_apikey_api(22, quota()), 1);
    assert_eq!(store.create_apikey_api(33, quota()), 2);
    assert_eq!(store.delete_apikey_api(22).unwrap(), 2);
    assert_eq!(store.create_apikey_api(44, quota()), 1);
    assert_eq!(store.create_apikey_api(55, quota()), 3);
}

#[test]
fn delete_unknown_apikey_reports_not_found() {
    let mut store = ApikeyStore::new();
    store.create_apikey_api(11, quota());
    assert!(matches!(store.delete_apikey_api(99), Err(ApiError::NotFound)));
    assert_eq!(store.account_count(), 1);
}

#[test]
fn recovery_skips_corrupt_entry() {
    let mut store = ApikeyStore::new();
    // Three entries scanned below the root: one corrupt metadata file among
    // them arrives as None.  Exactly the two readable accounts register.
    let loaded = vec![Some(account(0, 111)), None, Some(account(2, 333))];
    let any = store.open_all_apikeys(loaded);
    assert!(any);
    assert_eq!(store.account_count(), 2);
    assert!(store.find_account(111).is_some());
    assert!(store.find_account(333).is_some());
}

#[test]
fn recovery_of_empty_root_registers_nothing() {
    let mut store = ApikeyStore::new();
    let any = store.open_all_apikeys(vec![None, None]);
    assert!(!any);
    assert_eq!(store.account_count(), 0);
}

#[test]
fn recovered_account_keeps_its_id() {
    let mut store = ApikeyStore::new();
    assert!(store.open_apikey(Some(account(7, 777))));
    assert!(!store.open_apikey(None));
    assert_eq!(store.account_count(), 1);
    // A later creation fills the smallest gap below the recovered id.
    assert_eq!(store.create_apikey_api(888, quota()), 0);
}

#[test]
fn index_id_allocation_and_reuse() {
    let mut acct = account(0, 11);
    let id0 = create_index_api(
        &mut acct,
        "first".to_string(),
        Vec::new(),
        similarity_type_api(),
        tokenizer_type_api(),
        Vec::new(),
    );
    assert_eq!(id0, 0);
    let id1 = create_index_api(
        &mut acct,
        "second".to_string(),
        Vec::new(),
        similarity_type_api(),
        tokenizer_type_api(),
        Vec::new(),
    );
    assert_eq!(id1, 1);
    assert_eq!(delete_index_api(&mut acct, 0).unwrap(), 1);
    let reused = create_index_api(
        &mut acct,
        "third".to_string(),
        Vec::new(),
        similarity_type_api(),
        tokenizer_type_api(),
        Vec::new(),
    );
    assert_eq!(reused, 0);
}

#[test]
fn delete_unknown_index_reports_not_found() {
    let mut acct = account(0, 11);
    assert!(matches!(delete_index_api(&mut acct, 5), Err(ApiError::NotFound)));
}

#[test]
fn index_stats_report_configuration() {
    let mut acct = account(0, 11);
    let schema = vec![SchemaField {
        field: "title".to_string(),
        stored: true,
        indexed: true,
        facet: false,
    }];
    let id = create_index_api(
        &mut acct,
        "books".to_string(),
        schema,
        similarity_type_api(),
        tokenizer_type_api(),
        Vec::new(),
    );
    let stats = get_index_stats_api(&acct, id, "0.1.0".to_string(), Vec::new()).unwrap();
    assert_eq!(stats.id, id);
    assert_eq!(stats.name, "books");
    assert_eq!(stats.schema.len(), 1);
    assert_eq!(stats.schema[0].field, "title");
    assert_eq!(stats.indexed_doc_count, 0);
    assert_eq!(stats.operations_count, 0);
    assert_eq!(stats.version, "0.1.0");
    assert!(matches!(
        get_index_stats_api(&acct, 42, "0.1.0".to_string(), Vec::new()),
        Err(ApiError::NotFound)
    ));
}

#[test]
fn recovered_account_keeps_its_content() {
    let mut store = ApikeyStore::new();
    let mut a = account(3, 555);
    a.quota = ApikeyQuota { payload: "{\"indices_max\":7}".to_string() };
    assert!(store.open_apikey(Some(a)));
    let k = store.find_account(555).unwrap();
    assert_eq!(store.accounts[k].id, 3);
    assert_eq!(store.accounts[k].quota.payload, "{\"indices_max\":7}");
    assert!(store.accounts[k].index_list.is_empty());
}

#[test]
fn recovering_no_indices_changes_nothing() {
    let mut acct = account(0, 11);
    let id = create_index_api(
        &mut acct,
        "only".to_string(),
        Vec::new(),
        similarity_type_api(),
        tokenizer_type_api(),
        Vec::new(),
    );
    open_all_indices(&mut acct, Vec::new());
    assert_eq!(acct.index_list.len(), 1);
    assert_eq!(acct.index_list[0].meta.id, id);
    assert_eq!(acct.index_list[0].meta.name, "only");
}

#[test]
fn recovered_index_keeps_its_handle() {
    let mut acct = account(0, 11);
    let mut h = IndexHandle::new(meta(4), Vec::new(), Vec::new());
    assert!(h.lock.try_acquire_exclusive());
    h.index_document_api(Vec::new());
    h.lock.release_exclusive();
    open_all_indices(&mut acct, vec![h]);
    let k = acct.find_index(4).unwrap();
    assert_eq!(acct.index_list[k].indexed_doc_count(), 1);
    assert_eq!(acct.index_list[k].meta.name, "idx");
}

#[test]
fn recovered_indices_register_under_their_ids() {
    let mut acct = account(0, 11);
    let h0 = IndexHandle::new(meta(0), Vec::new(), Vec::new());
    let h2 = IndexHandle::new(meta(2), Vec::new(), Vec::new());
    open_all_indices(&mut acct, vec![h0, h2]);
    assert!(acct.find_index(0).is_some());
    assert!(acct.find_index(2).is_some());
    assert!(acct.find_index(1).is_none());
}

#[test]
fn atomic_write_survives_interruption() {
    let mut f = AtomicFile::new();
    assert!(f.save_file_atomically("first".to_string(), (true, true)).is_ok());
    assert_eq!(f.read().unwrap(), "first");
    // Interrupted write: the temporary file was written but the rename never
    // ran.  The target keeps its last fully written content and a later read
    // ignores the stale temporary file.
    f.write_temp("second".to_string());
    assert_eq!(f.read().unwrap(), "first");
}

#[test]
fn atomic_write_retries_rename_once() {
    let mut f = AtomicFile::new();
    assert!(f.save_file_atomically("a".to_string(), (false, true)).is_ok());
    assert_eq!(f.read().unwrap(), "a");
    let r = f.save_file_atomically("b".to_string(), (false, false));
    assert!(matches!(r, Err(ApiError::IOFailure(_))));
    assert_eq!(f.read().unwrap(), "a");
}

#[test]
fn default_configuration_values() {
    assert!(matches!(query_type_api(), QueryType::Intersection));
    assert!(matches!(similarity_type_api(), SimilarityType::Bm25fProximity));
    assert!(matches!(tokenizer_type_api(), TokenizerType::UnicodeAlphanumeric));
}
