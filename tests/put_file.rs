use ft_sync::delete_file::{DeleteFile, DeleteOutcome};
use ft_sync::engine::{Action, Event, PutFile, PutOutcome, SyncError};
use ft_sync::kvstorage::{StorageOp, StorageReply};
use ft_sync::locks::{LocksStorage, LocksType};
use std::collections::{HashMap, HashSet};

const HELLO: &str = "2cf24dba5fb0a30e26e83b2ac5b9e29e1b161e5c1fa7425e73043362938b9824";
const WORLD: &str = "486ea46224d1bb4fb680f34f7c9ad96a8f24ec88be73ea8e5a6c65260e9cb8a7";

#[derive(Default)]
struct Store {
    ref_count: HashMap<(String, String), i32>,
    modified: HashMap<(String, String), i64>,
    ref_file: HashMap<(String, String), String>,
    blobs: HashSet<String>,
    deleted_blobs: Vec<String>,
    fail_write: Option<usize>,
    fail_blob_put: bool,
    writes: usize,
}

impl Store {
    fn count(&self, bucket: &str, hash: &str) -> i32 {
        *self.ref_count.get(&(bucket.to_string(), hash.to_string())).unwrap_or(&0)
    }

    fn modified(&self, bucket: &str, path: &str) -> i64 {
        *self.modified.get(&(bucket.to_string(), path.to_string())).unwrap_or(&0)
    }

    fn ref_file(&self, bucket: &str, path: &str) -> String {
        self.ref_file.get(&(bucket.to_string(), path.to_string())).cloned().unwrap_or_default()
    }

    fn perform(&mut self, op: StorageOp<String>) -> Event<String> {
        let is_write = !matches!(
            op,
            StorageOp::GetRefCount { .. } | StorageOp::GetModified { .. } | StorageOp::GetRefFile { .. }
        );
        if is_write {
            if self.fail_write == Some(self.writes) {
                self.writes += 1;
                return Event::Failed;
            }
            self.writes += 1;
        }
        let reply = match op {
            StorageOp::GetRefCount { bucket, hash } => StorageReply::Count(self.count(&bucket, &hash)),
            StorageOp::SetRefCount { bucket, hash, value } => {
                self.ref_count.insert((bucket, hash), value);
                StorageReply::Written
            }
            StorageOp::GetModified { bucket, path } => StorageReply::Modified(self.modified(&bucket, &path)),
            StorageOp::SetModified { bucket, path, value } => {
                self.modified.insert((bucket, path), value);
                StorageReply::Written
            }
            StorageOp::DeleteModified { bucket, path } => {
                self.modified.remove(&(bucket, path));
                StorageReply::Written
            }
            StorageOp::GetRefFile { bucket, path } => StorageReply::RefFile(self.ref_file(&bucket, &path)),
            StorageOp::SetRefFile { bucket, path, hash } => {
                self.ref_file.insert((bucket, path), hash);
                StorageReply::Written
            }
            StorageOp::DeleteRefFile { bucket, path } => {
                self.ref_file.remove(&(bucket, path));
                StorageReply::Written
            }
        };
        Event::Completed(reply)
    }
}

fn perform_action<O>(store: &mut Store, locks: &mut LocksStorage, action: Action<String, O>) -> Result<Event<String>, O> {
    Ok(match action {
        Action::AcquireExclusive(key) => {
            if locks.acquire_exclusive(&key) {
                Event::Granted
            } else {
                Event::Failed
            }
        }
        Action::Release(key) => {
            locks.release(&key);
            Event::Released
        }
        Action::Storage(op) => store.perform(op),
        Action::PutBlob(hash) => {
            if store.fail_blob_put {
                Event::Failed
            } else {
                store.blobs.insert(hash);
                Event::Completed(StorageReply::Written)
            }
        }
        Action::DeleteBlob(hash) => {
            store.blobs.remove(&hash);
            store.deleted_blobs.push(hash);
            Event::Completed(StorageReply::Written)
        }
        Action::Finish(outcome) => return Err(outcome),
    })
}

fn drive(store: &mut Store, locks: &mut LocksStorage, mut req: PutFile) -> PutOutcome {
    loop {
        match perform_action(store, locks, req.action()) {
            Ok(event) => req.step(event),
            Err(outcome) => return outcome,
        }
    }
}

fn remove(store: &mut Store, locks: &mut LocksStorage, path: &str) -> DeleteOutcome {
    let mut req = DeleteFile::new("b", path);
    loop {
        match perform_action(store, locks, req.action()) {
            Ok(event) => req.step(event),
            Err(outcome) => return outcome,
        }
    }
}

fn put(store: &mut Store, locks: &mut LocksStorage, path: &str, content: &str, t: i64) -> PutOutcome {
    drive(store, locks, PutFile::new("b", path, content.as_bytes(), t))
}

fn no_lock_held(locks: &mut LocksStorage, keys: &[&str]) -> bool {
    keys.iter().all(|k| {
        let free = locks.acquire_exclusive(k);
        if free {
            locks.release(k);
        }
        free
    })
}

#[test]
fn scenario_hello_then_stale_then_world() {
    let mut store = Store::default();
    let mut locks = *LocksStorage::new(&LocksType::Memory);
    assert_eq!(put(&mut store, &mut locks, "/a", "hello", 1000), PutOutcome::Accepted(1000));
    assert_eq!(store.count("b", HELLO), 1);
    assert_eq!(store.ref_file("b", "/a"), HELLO);
    assert_eq!(store.modified("b", "/a"), 1000);

    assert_eq!(put(&mut store, &mut locks, "/a", "world", 999), PutOutcome::Stale(1000));
    assert_eq!(store.count("b", HELLO), 1);
    assert_eq!(store.count("b", WORLD), 0);
    assert_eq!(store.ref_file("b", "/a"), HELLO);
    assert_eq!(store.modified("b", "/a"), 1000);

    assert_eq!(put(&mut store, &mut locks, "/a", "world", 2000), PutOutcome::Accepted(2000));
    assert_eq!(store.count("b", HELLO), 0);
    assert_eq!(store.count("b", WORLD), 1);
    assert_eq!(store.ref_file("b", "/a"), WORLD);
    assert_eq!(store.modified("b", "/a"), 2000);
    assert_eq!(store.deleted_blobs, vec![HELLO.to_string()]);
    assert!(store.blobs.contains(WORLD));
    assert!(no_lock_held(&mut locks, &["file:b:/a", &format!("hash:b:{}", HELLO), &format!("hash:b:{}", WORLD)]));
}

#[test]
fn stale_write_with_equal_time_changes_nothing() {
    let mut store = Store::default();
    let mut locks = *LocksStorage::new(&LocksType::Memory);
    assert_eq!(put(&mut store, &mut locks, "/p", "hello", 50), PutOutcome::Accepted(50));
    assert_eq!(put(&mut store, &mut locks, "/p", "world", 50), PutOutcome::Stale(50));
    assert_eq!(put(&mut store, &mut locks, "/p", "world", 10), PutOutcome::Stale(50));
    assert_eq!(store.ref_file("b", "/p"), HELLO);
    assert_eq!(store.modified("b", "/p"), 50);
    assert_eq!(store.count("b", HELLO), 1);
    assert_eq!(store.count("b", WORLD), 0);
}

#[test]
fn newer_write_moves_references() {
    let mut store = Store::default();
    let mut locks = *LocksStorage::new(&LocksType::Memory);
    put(&mut store, &mut locks, "/p", "hello", 1);
    put(&mut store, &mut locks, "/q", "hello", 1);
    assert_eq!(store.count("b", HELLO), 2);
    assert_eq!(put(&mut store, &mut locks, "/p", "world", 2), PutOutcome::Accepted(2));
    assert_eq!(store.count("b", HELLO), 1);
    assert_eq!(store.count("b", WORLD), 1);
    assert!(store.deleted_blobs.is_empty());
}

#[test]
fn same_content_same_time_bumps_nothing_but_time() {
    let mut store = Store::default();
    let mut locks = *LocksStorage::new(&LocksType::Memory);
    put(&mut store, &mut locks, "/p", "hello", 1);
    assert_eq!(put(&mut store, &mut locks, "/p", "hello", 5), PutOutcome::Accepted(5));
    assert_eq!(store.count("b", HELLO), 1);
    assert_eq!(store.modified("b", "/p"), 5);
}

#[test]
fn identical_content_is_shared_between_paths() {
    let mut store = Store::default();
    let mut locks = *LocksStorage::new(&LocksType::Memory);
    assert_eq!(put(&mut store, &mut locks, "/p1", "hello", 7), PutOutcome::Accepted(7));
    assert_eq!(put(&mut store, &mut locks, "/p2", "hello", 8), PutOutcome::Accepted(8));
    assert_eq!(store.ref_file("b", "/p1"), HELLO);
    assert_eq!(store.ref_file("b", "/p2"), HELLO);
    assert_eq!(store.count("b", HELLO), 2);
}

#[test]
fn serialized_writes_newest_wins_in_any_order() {
    let contents = ["c1", "c2", "c3", "c4", "c5"];
    let orders: [[usize; 5]; 3] = [[0, 1, 2, 3, 4], [4, 3, 2, 1, 0], [2, 4, 0, 3, 1]];
    for order in orders.iter() {
        let mut store = Store::default();
        let mut locks = *LocksStorage::new(&LocksType::Memory);
        for &i in order.iter() {
            let outcome = put(&mut store, &mut locks, "/p", contents[i], 100 + i as i64);
            assert!(!matches!(outcome, PutOutcome::Failed(_)));
        }
        let last = ft_sync::content::content_hash(b"c5");
        assert_eq!(store.modified("b", "/p"), 104);
        assert_eq!(store.ref_file("b", "/p"), last);
        assert_eq!(store.count("b", &last), 1);
        for c in contents.iter().take(4) {
            assert_eq!(store.count("b", &ft_sync::content::content_hash(c.as_bytes())), 0);
        }
    }
}

#[test]
fn decrement_at_zero_stays_zero() {
    let mut store = Store::default();
    let mut locks = *LocksStorage::new(&LocksType::Memory);
    store.ref_file.insert(("b".to_string(), "/p".to_string()), HELLO.to_string());
    store.modified.insert(("b".to_string(), "/p".to_string()), 1);
    assert_eq!(put(&mut store, &mut locks, "/p", "world", 2), PutOutcome::Accepted(2));
    assert_eq!(store.count("b", HELLO), 0);
    assert!(!store.ref_count.contains_key(&("b".to_string(), HELLO.to_string())));
    assert!(store.deleted_blobs.is_empty());
}

#[test]
fn buckets_are_isolated() {
    let mut store = Store::default();
    let mut locks = *LocksStorage::new(&LocksType::Memory);
    put(&mut store, &mut locks, "/p", "hello", 9);
    let outcome = drive(&mut store, &mut locks, PutFile::new("other", "/p", b"hello", 3));
    assert_eq!(outcome, PutOutcome::Accepted(3));
    assert_eq!(store.count("b", HELLO), 1);
    assert_eq!(store.count("other", HELLO), 1);
    assert_eq!(store.modified("b", "/p"), 9);
}

fn assert_store_as_after_hello(store: &Store) {
    assert_eq!(store.count("b", HELLO), 1);
    assert_eq!(store.count("b", WORLD), 0);
    assert_eq!(store.ref_file("b", "/p"), HELLO);
    assert_eq!(store.modified("b", "/p"), 1);
    assert!(store.deleted_blobs.is_empty());
}

#[test]
fn storage_failure_releases_every_lock() {
    for limit in 0..4 {
        let mut store = Store::default();
        let mut locks = *LocksStorage::new(&LocksType::Memory);
        put(&mut store, &mut locks, "/p", "hello", 1);
        store.fail_write = Some(store.writes + limit);
        let outcome = put(&mut store, &mut locks, "/p", "world", 2);
        assert_eq!(outcome, PutOutcome::Failed(SyncError::StorageFailure));
        assert_store_as_after_hello(&store);
        assert!(no_lock_held(&mut locks, &["file:b:/p", &format!("hash:b:{}", HELLO), &format!("hash:b:{}", WORLD)]));
    }
}

#[test]
fn failed_blob_write_takes_counts_back() {
    let mut store = Store::default();
    let mut locks = *LocksStorage::new(&LocksType::Memory);
    put(&mut store, &mut locks, "/p", "hello", 1);
    store.fail_blob_put = true;
    let outcome = put(&mut store, &mut locks, "/p", "world", 2);
    assert_eq!(outcome, PutOutcome::Failed(SyncError::StorageFailure));
    assert_store_as_after_hello(&store);
}

#[test]
fn failed_write_on_fresh_path_leaves_nothing() {
    let mut store = Store::default();
    let mut locks = *LocksStorage::new(&LocksType::Memory);
    store.fail_write = Some(1);
    let outcome = put(&mut store, &mut locks, "/p", "hello", 1);
    assert_eq!(outcome, PutOutcome::Failed(SyncError::StorageFailure));
    assert_eq!(store.count("b", HELLO), 0);
    assert_eq!(store.ref_file("b", "/p"), "");
    assert_eq!(store.modified("b", "/p"), 0);
}

#[test]
fn content_taken_again_before_collection_is_kept() {
    let mut store = Store::default();
    let mut locks = *LocksStorage::new(&LocksType::Memory);
    put(&mut store, &mut locks, "/p", "hello", 1);
    let mut a = PutFile::new("b", "/p", b"world", 2);
    // run the first request until its old hash's count is written as zero
    while store.count("b", HELLO) != 0 {
        match perform_action(&mut store, &mut locks, a.action()) {
            Ok(event) => a.step(event),
            Err(_) => panic!("finished too early"),
        }
    }
    // let go of the old hash's lock; a second request then takes the same
    // content again before the first one collects it
    match perform_action(&mut store, &mut locks, a.action()) {
        Ok(event) => a.step(event),
        Err(_) => panic!("finished too early"),
    }
    assert_eq!(put(&mut store, &mut locks, "/q", "hello", 3), PutOutcome::Accepted(3));
    assert_eq!(drive(&mut store, &mut locks, a), PutOutcome::Accepted(2));
    assert_eq!(store.count("b", HELLO), 1);
    assert!(store.blobs.contains(HELLO));
    assert!(store.deleted_blobs.is_empty());
}

#[test]
fn full_reference_count_fails_without_change() {
    let mut store = Store::default();
    let mut locks = *LocksStorage::new(&LocksType::Memory);
    store.ref_count.insert(("b".to_string(), HELLO.to_string()), i32::MAX);
    let outcome = put(&mut store, &mut locks, "/p", "hello", 1);
    assert_eq!(outcome, PutOutcome::Failed(SyncError::StorageFailure));
    assert_eq!(store.ref_file("b", "/p"), "");
    assert_eq!(store.modified("b", "/p"), 0);
    assert_eq!(store.count("b", HELLO), i32::MAX);
    assert!(no_lock_held(&mut locks, &["file:b:/p", &format!("hash:b:{}", HELLO)]));
}

#[test]
fn busy_path_lock_reports_lock_unavailable() {
    let mut store = Store::default();
    let mut locks = *LocksStorage::new(&LocksType::Memory);
    assert!(locks.acquire_exclusive("file:b:/p"));
    let outcome = put(&mut store, &mut locks, "/p", "hello", 1);
    assert_eq!(outcome, PutOutcome::Failed(SyncError::LockUnavailable));
    assert_eq!(store.modified("b", "/p"), 0);
    assert!(locks.release("file:b:/p"));
}

#[test]
fn request_with_bad_date_is_invalid_input() {
    let r = PutFile::from_request("b", "/p", b"hello", "not a date");
    assert!(matches!(r, Err(SyncError::InvalidInput)));
}

#[test]
fn request_with_rfc2822_date_uses_its_seconds() {
    let mut store = Store::default();
    let mut locks = *LocksStorage::new(&LocksType::Memory);
    let req = match PutFile::from_request("b", "/p", b"hello", "Thu, 01 Jan 1970 00:16:40 +0000") {
        Ok(r) => r,
        Err(_) => panic!("date should parse"),
    };
    assert_eq!(req.content_hash(), HELLO);
    assert_eq!(drive(&mut store, &mut locks, req), PutOutcome::Accepted(1000));
}

#[test]
fn deleting_last_reference_collects_blob() {
    let mut store = Store::default();
    let mut locks = *LocksStorage::new(&LocksType::Memory);
    put(&mut store, &mut locks, "/p", "hello", 5);
    assert_eq!(remove(&mut store, &mut locks, "/p"), DeleteOutcome::Deleted);
    assert_eq!(store.count("b", HELLO), 0);
    assert_eq!(store.ref_file("b", "/p"), "");
    assert_eq!(store.modified("b", "/p"), 0);
    assert_eq!(store.deleted_blobs, vec![HELLO.to_string()]);
    assert!(no_lock_held(&mut locks, &["file:b:/p", &format!("hash:b:{}", HELLO)]));
}

#[test]
fn deleting_shared_content_keeps_blob() {
    let mut store = Store::default();
    let mut locks = *LocksStorage::new(&LocksType::Memory);
    put(&mut store, &mut locks, "/p", "hello", 5);
    put(&mut store, &mut locks, "/q", "hello", 5);
    assert_eq!(remove(&mut store, &mut locks, "/p"), DeleteOutcome::Deleted);
    assert_eq!(store.count("b", HELLO), 1);
    assert_eq!(store.ref_file("b", "/q"), HELLO);
    assert!(store.deleted_blobs.is_empty());
}

#[test]
fn deleting_absent_path_succeeds_without_change() {
    let mut store = Store::default();
    let mut locks = *LocksStorage::new(&LocksType::Memory);
    assert_eq!(remove(&mut store, &mut locks, "/none"), DeleteOutcome::Deleted);
    assert!(store.ref_count.is_empty());
    assert!(store.deleted_blobs.is_empty());
}

#[test]
fn deleted_path_accepts_any_later_write() {
    let mut store = Store::default();
    let mut locks = *LocksStorage::new(&LocksType::Memory);
    put(&mut store, &mut locks, "/p", "hello", 500);
    remove(&mut store, &mut locks, "/p");
    assert_eq!(put(&mut store, &mut locks, "/p", "world", 1), PutOutcome::Accepted(1));
    assert_eq!(store.count("b", WORLD), 1);
}

#[test]
fn delete_storage_failure_releases_locks() {
    for limit in 0..3 {
        let mut store = Store::default();
        let mut locks = *LocksStorage::new(&LocksType::Memory);
        put(&mut store, &mut locks, "/p", "hello", 1);
        store.fail_write = Some(store.writes + limit);
        assert_eq!(
            remove(&mut store, &mut locks, "/p"),
            DeleteOutcome::Failed(SyncError::StorageFailure)
        );
        assert_store_as_after_hello(&store);
        assert!(no_lock_held(&mut locks, &["file:b:/p", &format!("hash:b:{}", HELLO)]));
    }
}
