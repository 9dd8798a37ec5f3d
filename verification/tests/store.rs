//! Tests of the storage capability on the in-memory backend: round
//! trips, missing keys and tables, overwrites, full scans, batches,
//! table isolation and the table cap.

use turtle_store::mem_db::MemDatabase;
use turtle_store::storage::{SafeDatabase, StorageError, MAX_TABLES};

fn fresh() -> MemDatabase {
    MemDatabase::new(".").expect("in-memory store always opens")
}

#[test]
fn test_write_read_round_trip() {
    let mut db = fresh();
    db.write(b"alpha", b"one", "things").unwrap();
    let got = db.read(b"alpha", "things").unwrap();
    assert_eq!(got, Some(b"one".to_vec()));
}

#[test]
fn test_read_missing_table_is_no_value() {
    let db = fresh();
    let got = db.read(b"any_key", "nonexistent_table").unwrap();
    assert!(got.is_none());
}

#[test]
fn test_read_missing_key_is_no_value() {
    let mut db = fresh();
    db.write(b"present", b"v", "things").unwrap();
    let got = db.read(b"absent", "things").unwrap();
    assert!(got.is_none());
}

#[test]
fn test_overwrite_returns_latest() {
    let mut db = fresh();
    db.write(b"k", b"v1", "things").unwrap();
    db.write(b"k", b"v2", "things").unwrap();
    let got = db.read(b"k", "things").unwrap();
    assert_eq!(got, Some(b"v2".to_vec()));
}

#[test]
fn test_read_all_exact_entries() {
    let mut db = fresh();
    db.write(b"a", b"1", "things").unwrap();
    db.write(b"b", b"2", "things").unwrap();
    db.write(b"c", b"3", "things").unwrap();
    let mut all = db.read_all("things").unwrap();
    all.sort();
    assert_eq!(
        all,
        vec![
            (b"a".to_vec(), b"1".to_vec()),
            (b"b".to_vec(), b"2".to_vec()),
            (b"c".to_vec(), b"3".to_vec()),
        ]
    );
}

#[test]
fn test_read_all_missing_table_is_empty() {
    let db = fresh();
    let all = db.read_all("nonexistent_table").unwrap();
    assert!(all.is_empty());
}

#[test]
fn test_batch_write_overwrites_and_adds() {
    let mut db = fresh();
    db.write(b"k1", b"old", "things").unwrap();
    let batch = vec![
        (b"k1".to_vec(), b"new".to_vec()),
        (b"k2".to_vec(), b"b".to_vec()),
        (b"k3".to_vec(), b"c".to_vec()),
    ];
    db.batch_write(&batch, "things").unwrap();
    let mut all = db.read_all("things").unwrap();
    all.sort();
    assert_eq!(
        all,
        vec![
            (b"k1".to_vec(), b"new".to_vec()),
            (b"k2".to_vec(), b"b".to_vec()),
            (b"k3".to_vec(), b"c".to_vec()),
        ]
    );
}

#[test]
fn test_batch_write_later_pair_wins() {
    let mut db = fresh();
    let batch = vec![
        (b"k".to_vec(), b"first".to_vec()),
        (b"k".to_vec(), b"second".to_vec()),
    ];
    db.batch_write(&batch, "things").unwrap();
    assert_eq!(db.read(b"k", "things").unwrap(), Some(b"second".to_vec()));
    assert_eq!(db.read_all("things").unwrap().len(), 1);
}

#[test]
fn test_batch_write_refused_leaves_nothing() {
    let mut db = fresh();
    // Exhaust the table cap, then aim a batch at one more table: the
    // refused batch must leave no entry behind.
    for i in 0..MAX_TABLES {
        let name = format!("table{}", i);
        db.write(b"k", b"v", &name).unwrap();
    }
    let batch = vec![
        (b"k1".to_vec(), b"a".to_vec()),
        (b"k2".to_vec(), b"b".to_vec()),
    ];
    let r = db.batch_write(&batch, "one_too_many");
    assert!(matches!(r, Err(StorageError::TableAccessFailure(_))));
    assert!(db.read_all("one_too_many").unwrap().is_empty());
    assert!(db.read(b"k1", "one_too_many").unwrap().is_none());
    // The earlier tables are untouched.
    assert_eq!(db.read(b"k", "table0").unwrap(), Some(b"v".to_vec()));
}

#[test]
fn test_write_refused_past_table_cap() {
    let mut db = fresh();
    for i in 0..MAX_TABLES {
        let name = format!("table{}", i);
        db.write(b"k", b"v", &name).unwrap();
    }
    let r = db.write(b"k", b"v", "one_too_many");
    assert!(matches!(r, Err(StorageError::TableAccessFailure(_))));
    // Writing into an existing table still succeeds.
    db.write(b"k2", b"v2", "table7").unwrap();
    assert_eq!(db.read(b"k2", "table7").unwrap(), Some(b"v2".to_vec()));
}

#[test]
fn test_table_isolation() {
    let mut db = fresh();
    db.write(b"k", b"v", "table_a").unwrap();
    assert!(db.read(b"k", "table_b").unwrap().is_none());
    db.write(b"k", b"other", "table_b").unwrap();
    assert_eq!(db.read(b"k", "table_a").unwrap(), Some(b"v".to_vec()));
    assert_eq!(db.read(b"k", "table_b").unwrap(), Some(b"other".to_vec()));
}

#[test]
fn test_clone_snapshots_contents() {
    let mut db = fresh();
    db.write(b"k", b"v", "things").unwrap();
    let mut copy = db.clone();
    assert_eq!(copy.read(b"k", "things").unwrap(), Some(b"v".to_vec()));
    // The in-memory backend's clone is a snapshot: later writes to the
    // clone do not reach the original.
    copy.write(b"k2", b"w", "things").unwrap();
    assert!(db.read(b"k2", "things").unwrap().is_none());
}

#[test]
fn test_concurrent_writers_all_present() {
    // Concurrent writers with distinct keys lose nothing once their
    // operations are serialized through one lock. The on-disk backend
    // carries that lock inside the handle; the in-memory backend used
    // here is a value, so the test shares it behind an explicit lock.
    let rt = tokio::runtime::Builder::new_multi_thread()
        .worker_threads(4)
        .build()
        .unwrap();
    rt.block_on(async {
        let db = std::sync::Arc::new(std::sync::Mutex::new(fresh()));
        let mut handles = Vec::new();
        for i in 0..8u32 {
            let db = std::sync::Arc::clone(&db);
            handles.push(tokio::spawn(async move {
                let key = format!("key{}", i);
                db.lock()
                    .unwrap()
                    .write(key.as_bytes(), b"v", "things")
                    .unwrap();
            }));
        }
        for h in handles {
            h.await.unwrap();
        }
        let all = db.lock().unwrap().read_all("things").unwrap();
        assert_eq!(all.len(), 8);
        for i in 0..8u32 {
            let key = format!("key{}", i);
            let got = db.lock().unwrap().read(key.as_bytes(), "things").unwrap();
            assert_eq!(got, Some(b"v".to_vec()));
        }
    });
}

#[test]
fn test_storage_error_message() {
    let e = StorageError::TransactionFailure("commit failed".to_string());
    assert_eq!(e.message(), "commit failed");
}
