use ft_sync::config::{BucketConfig, ConfigError, PostgresConfig, SQLiteConfig, StorageTarget};
use ft_sync::content::{content_hash, to_hex};
use ft_sync::engine::SyncError;
use ft_sync::kvstorage::{decremented_ref_count, incremented_ref_count, KVStorageType};
use ft_sync::locks::{file_lock, hash_lock, LocksStorage, LocksType, MemoryLocks};
use ft_sync::timestamp::conv_rfc2822_to_unix_timestamp;
use ft_sync::version::VersionResponse;

fn bucket(kind: KVStorageType, postgres: Option<PostgresConfig>, sqlite: Option<SQLiteConfig>) -> BucketConfig {
    BucketConfig {
        name: "b".to_string(),
        address: "127.0.0.1".to_string(),
        port: 8080,
        kvstorage_type: kind,
        postgres,
        sqlite,
        locks_type: LocksType::Memory,
    }
}

fn pg() -> PostgresConfig {
    PostgresConfig {
        host: "db.local".to_string(),
        port: 5432,
        user: "sync".to_string(),
        password: "pw".to_string(),
        dbname: "files".to_string(),
        pool_size: 8,
    }
}

#[test]
fn lock_keys_have_documented_shape() {
    assert_eq!(file_lock("b1", "/x/y"), "file:b1:/x/y");
    assert_eq!(hash_lock("b1", "abc"), "hash:b1:abc");
    assert_eq!(file_lock("", ""), "file::");
}

#[test]
fn shared_holders_coexist_and_exclude_writers() {
    let mut locks = *LocksStorage::new(&LocksType::Memory);
    assert!(locks.acquire_shared("k"));
    assert!(locks.acquire_shared("k"));
    assert!(!locks.acquire_exclusive("k"));
    assert!(locks.release("k"));
    assert!(!locks.acquire_exclusive("k"));
    assert!(locks.release("k"));
    assert!(locks.acquire_exclusive("k"));
}

#[test]
fn exclusive_holder_excludes_everyone() {
    let mut locks = *LocksStorage::new(&LocksType::Memory);
    assert!(locks.acquire_exclusive("k"));
    assert!(!locks.acquire_shared("k"));
    assert!(!locks.acquire_exclusive("k"));
    assert!(locks.acquire_exclusive("other"));
    assert!(locks.release("k"));
    assert!(locks.acquire_shared("k"));
}

#[test]
fn release_reports_whether_a_lock_existed() {
    let mut locks = *LocksStorage::new(&LocksType::Memory);
    assert!(!locks.release("never"));
    assert!(locks.acquire_exclusive("k"));
    assert!(locks.release("k"));
    assert!(!locks.release("k"));
}

#[test]
fn get_or_create_lock_reuses_rows() {
    let mut table = MemoryLocks::new();
    let a = table.get_or_create_lock("a");
    let b = table.get_or_create_lock("b");
    assert_ne!(a, b);
    assert_eq!(table.get_or_create_lock("a"), a);
    assert!(table.acquire_exclusive("a"));
    assert!(!table.acquire_shared("a"));
}

#[test]
fn ref_count_arithmetic() {
    assert_eq!(incremented_ref_count(0), Some(1));
    assert_eq!(incremented_ref_count(41), Some(42));
    assert_eq!(incremented_ref_count(i32::MAX), None);
    assert_eq!(decremented_ref_count(0), 0);
    assert_eq!(decremented_ref_count(1), 0);
    assert_eq!(decremented_ref_count(5), 4);
    assert_eq!(decremented_ref_count(-3), -3);
}

#[test]
fn hex_encoding_is_lower_case_high_nibble_first() {
    assert_eq!(to_hex(&[]), "");
    assert_eq!(to_hex(&[0x00, 0x0f, 0xa5, 0xff]), "000fa5ff");
}

#[test]
fn content_hash_is_sha256_hex() {
    assert_eq!(content_hash(b"hello"), "2cf24dba5fb0a30e26e83b2ac5b9e29e1b161e5c1fa7425e73043362938b9824");
    assert_eq!(content_hash(b""), "e3b0c44298fc1c149afbf4c8996fb92427ae41e4649b934ca495991b7852b855");
    assert_eq!(content_hash(b"world").len(), 64);
}

#[test]
fn rfc2822_dates_become_unix_seconds() {
    assert_eq!(conv_rfc2822_to_unix_timestamp("Thu, 01 Jan 1970 00:16:40 +0000"), Ok(1000));
    assert_eq!(conv_rfc2822_to_unix_timestamp("Thu, 01 Jan 1970 01:00:00 +0100"), Ok(0));
    assert_eq!(conv_rfc2822_to_unix_timestamp("Tue, 1 Jul 2003 10:52:37 +0200"), Ok(1057049557));
}

#[test]
fn malformed_dates_are_invalid_input() {
    assert_eq!(conv_rfc2822_to_unix_timestamp(""), Err(SyncError::InvalidInput));
    assert_eq!(conv_rfc2822_to_unix_timestamp("2003-07-01T10:52:37Z"), Err(SyncError::InvalidInput));
}

#[test]
fn postgres_url_lists_every_setting() {
    assert_eq!(pg().database_url(), "postgres://sync:pw@db.local:5432/files");
    let mut c = pg();
    c.port = 0;
    assert_eq!(c.database_url(), "postgres://sync:pw@db.local:0/files");
    c.port = 65535;
    assert_eq!(c.database_url(), "postgres://sync:pw@db.local:65535/files");
}

#[test]
fn sqlite_url_names_the_file() {
    let c = SQLiteConfig { path: "data/kv.db".to_string(), pool_size: 1 };
    assert_eq!(c.database_url(), "sqlite://data/kv.db");
}

#[test]
fn storage_target_follows_selected_backend() {
    match bucket(KVStorageType::Postgres, Some(pg()), None).storage_target() {
        Ok(StorageTarget::Postgres { url, pool_size }) => {
            assert_eq!(url, "postgres://sync:pw@db.local:5432/files");
            assert_eq!(pool_size, 8);
        }
        _ => panic!("expected the networked backend"),
    }
    let lite = SQLiteConfig { path: "kv.db".to_string(), pool_size: 2 };
    match bucket(KVStorageType::SQLite, Some(pg()), Some(lite)).storage_target() {
        Ok(StorageTarget::SQLite { path, url, pool_size }) => {
            assert_eq!(path, "kv.db");
            assert_eq!(pool_size, 2);
            assert_eq!(url, "sqlite://kv.db");
        }
        _ => panic!("expected the embedded backend"),
    }
}

#[test]
fn missing_backend_settings_are_reported() {
    assert!(matches!(
        bucket(KVStorageType::Postgres, None, None).storage_target(),
        Err(ConfigError::MissingPostgres)
    ));
    assert!(matches!(
        bucket(KVStorageType::SQLite, Some(pg()), None).storage_target(),
        Err(ConfigError::MissingSQLite)
    ));
}

#[test]
fn version_announcement_lists_protocol_two() {
    assert_eq!(VersionResponse::current().protocol_versions, vec![2]);
}
