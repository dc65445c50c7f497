//! The storage contract: three relations per bucket, read with defaults and
//! written by upsert, and the operations a backend performs on them.
use vstd::prelude::*;

verus! {

/// The backends a bucket can keep its relations in.
#[derive(Clone, Copy, PartialEq, Eq, Structural, Debug)]
pub enum KVStorageType {
    Postgres,
    SQLite,
}

/// A row of the reference-count relation.
pub struct RowRefcount {
    pub bucket: String,
    pub hash: String,
    pub refcount: i32,
}

/// A row of the modification-time relation.
pub struct RowModified {
    pub bucket: String,
    pub path: String,
    pub modified: i64,
}

/// A row of the path-to-hash relation.
pub struct RowRefFile {
    pub bucket: String,
    pub path: String,
    pub hash: String,
}

/// The persisted state of all buckets: reference counts keyed by
/// (bucket, hash), modification times and referenced hashes keyed by
/// (bucket, path).
pub struct StoreModel {
    pub ref_count: Map<(Seq<char>, Seq<char>), i32>,
    pub modified: Map<(Seq<char>, Seq<char>), i64>,
    pub ref_file: Map<(Seq<char>, Seq<char>), Seq<char>>,
}

impl StoreModel {
    /// `get_ref_count`: 0 when absent.
    pub open spec fn ref_count_of(self, bucket: Seq<char>, hash: Seq<char>) -> i32 {
        if self.ref_count.contains_key((bucket, hash)) {
            self.ref_count[(bucket, hash)]
        } else {
            0
        }
    }

    /// `get_modified`: 0 when absent.
    pub open spec fn modified_of(self, bucket: Seq<char>, path: Seq<char>) -> i64 {
        if self.modified.contains_key((bucket, path)) {
            self.modified[(bucket, path)]
        } else {
            0
        }
    }

    /// `get_ref_file`: the empty string when absent.
    pub open spec fn ref_file_of(self, bucket: Seq<char>, path: Seq<char>) -> Seq<char> {
        if self.ref_file.contains_key((bucket, path)) {
            self.ref_file[(bucket, path)]
        } else {
            Seq::empty()
        }
    }

    pub open spec fn set_ref_count(self, bucket: Seq<char>, hash: Seq<char>, value: i32) -> StoreModel {
        StoreModel { ref_count: self.ref_count.insert((bucket, hash), value), ..self }
    }

    pub open spec fn set_modified(self, bucket: Seq<char>, path: Seq<char>, value: i64) -> StoreModel {
        StoreModel { modified: self.modified.insert((bucket, path), value), ..self }
    }

    pub open spec fn delete_modified(self, bucket: Seq<char>, path: Seq<char>) -> StoreModel {
        StoreModel { modified: self.modified.remove((bucket, path)), ..self }
    }

    pub open spec fn set_ref_file(self, bucket: Seq<char>, path: Seq<char>, hash: Seq<char>) -> StoreModel {
        StoreModel { ref_file: self.ref_file.insert((bucket, path), hash), ..self }
    }

    pub open spec fn delete_ref_file(self, bucket: Seq<char>, path: Seq<char>) -> StoreModel {
        StoreModel { ref_file: self.ref_file.remove((bucket, path)), ..self }
    }
}

/// Reads after a count write.
pub proof fn lemma_set_ref_count_reads(s: StoreModel, b: Seq<char>, h: Seq<char>, v: i32)
    ensures
        forall|b2: Seq<char>, k: Seq<char>|
            #[trigger] s.set_ref_count(b, h, v).ref_count_of(b2, k) == (if b2 == b && k == h {
                v
            } else {
                s.ref_count_of(b2, k)
            }),
        forall|b2: Seq<char>, k: Seq<char>|
            #[trigger] s.set_ref_count(b, h, v).modified_of(b2, k) == s.modified_of(b2, k),
        forall|b2: Seq<char>, k: Seq<char>|
            #[trigger] s.set_ref_count(b, h, v).ref_file_of(b2, k) == s.ref_file_of(b2, k),
{
}

/// Reads after a time write.
pub proof fn lemma_set_modified_reads(s: StoreModel, b: Seq<char>, p: Seq<char>, v: i64)
    ensures
        forall|b2: Seq<char>, k: Seq<char>|
            #[trigger] s.set_modified(b, p, v).modified_of(b2, k) == (if b2 == b && k == p {
                v
            } else {
                s.modified_of(b2, k)
            }),
        forall|b2: Seq<char>, k: Seq<char>|
            #[trigger] s.set_modified(b, p, v).ref_count_of(b2, k) == s.ref_count_of(b2, k),
        forall|b2: Seq<char>, k: Seq<char>|
            #[trigger] s.set_modified(b, p, v).ref_file_of(b2, k) == s.ref_file_of(b2, k),
{
}

/// Reads after a path-to-hash write or removal.
pub proof fn lemma_ref_file_reads(s: StoreModel, b: Seq<char>, p: Seq<char>, h: Seq<char>)
    ensures
        forall|b2: Seq<char>, k: Seq<char>|
            #[trigger] s.set_ref_file(b, p, h).ref_file_of(b2, k) == (if b2 == b && k == p {
                h
            } else {
                s.ref_file_of(b2, k)
            }),
        forall|b2: Seq<char>, k: Seq<char>|
            #[trigger] s.set_ref_file(b, p, h).ref_count_of(b2, k) == s.ref_count_of(b2, k),
        forall|b2: Seq<char>, k: Seq<char>|
            #[trigger] s.set_ref_file(b, p, h).modified_of(b2, k) == s.modified_of(b2, k),
        forall|b2: Seq<char>, k: Seq<char>|
            #[trigger] s.delete_ref_file(b, p).ref_file_of(b2, k) == (if b2 == b && k == p {
                Seq::<char>::empty()
            } else {
                s.ref_file_of(b2, k)
            }),
        forall|b2: Seq<char>, k: Seq<char>|
            #[trigger] s.delete_ref_file(b, p).ref_count_of(b2, k) == s.ref_count_of(b2, k),
        forall|b2: Seq<char>, k: Seq<char>|
            #[trigger] s.delete_ref_file(b, p).modified_of(b2, k) == s.modified_of(b2, k),
{
}

/// Reads after a time removal.
pub proof fn lemma_delete_modified_reads(s: StoreModel, b: Seq<char>, p: Seq<char>)
    ensures
        forall|b2: Seq<char>, k: Seq<char>|
            #[trigger] s.delete_modified(b, p).modified_of(b2, k) == (if b2 == b && k == p {
                0i64
            } else {
                s.modified_of(b2, k)
            }),
        forall|b2: Seq<char>, k: Seq<char>|
            #[trigger] s.delete_modified(b, p).ref_count_of(b2, k) == s.ref_count_of(b2, k),
        forall|b2: Seq<char>, k: Seq<char>|
            #[trigger] s.delete_modified(b, p).ref_file_of(b2, k) == s.ref_file_of(b2, k),
{
}

/// One backend operation; `S` is `String` for operations to perform and
/// `Seq<char>` for their mathematical view.
pub enum StorageOp<S> {
    GetRefCount { bucket: S, hash: S },
    SetRefCount { bucket: S, hash: S, value: i32 },
    GetModified { bucket: S, path: S },
    SetModified { bucket: S, path: S, value: i64 },
    DeleteModified { bucket: S, path: S },
    GetRefFile { bucket: S, path: S },
    SetRefFile { bucket: S, path: S, hash: S },
    DeleteRefFile { bucket: S, path: S },
}

impl View for StorageOp<String> {
    type V = StorageOp<Seq<char>>;

    open spec fn view(&self) -> StorageOp<Seq<char>> {
        match self {
            StorageOp::GetRefCount { bucket, hash } => StorageOp::GetRefCount {
                bucket: bucket@,
                hash: hash@,
            },
            StorageOp::SetRefCount { bucket, hash, value } => StorageOp::SetRefCount {
                bucket: bucket@,
                hash: hash@,
                value: *value,
            },
            StorageOp::GetModified { bucket, path } => StorageOp::GetModified {
                bucket: bucket@,
                path: path@,
            },
            StorageOp::SetModified { bucket, path, value } => StorageOp::SetModified {
                bucket: bucket@,
                path: path@,
                value: *value,
            },
            StorageOp::DeleteModified { bucket, path } => StorageOp::DeleteModified {
                bucket: bucket@,
                path: path@,
            },
            StorageOp::GetRefFile { bucket, path } => StorageOp::GetRefFile {
                bucket: bucket@,
                path: path@,
            },
            StorageOp::SetRefFile { bucket, path, hash } => StorageOp::SetRefFile {
                bucket: bucket@,
                path: path@,
                hash: hash@,
            },
            StorageOp::DeleteRefFile { bucket, path } => StorageOp::DeleteRefFile {
                bucket: bucket@,
                path: path@,
            },
        }
    }
}

/// What a backend reports back; `S` as for [`StorageOp`].
pub enum StorageReply<S> {
    Count(i32),
    Modified(i64),
    RefFile(S),
    Written,
}

impl View for StorageReply<String> {
    type V = StorageReply<Seq<char>>;

    open spec fn view(&self) -> StorageReply<Seq<char>> {
        match self {
            StorageReply::Count(c) => StorageReply::Count(*c),
            StorageReply::Modified(m) => StorageReply::Modified(*m),
            StorageReply::RefFile(h) => StorageReply::RefFile(h@),
            StorageReply::Written => StorageReply::Written,
        }
    }
}

/// The store after a backend performs `op` on it.
pub open spec fn apply_op(s: StoreModel, op: StorageOp<Seq<char>>) -> StoreModel {
    match op {
        StorageOp::SetRefCount { bucket, hash, value } => s.set_ref_count(bucket, hash, value),
        StorageOp::SetModified { bucket, path, value } => s.set_modified(bucket, path, value),
        StorageOp::DeleteModified { bucket, path } => s.delete_modified(bucket, path),
        StorageOp::SetRefFile { bucket, path, hash } => s.set_ref_file(bucket, path, hash),
        StorageOp::DeleteRefFile { bucket, path } => s.delete_ref_file(bucket, path),
        _ => s,
    }
}

/// What a backend answers to `op` on store `s`.
pub open spec fn answer_op(s: StoreModel, op: StorageOp<Seq<char>>) -> StorageReply<Seq<char>> {
    match op {
        StorageOp::GetRefCount { bucket, hash } => StorageReply::Count(s.ref_count_of(bucket, hash)),
        StorageOp::GetModified { bucket, path } => StorageReply::Modified(s.modified_of(bucket, path)),
        StorageOp::GetRefFile { bucket, path } => StorageReply::RefFile(s.ref_file_of(bucket, path)),
        _ => StorageReply::Written,
    }
}

/// The count that `increment_ref_count` writes, or `None` when the stored
/// count cannot grow.
pub fn incremented_ref_count(cnt: i32) -> (r: Option<i32>)
    ensures
        r == (if cnt < i32::MAX {
            Some((cnt + 1) as i32)
        } else {
            None::<i32>
        }),
{
    if cnt < i32::MAX {
        Some(cnt + 1)
    } else {
        None
    }
}

/// The count that `decrement_ref_count` leaves: one less, but never below
/// zero (a count at or under zero stays as it is).
pub fn decremented_ref_count(cnt: i32) -> (r: i32)
    ensures
        r == (if cnt > 0 {
            (cnt - 1) as i32
        } else {
            cnt
        }),
        cnt == 0 ==> r == 0,
        cnt >= 0 ==> r >= 0,
{
    if cnt > 0 {
        cnt - 1
    } else {
        cnt
    }
}

} // verus!
