//! The put-file protocol as a state machine: the machine names the next
//! lock, storage or blob action, its driver performs it and hands back what
//! happened, and the machine decides the step after.
use vstd::prelude::*;
use crate::content::{content_hash, content_hash_of};
use crate::kvstorage::{
    StoreModel,
    StorageOp,
    StorageReply,
    apply_op,
    answer_op,
    decremented_ref_count,
    lemma_ref_file_reads,
    lemma_set_modified_reads,
    lemma_set_ref_count_reads,
    incremented_ref_count,
};
use crate::locks::{file_lock, file_lock_key, hash_lock, hash_lock_key};
use crate::timestamp::{conv_rfc2822_to_unix_timestamp, rfc2822_seconds};

verus! {

/// Why a request did not take effect.
#[derive(Clone, Copy, PartialEq, Eq, Structural, Debug)]
pub enum SyncError {
    /// The claimed modification time could not be read.
    InvalidInput,
    /// A backend read or write failed.
    StorageFailure,
    /// A lock could not be obtained (shutdown or cancellation).
    LockUnavailable,
}

/// How a store request ended.
#[derive(Clone, Copy, PartialEq, Eq, Structural, Debug)]
pub enum PutOutcome {
    /// The content was stored; the path's modification time is now this one.
    Accepted(i64),
    /// The stored content is as new or newer; nothing changed. Carries the
    /// prevailing modification time.
    Stale(i64),
    /// The request failed.
    Failed(SyncError),
}

/// Where the protocol stands. The phases after `WriteModified` up to
/// `UndoUnlockNew` take back what a failed request wrote; the `Collect`
/// phases remove the old content once nothing references it.
#[derive(Clone, Copy, PartialEq, Eq, Structural, Debug)]
pub enum PutPhase {
    LockPath,
    ReadModified,
    ReadRefFile,
    LockNewHash,
    ReadNewCount,
    WriteNewCount,
    UnlockNewHash,
    LockOldHash,
    ReadOldCount,
    WriteOldCount,
    UnlockOldHash,
    StoreBlob,
    WriteRefFile,
    WriteModified,
    ReleaseHash,
    UndoRefFile,
    UndoLockOld,
    UndoReadOld,
    UndoWriteOld,
    UndoUnlockOld,
    UndoLockNew,
    UndoReadNew,
    UndoWriteNew,
    UndoUnlockNew,
    CollectLock,
    CollectRead,
    DeleteBlob,
    CollectUnlock,
    UnlockPath,
    Done,
}

/// What the driver must do next; `S` is `String` for the driver and
/// `Seq<char>` for the view, `O` the protocol's outcome.
pub enum Action<S, O> {
    /// Wait for the sole hold on a lock key.
    AcquireExclusive(S),
    /// Let go of a lock key.
    Release(S),
    /// Perform a backend operation.
    Storage(StorageOp<S>),
    /// Store the request's content in the blob store under this hash.
    PutBlob(S),
    /// Remove the blob stored under this hash (best effort).
    DeleteBlob(S),
    /// The protocol is over.
    Finish(O),
}

impl<O: Copy> View for Action<String, O> {
    type V = Action<Seq<char>, O>;

    open spec fn view(&self) -> Action<Seq<char>, O> {
        match self {
            Action::AcquireExclusive(k) => Action::AcquireExclusive(k@),
            Action::Release(k) => Action::Release(k@),
            Action::Storage(op) => Action::Storage(op@),
            Action::PutBlob(h) => Action::PutBlob(h@),
            Action::DeleteBlob(h) => Action::DeleteBlob(h@),
            Action::Finish(o) => Action::Finish(*o),
        }
    }
}

/// What happened when the driver performed the last action.
pub enum Event<S> {
    /// A lock was obtained.
    Granted,
    /// A lock was let go.
    Released,
    /// The backend or blob store completed the operation.
    Completed(StorageReply<S>),
    /// The action failed.
    Failed,
}

impl View for Event<String> {
    type V = Event<Seq<char>>;

    open spec fn view(&self) -> Event<Seq<char>> {
        match self {
            Event::Granted => Event::Granted,
            Event::Released => Event::Released,
            Event::Completed(r) => Event::Completed(r@),
            Event::Failed => Event::Failed,
        }
    }
}

/// The state of one store request.
pub struct PutState {
    pub bucket: Seq<char>,
    pub path: Seq<char>,
    pub hash: Seq<char>,
    pub timestamp: i64,
    pub phase: PutPhase,
    /// The stored modification time, once read.
    pub current: i64,
    /// The hash the path referenced, once read.
    pub old_hash: Seq<char>,
    /// The reference count to write next.
    pub count: i32,
    /// The old hash's count was written as zero: its content may go.
    pub collect: bool,
    /// On failure, the hash lock still held is the old hash's.
    pub held_old: bool,
    /// The new hash's count was raised and not yet taken back.
    pub new_written: bool,
    /// The old hash's count was lowered and not yet taken back.
    pub old_written: bool,
    /// The path was pointed at the new hash and not yet pointed back.
    pub ref_written: bool,
    pub outcome: PutOutcome,
}

/// A fresh request to store content with hash `hash` at `path` of
/// `bucket`, claiming modification time `timestamp`.
pub open spec fn start(bucket: Seq<char>, path: Seq<char>, hash: Seq<char>, timestamp: i64) -> PutState {
    PutState {
        bucket,
        path,
        hash,
        timestamp,
        phase: PutPhase::LockPath,
        current: 0,
        old_hash: Seq::empty(),
        count: 0,
        collect: false,
        held_old: false,
        new_written: false,
        old_written: false,
        ref_written: false,
        outcome: PutOutcome::Failed(SyncError::StorageFailure),
    }
}

/// The action that phase `m.phase` asks for.
pub open spec fn pending(m: PutState) -> Action<Seq<char>, PutOutcome> {
    let b = m.bucket;
    match m.phase {
        PutPhase::LockPath => Action::AcquireExclusive(file_lock_key(b, m.path)),
        PutPhase::ReadModified => Action::Storage(StorageOp::GetModified { bucket: b, path: m.path }),
        PutPhase::ReadRefFile => Action::Storage(StorageOp::GetRefFile { bucket: b, path: m.path }),
        PutPhase::LockNewHash | PutPhase::UndoLockNew => Action::AcquireExclusive(
            hash_lock_key(b, m.hash),
        ),
        PutPhase::ReadNewCount | PutPhase::UndoReadNew => Action::Storage(
            StorageOp::GetRefCount { bucket: b, hash: m.hash },
        ),
        PutPhase::WriteNewCount | PutPhase::UndoWriteNew => Action::Storage(
            StorageOp::SetRefCount { bucket: b, hash: m.hash, value: m.count },
        ),
        PutPhase::UnlockNewHash | PutPhase::UndoUnlockNew => Action::Release(
            hash_lock_key(b, m.hash),
        ),
        PutPhase::LockOldHash | PutPhase::UndoLockOld | PutPhase::CollectLock => Action::AcquireExclusive(
            hash_lock_key(b, m.old_hash),
        ),
        PutPhase::ReadOldCount | PutPhase::UndoReadOld | PutPhase::CollectRead => Action::Storage(
            StorageOp::GetRefCount { bucket: b, hash: m.old_hash },
        ),
        PutPhase::WriteOldCount | PutPhase::UndoWriteOld => Action::Storage(
            StorageOp::SetRefCount { bucket: b, hash: m.old_hash, value: m.count },
        ),
        PutPhase::UnlockOldHash | PutPhase::UndoUnlockOld | PutPhase::CollectUnlock => Action::Release(
            hash_lock_key(b, m.old_hash),
        ),
        PutPhase::StoreBlob => Action::PutBlob(m.hash),
        PutPhase::WriteRefFile => Action::Storage(
            StorageOp::SetRefFile { bucket: b, path: m.path, hash: m.hash },
        ),
        PutPhase::WriteModified => Action::Storage(
            StorageOp::SetModified { bucket: b, path: m.path, value: m.timestamp },
        ),
        PutPhase::ReleaseHash => Action::Release(
            hash_lock_key(
                b,
                if m.held_old {
                    m.old_hash
                } else {
                    m.hash
                },
            ),
        ),
        PutPhase::UndoRefFile => if m.old_hash.len() > 0 {
            Action::Storage(StorageOp::SetRefFile { bucket: b, path: m.path, hash: m.old_hash })
        } else {
            Action::Storage(StorageOp::DeleteRefFile { bucket: b, path: m.path })
        },
        PutPhase::DeleteBlob => Action::DeleteBlob(m.old_hash),
        PutPhase::UnlockPath => Action::Release(file_lock_key(b, m.path)),
        PutPhase::Done => Action::Finish(m.outcome),
    }
}

/// Moves to `phase`.
pub open spec fn goto(m: PutState, phase: PutPhase) -> PutState {
    PutState { phase, ..m }
}

/// The first step of taking back what the request wrote, ending with
/// `outcome`: the path's hash first, then the old count, then the new one;
/// with nothing written, straight to letting go of the path lock.
pub open spec fn undo_from(m: PutState, outcome: PutOutcome) -> PutState {
    PutState {
        phase: if m.ref_written {
            PutPhase::UndoRefFile
        } else if m.old_written {
            PutPhase::UndoLockOld
        } else if m.new_written {
            PutPhase::UndoLockNew
        } else {
            PutPhase::UnlockPath
        },
        outcome,
        ..m
    }
}

/// Fails while a hash lock is held: that lock is let go first.
pub open spec fn abort_hash(m: PutState, held_old: bool) -> PutState {
    PutState {
        phase: PutPhase::ReleaseHash,
        held_old,
        outcome: PutOutcome::Failed(SyncError::StorageFailure),
        ..m
    }
}

/// After the old count is taken back (or could not be): the new count next.
pub open spec fn after_old_undo(m: PutState) -> PutState {
    PutState {
        phase: if m.new_written {
            PutPhase::UndoLockNew
        } else {
            PutPhase::UnlockPath
        },
        ..m
    }
}

/// Whether `e` reports a completed write.
pub open spec fn written(e: Event<Seq<char>>) -> bool {
    e == Event::<Seq<char>>::Completed(StorageReply::Written)
}

/// The state after the driver reports `e` for the pending action.
pub open spec fn next(m: PutState, e: Event<Seq<char>>) -> PutState {
    let storage_failed = undo_from(m, PutOutcome::Failed(SyncError::StorageFailure));
    let lock_failed = undo_from(m, PutOutcome::Failed(SyncError::LockUnavailable));
    match m.phase {
        PutPhase::LockPath => match e {
            Event::Granted => goto(m, PutPhase::ReadModified),
            _ => PutState {
                phase: PutPhase::Done,
                outcome: PutOutcome::Failed(SyncError::LockUnavailable),
                ..m
            },
        },
        PutPhase::ReadModified => match e {
            Event::Completed(StorageReply::Modified(t)) => PutState {
                phase: PutPhase::ReadRefFile,
                current: t,
                ..m
            },
            _ => storage_failed,
        },
        PutPhase::ReadRefFile => match e {
            Event::Completed(StorageReply::RefFile(h)) => {
                let m1 = PutState { old_hash: h, ..m };
                if m.current >= m.timestamp {
                    PutState {
                        phase: PutPhase::UnlockPath,
                        outcome: PutOutcome::Stale(m.current),
                        ..m1
                    }
                } else if h == m.hash {
                    goto(m1, PutPhase::WriteModified)
                } else {
                    goto(m1, PutPhase::LockNewHash)
                }
            },
            _ => storage_failed,
        },
        PutPhase::LockNewHash => match e {
            Event::Granted => goto(m, PutPhase::ReadNewCount),
            _ => lock_failed,
        },
        PutPhase::ReadNewCount => match e {
            Event::Completed(StorageReply::Count(c)) => if c < i32::MAX {
                PutState { phase: PutPhase::WriteNewCount, count: (c + 1) as i32, ..m }
            } else {
                abort_hash(m, false)
            },
            _ => abort_hash(m, false),
        },
        PutPhase::WriteNewCount => if written(e) {
            PutState { phase: PutPhase::UnlockNewHash, new_written: true, ..m }
        } else {
            abort_hash(m, false)
        },
        PutPhase::UnlockNewHash => if m.old_hash.len() == 0 {
            goto(m, PutPhase::StoreBlob)
        } else {
            goto(m, PutPhase::LockOldHash)
        },
        PutPhase::LockOldHash => match e {
            Event::Granted => goto(m, PutPhase::ReadOldCount),
            _ => lock_failed,
        },
        PutPhase::ReadOldCount => match e {
            Event::Completed(StorageReply::Count(c)) => if c > 0 {
                PutState { phase: PutPhase::WriteOldCount, count: (c - 1) as i32, ..m }
            } else {
                PutState { phase: PutPhase::UnlockOldHash, collect: false, ..m }
            },
            _ => abort_hash(m, true),
        },
        PutPhase::WriteOldCount => if written(e) {
            PutState {
                phase: PutPhase::UnlockOldHash,
                old_written: true,
                collect: m.count == 0,
                ..m
            }
        } else {
            abort_hash(m, true)
        },
        PutPhase::UnlockOldHash => goto(m, PutPhase::StoreBlob),
        PutPhase::StoreBlob => if written(e) {
            goto(m, PutPhase::WriteRefFile)
        } else {
            storage_failed
        },
        PutPhase::WriteRefFile => if written(e) {
            PutState { phase: PutPhase::WriteModified, ref_written: true, ..m }
        } else {
            storage_failed
        },
        PutPhase::WriteModified => if written(e) {
            PutState {
                phase: if m.collect {
                    PutPhase::CollectLock
                } else {
                    PutPhase::UnlockPath
                },
                outcome: PutOutcome::Accepted(m.timestamp),
                ..m
            }
        } else {
            storage_failed
        },
        PutPhase::ReleaseHash => undo_from(m, m.outcome),
        PutPhase::UndoRefFile => {
            let m1 = PutState { ref_written: m.ref_written && !written(e), ..m };
            if m.old_written {
                goto(m1, PutPhase::UndoLockOld)
            } else if m.new_written {
                goto(m1, PutPhase::UndoLockNew)
            } else {
                goto(m1, PutPhase::UnlockPath)
            }
        },
        PutPhase::UndoLockOld => match e {
            Event::Granted => goto(m, PutPhase::UndoReadOld),
            _ => after_old_undo(m),
        },
        PutPhase::UndoReadOld => match e {
            Event::Completed(StorageReply::Count(c)) => if c < i32::MAX {
                PutState { phase: PutPhase::UndoWriteOld, count: (c + 1) as i32, ..m }
            } else {
                goto(m, PutPhase::UndoUnlockOld)
            },
            _ => goto(m, PutPhase::UndoUnlockOld),
        },
        PutPhase::UndoWriteOld => PutState {
            phase: PutPhase::UndoUnlockOld,
            old_written: m.old_written && !written(e),
            ..m
        },
        PutPhase::UndoUnlockOld => after_old_undo(m),
        PutPhase::UndoLockNew => match e {
            Event::Granted => goto(m, PutPhase::UndoReadNew),
            _ => goto(m, PutPhase::UnlockPath),
        },
        PutPhase::UndoReadNew => match e {
            Event::Completed(StorageReply::Count(c)) => if c > i32::MIN {
                PutState { phase: PutPhase::UndoWriteNew, count: (c - 1) as i32, ..m }
            } else {
                goto(m, PutPhase::UndoUnlockNew)
            },
            _ => goto(m, PutPhase::UndoUnlockNew),
        },
        PutPhase::UndoWriteNew => PutState {
            phase: PutPhase::UndoUnlockNew,
            new_written: m.new_written && !written(e),
            ..m
        },
        PutPhase::UndoUnlockNew => goto(m, PutPhase::UnlockPath),
        PutPhase::CollectLock => match e {
            Event::Granted => goto(m, PutPhase::CollectRead),
            _ => goto(m, PutPhase::UnlockPath),
        },
        PutPhase::CollectRead => match e {
            Event::Completed(StorageReply::Count(c)) => if c == 0 {
                goto(m, PutPhase::DeleteBlob)
            } else {
                goto(m, PutPhase::CollectUnlock)
            },
            _ => goto(m, PutPhase::CollectUnlock),
        },
        PutPhase::DeleteBlob => goto(m, PutPhase::CollectUnlock),
        PutPhase::CollectUnlock => goto(m, PutPhase::UnlockPath),
        PutPhase::UnlockPath => goto(m, PutPhase::Done),
        PutPhase::Done => m,
    }
}

/// One store request in progress.
pub struct PutFile {
    bucket: String,
    path: String,
    hash: String,
    timestamp: i64,
    phase: PutPhase,
    current: i64,
    old_hash: String,
    count: i32,
    collect: bool,
    held_old: bool,
    new_written: bool,
    old_written: bool,
    ref_written: bool,
    outcome: PutOutcome,
}

impl View for PutFile {
    type V = PutState;

    closed spec fn view(&self) -> PutState {
        PutState {
            bucket: self.bucket@,
            path: self.path@,
            hash: self.hash@,
            timestamp: self.timestamp,
            phase: self.phase,
            current: self.current,
            old_hash: self.old_hash@,
            count: self.count,
            collect: self.collect,
            held_old: self.held_old,
            new_written: self.new_written,
            old_written: self.old_written,
            ref_written: self.ref_written,
            outcome: self.outcome,
        }
    }
}

fn is_written(event: &Event<String>) -> (r: bool)
    ensures
        r == written(event@),
{
    match event {
        Event::Completed(StorageReply::Written) => true,
        _ => false,
    }
}

impl PutFile {
    /// A request to store `content` at `path` of `bucket` with claimed
    /// modification time `timestamp`; the content is identified by its hash.
    pub fn new(bucket: &str, path: &str, content: &[u8], timestamp: i64) -> (r: Self)
        ensures
            r@ == start(bucket@, path@, content_hash_of(content@), timestamp),
            r@.hash.len() == 64,
    {
        PutFile {
            bucket: String::from_str(bucket),
            path: String::from_str(path),
            hash: content_hash(content),
            timestamp,
            phase: PutPhase::LockPath,
            current: 0,
            old_hash: String::new(),
            count: 0,
            collect: false,
            held_old: false,
            new_written: false,
            old_written: false,
            ref_written: false,
            outcome: PutOutcome::Failed(SyncError::StorageFailure),
        }
    }

    /// A request whose claimed modification time is RFC 2822 text; text
    /// that is no such date is refused before anything is locked or read.
    pub fn from_request(bucket: &str, path: &str, content: &[u8], last_modified: &str) -> (r: Result<
        Self,
        SyncError,
    >)
        ensures
            match rfc2822_seconds(last_modified@) {
                Some(t) => r matches Ok(m) && m@ == start(bucket@, path@, content_hash_of(content@), t)
                    && m@.hash.len() == 64,
                None => r matches Err(e) && e == SyncError::InvalidInput,
            },
    {
        match conv_rfc2822_to_unix_timestamp(last_modified) {
            Ok(t) => Ok(PutFile::new(bucket, path, content, t)),
            Err(e) => Err(e),
        }
    }

    /// The content hash of the request.
    pub fn content_hash(&self) -> (r: &String)
        ensures
            r@ == self@.hash,
    {
        &self.hash
    }

    fn storage(&self, op: StorageOp<String>) -> (r: Action<String, PutOutcome>)
        ensures
            r@ == Action::<Seq<char>, PutOutcome>::Storage(op@),
    {
        Action::Storage(op)
    }

    /// What the driver must do next.
    pub fn action(&self) -> (r: Action<String, PutOutcome>)
        ensures
            r@ == pending(self@),
    {
        let b = self.bucket.clone();
        match self.phase {
            PutPhase::LockPath => Action::AcquireExclusive(file_lock(&self.bucket, &self.path)),
            PutPhase::ReadModified => self.storage(
                StorageOp::GetModified { bucket: b, path: self.path.clone() },
            ),
            PutPhase::ReadRefFile => self.storage(
                StorageOp::GetRefFile { bucket: b, path: self.path.clone() },
            ),
            PutPhase::LockNewHash | PutPhase::UndoLockNew => Action::AcquireExclusive(
                hash_lock(&self.bucket, &self.hash),
            ),
            PutPhase::ReadNewCount | PutPhase::UndoReadNew => self.storage(
                StorageOp::GetRefCount { bucket: b, hash: self.hash.clone() },
            ),
            PutPhase::WriteNewCount | PutPhase::UndoWriteNew => self.storage(
                StorageOp::SetRefCount { bucket: b, hash: self.hash.clone(), value: self.count },
            ),
            PutPhase::UnlockNewHash | PutPhase::UndoUnlockNew => Action::Release(
                hash_lock(&self.bucket, &self.hash),
            ),
            PutPhase::LockOldHash | PutPhase::UndoLockOld | PutPhase::CollectLock => Action::AcquireExclusive(
                hash_lock(&self.bucket, &self.old_hash),
            ),
            PutPhase::ReadOldCount | PutPhase::UndoReadOld | PutPhase::CollectRead => self.storage(
                StorageOp::GetRefCount { bucket: b, hash: self.old_hash.clone() },
            ),
            PutPhase::WriteOldCount | PutPhase::UndoWriteOld => self.storage(
                StorageOp::SetRefCount { bucket: b, hash: self.old_hash.clone(), value: self.count },
            ),
            PutPhase::UnlockOldHash | PutPhase::UndoUnlockOld | PutPhase::CollectUnlock => Action::Release(
                hash_lock(&self.bucket, &self.old_hash),
            ),
            PutPhase::StoreBlob => Action::PutBlob(self.hash.clone()),
            PutPhase::WriteRefFile => self.storage(
                StorageOp::SetRefFile { bucket: b, path: self.path.clone(), hash: self.hash.clone() },
            ),
            PutPhase::WriteModified => self.storage(
                StorageOp::SetModified { bucket: b, path: self.path.clone(), value: self.timestamp },
            ),
            PutPhase::ReleaseHash => if self.held_old {
                Action::Release(hash_lock(&self.bucket, &self.old_hash))
            } else {
                Action::Release(hash_lock(&self.bucket, &self.hash))
            },
            PutPhase::UndoRefFile => if self.old_hash.as_str().is_empty() {
                self.storage(StorageOp::DeleteRefFile { bucket: b, path: self.path.clone() })
            } else {
                self.storage(
                    StorageOp::SetRefFile { bucket: b, path: self.path.clone(), hash: self.old_hash.clone() },
                )
            },
            PutPhase::DeleteBlob => Action::DeleteBlob(self.old_hash.clone()),
            PutPhase::UnlockPath => Action::Release(file_lock(&self.bucket, &self.path)),
            PutPhase::Done => Action::Finish(self.outcome),
        }
    }

    fn undo_from(&mut self, outcome: PutOutcome)
        ensures
            final(self)@ == undo_from(old(self)@, outcome),
    {
        self.phase = if self.ref_written {
            PutPhase::UndoRefFile
        } else if self.old_written {
            PutPhase::UndoLockOld
        } else if self.new_written {
            PutPhase::UndoLockNew
        } else {
            PutPhase::UnlockPath
        };
        self.outcome = outcome;
    }

    fn abort_hash(&mut self, held_old: bool)
        ensures
            final(self)@ == abort_hash(old(self)@, held_old),
    {
        self.phase = PutPhase::ReleaseHash;
        self.held_old = held_old;
        self.outcome = PutOutcome::Failed(SyncError::StorageFailure);
    }

    fn after_old_undo(&mut self)
        ensures
            final(self)@ == after_old_undo(old(self)@),
    {
        self.phase = if self.new_written {
            PutPhase::UndoLockNew
        } else {
            PutPhase::UnlockPath
        };
    }

    /// Takes in what happened to the last action and moves on.
    pub fn step(&mut self, event: Event<String>)
        ensures
            final(self)@ == next(old(self)@, event@),
    {
        let storage_failed = PutOutcome::Failed(SyncError::StorageFailure);
        let lock_failed = PutOutcome::Failed(SyncError::LockUnavailable);
        let done_write = is_written(&event);
        match self.phase {
            PutPhase::LockPath => match event {
                Event::Granted => self.phase = PutPhase::ReadModified,
                _ => {
                    self.phase = PutPhase::Done;
                    self.outcome = lock_failed;
                },
            },
            PutPhase::ReadModified => match event {
                Event::Completed(StorageReply::Modified(t)) => {
                    self.phase = PutPhase::ReadRefFile;
                    self.current = t;
                },
                _ => self.undo_from(storage_failed),
            },
            PutPhase::ReadRefFile => match event {
                Event::Completed(StorageReply::RefFile(h)) => {
                    let same = h == self.hash;
                    self.old_hash = h;
                    if self.current >= self.timestamp {
                        self.phase = PutPhase::UnlockPath;
                        self.outcome = PutOutcome::Stale(self.current);
                    } else if same {
                        self.phase = PutPhase::WriteModified;
                    } else {
                        self.phase = PutPhase::LockNewHash;
                    }
                },
                _ => self.undo_from(storage_failed),
            },
            PutPhase::LockNewHash => match event {
                Event::Granted => self.phase = PutPhase::ReadNewCount,
                _ => self.undo_from(lock_failed),
            },
            PutPhase::ReadNewCount => match event {
                Event::Completed(StorageReply::Count(c)) => match incremented_ref_count(c) {
                    Some(n) => {
                        self.phase = PutPhase::WriteNewCount;
                        self.count = n;
                    },
                    None => self.abort_hash(false),
                },
                _ => self.abort_hash(false),
            },
            PutPhase::WriteNewCount => {
                if done_write {
                    self.phase = PutPhase::UnlockNewHash;
                    self.new_written = true;
                } else {
                    self.abort_hash(false);
                }
            },
            PutPhase::UnlockNewHash => {
                if self.old_hash.as_str().is_empty() {
                    self.phase = PutPhase::StoreBlob;
                } else {
                    self.phase = PutPhase::LockOldHash;
                }
            },
            PutPhase::LockOldHash => match event {
                Event::Granted => self.phase = PutPhase::ReadOldCount,
                _ => self.undo_from(lock_failed),
            },
            PutPhase::ReadOldCount => match event {
                Event::Completed(StorageReply::Count(c)) => {
                    let n = decremented_ref_count(c);
                    if n != c {
                        self.phase = PutPhase::WriteOldCount;
                        self.count = n;
                    } else {
                        self.phase = PutPhase::UnlockOldHash;
                        self.collect = false;
                    }
                },
                _ => self.abort_hash(true),
            },
            PutPhase::WriteOldCount => {
                if done_write {
                    self.phase = PutPhase::UnlockOldHash;
                    self.old_written = true;
                    self.collect = self.count == 0;
                } else {
                    self.abort_hash(true);
                }
            },
            PutPhase::UnlockOldHash => self.phase = PutPhase::StoreBlob,
            PutPhase::StoreBlob => {
                if done_write {
                    self.phase = PutPhase::WriteRefFile;
                } else {
                    self.undo_from(storage_failed);
                }
            },
            PutPhase::WriteRefFile => {
                if done_write {
                    self.phase = PutPhase::WriteModified;
                    self.ref_written = true;
                } else {
                    self.undo_from(storage_failed);
                }
            },
            PutPhase::WriteModified => {
                if done_write {
                    self.phase = if self.collect {
                        PutPhase::CollectLock
                    } else {
                        PutPhase::UnlockPath
                    };
                    self.outcome = PutOutcome::Accepted(self.timestamp);
                } else {
                    self.undo_from(storage_failed);
                }
            },
            PutPhase::ReleaseHash => {
                let o = self.outcome;
                self.undo_from(o);
            },
            PutPhase::UndoRefFile => {
                self.ref_written = self.ref_written && !done_write;
                if self.old_written {
                    self.phase = PutPhase::UndoLockOld;
                } else if self.new_written {
                    self.phase = PutPhase::UndoLockNew;
                } else {
                    self.phase = PutPhase::UnlockPath;
                }
            },
            PutPhase::UndoLockOld => match event {
                Event::Granted => self.phase = PutPhase::UndoReadOld,
                _ => self.after_old_undo(),
            },
            PutPhase::UndoReadOld => match event {
                Event::Completed(StorageReply::Count(c)) => match incremented_ref_count(c) {
                    Some(n) => {
                        self.phase = PutPhase::UndoWriteOld;
                        self.count = n;
                    },
                    None => self.phase = PutPhase::UndoUnlockOld,
                },
                _ => self.phase = PutPhase::UndoUnlockOld,
            },
            PutPhase::UndoWriteOld => {
                self.phase = PutPhase::UndoUnlockOld;
                self.old_written = self.old_written && !done_write;
            },
            PutPhase::UndoUnlockOld => self.after_old_undo(),
            PutPhase::UndoLockNew => match event {
                Event::Granted => self.phase = PutPhase::UndoReadNew,
                _ => self.phase = PutPhase::UnlockPath,
            },
            PutPhase::UndoReadNew => match event {
                Event::Completed(StorageReply::Count(c)) => {
                    if c > i32::MIN {
                        self.phase = PutPhase::UndoWriteNew;
                        self.count = c - 1;
                    } else {
                        self.phase = PutPhase::UndoUnlockNew;
                    }
                },
                _ => self.phase = PutPhase::UndoUnlockNew,
            },
            PutPhase::UndoWriteNew => {
                self.phase = PutPhase::UndoUnlockNew;
                self.new_written = self.new_written && !done_write;
            },
            PutPhase::UndoUnlockNew => self.phase = PutPhase::UnlockPath,
            PutPhase::CollectLock => match event {
                Event::Granted => self.phase = PutPhase::CollectRead,
                _ => self.phase = PutPhase::UnlockPath,
            },
            PutPhase::CollectRead => match event {
                Event::Completed(StorageReply::Count(c)) => {
                    if c == 0 {
                        self.phase = PutPhase::DeleteBlob;
                    } else {
                        self.phase = PutPhase::CollectUnlock;
                    }
                },
                _ => self.phase = PutPhase::CollectUnlock,
            },
            PutPhase::DeleteBlob => self.phase = PutPhase::CollectUnlock,
            PutPhase::CollectUnlock => self.phase = PutPhase::UnlockPath,
            PutPhase::UnlockPath => self.phase = PutPhase::Done,
            PutPhase::Done => {},
        }
    }
}

/// The lock keys a request holds in state `m`.
pub open spec fn held_locks(m: PutState) -> Set<Seq<char>> {
    let path_key = file_lock_key(m.bucket, m.path);
    let new_key = hash_lock_key(m.bucket, m.hash);
    let old_key = hash_lock_key(m.bucket, m.old_hash);
    match m.phase {
        PutPhase::LockPath | PutPhase::Done => Set::empty(),
        PutPhase::ReadNewCount | PutPhase::WriteNewCount | PutPhase::UnlockNewHash
        | PutPhase::UndoReadNew | PutPhase::UndoWriteNew | PutPhase::UndoUnlockNew => set![
            path_key,
            new_key,
        ],
        PutPhase::ReadOldCount | PutPhase::WriteOldCount | PutPhase::UnlockOldHash
        | PutPhase::UndoReadOld | PutPhase::UndoWriteOld | PutPhase::UndoUnlockOld
        | PutPhase::CollectRead | PutPhase::DeleteBlob | PutPhase::CollectUnlock => set![
            path_key,
            old_key,
        ],
        PutPhase::ReleaseHash => set![
            path_key,
            if m.held_old {
                old_key
            } else {
                new_key
            },
        ],
        _ => set![path_key],
    }
}

/// The holdings after the driver performs `a` and reports `e`.
pub open spec fn locks_after<O>(held: Set<Seq<char>>, a: Action<Seq<char>, O>, e: Event<Seq<char>>) -> Set<
    Seq<char>,
> {
    match a {
        Action::AcquireExclusive(k) => if e is Granted {
            held.insert(k)
        } else {
            held
        },
        Action::Release(k) => held.remove(k),
        _ => held,
    }
}

/// A path key and a hash key never coincide.
pub proof fn lemma_lock_keys_differ(b: Seq<char>, p: Seq<char>, h: Seq<char>)
    ensures
        file_lock_key(b, p) != hash_lock_key(b, h),
{
    reveal_strlit("file:");
    reveal_strlit("hash:");
    assert(file_lock_key(b, p)[0] == 'f');
    assert(hash_lock_key(b, h)[0] == 'h');
}

/// Lock discipline of a request: whatever the driver reports, the locks
/// held afterwards are exactly those the performed action leaves; the path
/// lock is requested only while nothing is held, a hash lock only while
/// just the path lock is held, so locks are always taken path first and at
/// most one hash lock at a time; and a finished request holds nothing. In
/// particular the old content is deleted only while its hash lock is held.
pub proof fn lemma_lock_discipline(m: PutState, e: Event<Seq<char>>)
    ensures
        held_locks(next(m, e)) =~= locks_after(held_locks(m), pending(m), e),
        pending(m) matches Action::AcquireExclusive(k) ==> (held_locks(m) =~= Set::empty() && k
            == file_lock_key(m.bucket, m.path)) || (held_locks(m) =~= set![file_lock_key(m.bucket, m.path)]
            && exists|h: Seq<char>| k == hash_lock_key(m.bucket, h)),
        pending(m) is DeleteBlob ==> held_locks(m).contains(hash_lock_key(m.bucket, m.old_hash)),
        m.phase == PutPhase::Done ==> held_locks(m) =~= Set::empty(),
{
    lemma_lock_keys_differ(m.bucket, m.path, m.hash);
    lemma_lock_keys_differ(m.bucket, m.path, m.old_hash);
}

/// What a faithful environment reports for action `a` on store `s`: locks
/// are granted, the backend answers from `s`, blob operations complete.
pub open spec fn respond<O>(s: StoreModel, a: Action<Seq<char>, O>) -> Event<Seq<char>> {
    match a {
        Action::AcquireExclusive(_) => Event::Granted,
        Action::Release(_) => Event::Released,
        Action::Storage(op) => Event::Completed(answer_op(s, op)),
        _ => Event::Completed(StorageReply::Written),
    }
}

/// The store after action `a` is performed on `s`.
pub open spec fn perform<O>(s: StoreModel, a: Action<Seq<char>, O>) -> StoreModel {
    match a {
        Action::Storage(op) => apply_op(s, op),
        _ => s,
    }
}

/// Drives `m` for at most `fuel` steps against a faithful environment whose
/// store starts as `s`: the final store, and the outcome if the protocol
/// finished.
pub open spec fn run(m: PutState, s: StoreModel, fuel: nat) -> (StoreModel, Option<PutOutcome>)
    decreases fuel,
{
    if m.phase == PutPhase::Done {
        (s, Some(m.outcome))
    } else if fuel == 0 {
        (s, None)
    } else {
        run(next(m, respond(s, pending(m))), perform(s, pending(m)), (fuel - 1) as nat)
    }
}

/// Steps enough for any request to finish.
pub open spec fn put_fuel() -> nat {
    32
}

/// The effect of storing content with hash `h` at path `p` of bucket `b`
/// with claimed time `t`, as one atomic step on the store: a write no newer
/// than the stored time is stale; otherwise the path moves to `h`, the new
/// hash gains a reference, the old one loses one (never below zero), and
/// the time becomes `t`.
pub open spec fn put_effect(s: StoreModel, b: Seq<char>, p: Seq<char>, h: Seq<char>, t: i64) -> (
    StoreModel,
    PutOutcome,
) {
    let m = s.modified_of(b, p);
    let old = s.ref_file_of(b, p);
    if m >= t {
        (s, PutOutcome::Stale(m))
    } else if old == h {
        (s.set_modified(b, p, t), PutOutcome::Accepted(t))
    } else if s.ref_count_of(b, h) == i32::MAX {
        (s, PutOutcome::Failed(SyncError::StorageFailure))
    } else {
        let s1 = s.set_ref_count(b, h, (s.ref_count_of(b, h) + 1) as i32);
        let s2 = if old.len() > 0 && s1.ref_count_of(b, old) > 0 {
            s1.set_ref_count(b, old, (s1.ref_count_of(b, old) - 1) as i32)
        } else {
            s1
        };
        (s2.set_ref_file(b, p, h).set_modified(b, p, t), PutOutcome::Accepted(t))
    }
}

/// Driven against a faithful environment, the protocol finishes and has
/// exactly the effect of `put_effect`.
pub proof fn lemma_put_file_run(s: StoreModel, b: Seq<char>, p: Seq<char>, h: Seq<char>, t: i64)
    ensures
        run(start(b, p, h, t), s, put_fuel()) == (
            put_effect(s, b, p, h, t).0,
            Some(put_effect(s, b, p, h, t).1),
        ),
{
    let m0 = start(b, p, h, t);
    let cur = s.modified_of(b, p);
    let old = s.ref_file_of(b, p);
    let m3 = PutState { phase: PutPhase::ReadRefFile, current: cur, ..m0 };
    lemma_run_prefix(s, b, p, h, t);
    let m4 = PutState { old_hash: old, ..m3 };
    if cur >= t {
        reveal_with_fuel(run, 3);
    } else if old == h {
        reveal_with_fuel(run, 4);
    } else {
        let c = s.ref_count_of(b, h);
        let m5 = goto(m4, PutPhase::LockNewHash);
        assert(run(m3, s, 30) == run(m5, s, 29));
        if c == i32::MAX {
            reveal_with_fuel(run, 5);
        } else {
            let s1 = s.set_ref_count(b, h, (c + 1) as i32);
            let m8 = PutState {
                phase: PutPhase::UnlockNewHash,
                count: (c + 1) as i32,
                new_written: true,
                ..m5
            };
            lemma_run_new_count(m5, s);
            assert(run(m5, s, 29) == run(m8, s1, 26));
            let s2 = if old.len() > 0 && s1.ref_count_of(b, old) > 0 {
                s1.set_ref_count(b, old, (s1.ref_count_of(b, old) - 1) as i32)
            } else {
                s1
            };
            lemma_run_old_count(m8, s1);
            let m_blob = choose|mb: PutState|
                mb.phase == PutPhase::StoreBlob && mb.bucket == b && mb.path == p && mb.hash == h
                    && mb.timestamp == t && run(m8, s1, 26) == run(mb, s2, 10);
            lemma_run_tail(m_blob, s2);
        }
    }
}

proof fn lemma_run_prefix(s: StoreModel, b: Seq<char>, p: Seq<char>, h: Seq<char>, t: i64)
    ensures
        run(start(b, p, h, t), s, 32) == run(
            PutState { phase: PutPhase::ReadRefFile, current: s.modified_of(b, p), ..start(b, p, h, t) },
            s,
            30,
        ),
{
    reveal_with_fuel(run, 3);
}

proof fn lemma_run_new_count(m: PutState, s: StoreModel)
    requires
        m.phase == PutPhase::LockNewHash,
        s.ref_count_of(m.bucket, m.hash) < i32::MAX,
    ensures
        run(m, s, 29) == run(
            PutState {
                phase: PutPhase::UnlockNewHash,
                count: (s.ref_count_of(m.bucket, m.hash) + 1) as i32,
                new_written: true,
                ..m
            },
            s.set_ref_count(m.bucket, m.hash, (s.ref_count_of(m.bucket, m.hash) + 1) as i32),
            26,
        ),
{
    reveal_with_fuel(run, 4);
}

proof fn lemma_run_old_count(m: PutState, s: StoreModel)
    requires
        m.phase == PutPhase::UnlockNewHash,
    ensures
        exists|mb: PutState|
            mb.phase == PutPhase::StoreBlob && mb.bucket == m.bucket && mb.path == m.path && mb.hash
                == m.hash && mb.timestamp == m.timestamp && run(m, s, 26) == run(
                mb,
                if m.old_hash.len() > 0 && s.ref_count_of(m.bucket, m.old_hash) > 0 {
                    s.set_ref_count(
                        m.bucket,
                        m.old_hash,
                        (s.ref_count_of(m.bucket, m.old_hash) - 1) as i32,
                    )
                } else {
                    s
                },
                10,
            ),
{
    let b = m.bucket;
    let o = m.old_hash;
    if o.len() == 0 {
        let mb = goto(m, PutPhase::StoreBlob);
        assert(run(m, s, 26) == run(mb, s, 25));
        lemma_run_tail(mb, s);
        lemma_run_fuel(mb, s, 10, 25);
    } else {
        let c = s.ref_count_of(b, o);
        let m9 = goto(m, PutPhase::LockOldHash);
        let m10 = goto(m, PutPhase::ReadOldCount);
        assert(run(m, s, 26) == run(m9, s, 25));
        assert(run(m9, s, 25) == run(m10, s, 24));
        if c > 0 {
            let s2 = s.set_ref_count(b, o, (c - 1) as i32);
            let m11 = PutState { phase: PutPhase::WriteOldCount, count: (c - 1) as i32, ..m10 };
            let m12 = PutState {
                phase: PutPhase::UnlockOldHash,
                old_written: true,
                collect: c - 1 == 0,
                ..m11
            };
            assert(run(m10, s, 24) == run(m11, s, 23));
            assert(run(m11, s, 23) == run(m12, s2, 22));
            let mb = goto(m12, PutPhase::StoreBlob);
            assert(run(m12, s2, 22) == run(mb, s2, 21));
            lemma_run_tail(mb, s2);
            lemma_run_fuel(mb, s2, 10, 21);
        } else {
            let m12 = PutState { phase: PutPhase::UnlockOldHash, collect: false, ..m10 };
            let mb = goto(m12, PutPhase::StoreBlob);
            assert(run(m10, s, 24) == run(m12, s, 23));
            assert(run(m12, s, 23) == run(mb, s, 22));
            lemma_run_tail(mb, s);
            lemma_run_fuel(mb, s, 10, 22);
        }
    }
}

/// From the blob write on, the protocol writes the path's hash and time,
/// possibly removes unreferenced old content, and finishes accepted.
#[verifier::spinoff_prover]
proof fn lemma_run_tail(m: PutState, s: StoreModel)
    requires
        m.phase == PutPhase::StoreBlob,
    ensures
        run(m, s, 10) == (
            s.set_ref_file(m.bucket, m.path, m.hash).set_modified(m.bucket, m.path, m.timestamp),
            Some(PutOutcome::Accepted(m.timestamp)),
        ),
{
    let s3 = s.set_ref_file(m.bucket, m.path, m.hash).set_modified(m.bucket, m.path, m.timestamp);
    let m1 = PutState {
        phase: if m.collect {
            PutPhase::CollectLock
        } else {
            PutPhase::UnlockPath
        },
        ref_written: true,
        outcome: PutOutcome::Accepted(m.timestamp),
        ..m
    };
    reveal_with_fuel(run, 4);
    assert(run(m, s, 10) == run(m1, s3, 7));
    if m.collect {
        let m2 = goto(m1, PutPhase::CollectRead);
        assert(run(m1, s3, 7) == run(m2, s3, 6));
        if s3.ref_count_of(m.bucket, m.old_hash) == 0 {
            assert(run(m2, s3, 6) == run(goto(m2, PutPhase::DeleteBlob), s3, 5));
            assert(run(goto(m2, PutPhase::DeleteBlob), s3, 5) == run(goto(m2, PutPhase::UnlockPath), s3, 3));
        } else {
            assert(run(m2, s3, 6) == run(goto(m2, PutPhase::CollectUnlock), s3, 5));
            assert(run(goto(m2, PutPhase::CollectUnlock), s3, 5) == run(goto(m2, PutPhase::UnlockPath), s3, 4));
        }
    }
}

/// Once a run finishes within `f1` steps, more fuel changes nothing.
proof fn lemma_run_fuel(m: PutState, s: StoreModel, f1: nat, f2: nat)
    requires
        f1 <= f2,
        run(m, s, f1).1 is Some,
    ensures
        run(m, s, f1) == run(m, s, f2),
    decreases f1,
{
    if m.phase != PutPhase::Done && f1 > 0 {
        lemma_run_fuel(
            next(m, respond(s, pending(m))),
            perform(s, pending(m)),
            (f1 - 1) as nat,
            (f2 - 1) as nat,
        );
    }
}

/// Whether phase `ph` is one of the request's own steps, as opposed to
/// taking back its writes, removing old content or letting go of locks.
pub open spec fn forward(ph: PutPhase) -> bool {
    ph == PutPhase::LockPath || ph == PutPhase::ReadModified || ph == PutPhase::ReadRefFile || ph
        == PutPhase::LockNewHash || ph == PutPhase::ReadNewCount || ph == PutPhase::WriteNewCount || ph
        == PutPhase::LockOldHash || ph == PutPhase::ReadOldCount || ph == PutPhase::WriteOldCount || ph
        == PutPhase::StoreBlob || ph == PutPhase::WriteRefFile || ph == PutPhase::WriteModified
}

/// Drives `m` against an environment that is faithful except that the
/// request's own step number `k` (counting from zero) fails without effect.
pub open spec fn run_failing(m: PutState, s: StoreModel, fuel: nat, k: int) -> (
    StoreModel,
    Option<PutOutcome>,
)
    decreases fuel,
{
    if m.phase == PutPhase::Done {
        (s, Some(m.outcome))
    } else if fuel == 0 {
        (s, None)
    } else {
        let fails = forward(m.phase) && k == 0;
        run_failing(
            next(
                m,
                if fails {
                    Event::Failed
                } else {
                    respond(s, pending(m))
                },
            ),
            if fails {
                s
            } else {
                perform(s, pending(m))
            },
            (fuel - 1) as nat,
            if forward(m.phase) {
                k - 1
            } else {
                k
            },
        )
    }
}

/// Steps left at most before phase `ph` reaches `Done`.
pub open spec fn rank(ph: PutPhase) -> nat {
    match ph {
        PutPhase::LockPath => 29,
        PutPhase::ReadModified => 28,
        PutPhase::ReadRefFile => 27,
        PutPhase::LockNewHash => 26,
        PutPhase::ReadNewCount => 25,
        PutPhase::WriteNewCount => 24,
        PutPhase::UnlockNewHash => 23,
        PutPhase::LockOldHash => 22,
        PutPhase::ReadOldCount => 21,
        PutPhase::WriteOldCount => 20,
        PutPhase::UnlockOldHash => 19,
        PutPhase::StoreBlob => 18,
        PutPhase::WriteRefFile => 17,
        PutPhase::WriteModified => 16,
        PutPhase::ReleaseHash => 15,
        PutPhase::UndoRefFile => 14,
        PutPhase::UndoLockOld => 13,
        PutPhase::UndoReadOld => 12,
        PutPhase::UndoWriteOld => 11,
        PutPhase::UndoUnlockOld => 10,
        PutPhase::UndoLockNew => 9,
        PutPhase::UndoReadNew => 8,
        PutPhase::UndoWriteNew => 7,
        PutPhase::UndoUnlockNew => 6,
        PutPhase::CollectLock => 5,
        PutPhase::CollectRead => 4,
        PutPhase::DeleteBlob => 3,
        PutPhase::CollectUnlock => 2,
        PutPhase::UnlockPath => 1,
        PutPhase::Done => 0,
    }
}

/// Every step of an unfinished request moves closer to `Done`, whatever the
/// driver reports.
pub proof fn lemma_rank_decreases(m: PutState, e: Event<Seq<char>>)
    requires
        m.phase != PutPhase::Done,
    ensures
        rank(next(m, e).phase) < rank(m.phase),
{
}

/// With more fuel than its rank, a request finishes in any such environment.
pub proof fn lemma_run_failing_finishes(m: PutState, s: StoreModel, fuel: nat, k: int)
    requires
        fuel > rank(m.phase),
    ensures
        run_failing(m, s, fuel, k).1 is Some,
    decreases fuel,
{
    if m.phase != PutPhase::Done {
        let fails = forward(m.phase) && k == 0;
        let e = if fails {
            Event::Failed
        } else {
            respond(s, pending(m))
        };
        lemma_rank_decreases(m, e);
        lemma_run_failing_finishes(
            next(m, e),
            if fails {
                s
            } else {
                perform(s, pending(m))
            },
            (fuel - 1) as nat,
            if forward(m.phase) {
                k - 1
            } else {
                k
            },
        );
    }
}

/// Two stores that answer every read alike.
pub open spec fn same_view(s1: StoreModel, s2: StoreModel) -> bool {
    forall|b: Seq<char>, k: Seq<char>|
        #![trigger s1.ref_count_of(b, k)]
        #![trigger s1.modified_of(b, k)]
        #![trigger s1.ref_file_of(b, k)]
        s1.ref_count_of(b, k) == s2.ref_count_of(b, k) && s1.modified_of(b, k) == s2.modified_of(
            b,
            k,
        ) && s1.ref_file_of(b, k) == s2.ref_file_of(b, k)
}

/// The request has written the path's time.
pub open spec fn modified_written(m: PutState) -> bool {
    m.outcome == PutOutcome::Accepted(m.timestamp) && (m.phase == PutPhase::CollectLock || m.phase
        == PutPhase::CollectRead || m.phase == PutPhase::DeleteBlob || m.phase == PutPhase::CollectUnlock
        || m.phase == PutPhase::UnlockPath || m.phase == PutPhase::Done)
}

/// Store `s` is `s0` with exactly the writes that `m` records.
pub open spec fn store_matches(m: PutState, s: StoreModel, s0: StoreModel) -> bool {
    &&& forall|b: Seq<char>, k: Seq<char>|
        #[trigger] s.ref_count_of(b, k) == s0.ref_count_of(b, k) + (if m.new_written && b == m.bucket
            && k == m.hash {
            1int
        } else {
            0int
        }) - (if m.old_written && b == m.bucket && k == m.old_hash {
            1int
        } else {
            0int
        })
    &&& forall|b: Seq<char>, k: Seq<char>|
        #[trigger] s.ref_file_of(b, k) == (if m.ref_written && b == m.bucket && k == m.path {
            m.hash
        } else {
            s0.ref_file_of(b, k)
        })
    &&& forall|b: Seq<char>, k: Seq<char>|
        #[trigger] s.modified_of(b, k) == (if modified_written(m) && b == m.bucket && k == m.path {
            m.timestamp
        } else {
            s0.modified_of(b, k)
        })
}

/// What holds of a request and the store throughout a run that started on
/// store `s0`.
pub open spec fn put_inv(m: PutState, s: StoreModel, s0: StoreModel) -> bool {
    let ph = m.phase;
    let b = m.bucket;
    let failed = m.outcome is Failed;
    let untouched = !m.new_written && !m.old_written && !m.ref_written;
    &&& store_matches(m, s, s0)
    &&& !(ph == PutPhase::LockPath || ph == PutPhase::ReadModified || ph == PutPhase::ReadRefFile
        || ph == PutPhase::UnlockPath || ph == PutPhase::Done) ==> m.old_hash == s0.ref_file_of(
        b,
        m.path,
    )
    &&& ph == PutPhase::ReadRefFile ==> m.current == s0.modified_of(b, m.path)
    &&& m.new_written ==> m.old_hash != m.hash
    &&& m.old_written ==> m.new_written && m.old_hash.len() > 0
    &&& m.ref_written ==> m.new_written
    &&& (ph == PutPhase::LockPath || ph == PutPhase::ReadModified || ph == PutPhase::ReadRefFile || ph
        == PutPhase::LockNewHash || ph == PutPhase::ReadNewCount || ph == PutPhase::WriteNewCount)
        ==> untouched
    &&& (ph == PutPhase::LockNewHash || ph == PutPhase::ReadNewCount || ph == PutPhase::WriteNewCount)
        ==> m.old_hash != m.hash
    &&& ph == PutPhase::WriteNewCount ==> m.count == s0.ref_count_of(b, m.hash) + 1
    &&& (ph == PutPhase::UnlockNewHash || ph == PutPhase::LockOldHash || ph == PutPhase::ReadOldCount
        || ph == PutPhase::WriteOldCount) ==> m.new_written && !m.old_written && !m.ref_written
    &&& (ph == PutPhase::LockOldHash || ph == PutPhase::ReadOldCount || ph == PutPhase::WriteOldCount)
        ==> m.old_hash.len() > 0
    &&& ph == PutPhase::WriteOldCount ==> m.count == s0.ref_count_of(b, m.old_hash) - 1
    &&& (ph == PutPhase::UnlockOldHash || ph == PutPhase::StoreBlob || ph == PutPhase::WriteRefFile)
        ==> m.new_written && !m.ref_written
    &&& ph == PutPhase::WriteModified ==> m.ref_written == m.new_written
    &&& ph == PutPhase::ReleaseHash ==> !m.old_written && !m.ref_written && failed
    &&& ph == PutPhase::UndoRefFile ==> m.ref_written && failed
    &&& (ph == PutPhase::UndoLockOld || ph == PutPhase::UndoReadOld || ph == PutPhase::UndoWriteOld)
        ==> m.old_written && !m.ref_written && failed
    &&& ph == PutPhase::UndoWriteOld ==> m.count == s0.ref_count_of(b, m.old_hash)
    &&& ph == PutPhase::UndoUnlockOld ==> !m.old_written && !m.ref_written && failed
    &&& (ph == PutPhase::UndoLockNew || ph == PutPhase::UndoReadNew || ph == PutPhase::UndoWriteNew)
        ==> m.new_written && !m.old_written && !m.ref_written && failed
    &&& ph == PutPhase::UndoWriteNew ==> m.count == s0.ref_count_of(b, m.hash)
    &&& ph == PutPhase::UndoUnlockNew ==> untouched && failed
    &&& (ph == PutPhase::CollectLock || ph == PutPhase::CollectRead || ph == PutPhase::DeleteBlob || ph
        == PutPhase::CollectUnlock) ==> m.outcome == PutOutcome::Accepted(m.timestamp)
    &&& (ph == PutPhase::UnlockPath || ph == PutPhase::Done) ==> (m.outcome is Accepted ==> m.outcome
        == PutOutcome::Accepted(m.timestamp)) && (!(m.outcome is Accepted) ==> untouched)
}

/// One step of a run in which only the request's own steps may fail keeps
/// the invariant.
#[verifier::spinoff_prover]
#[verifier::rlimit(100)]
proof fn lemma_put_inv_step(m: PutState, s: StoreModel, s0: StoreModel, fails: bool)
    requires
        put_inv(m, s, s0),
        m.phase != PutPhase::Done,
        fails ==> forward(m.phase),
    ensures
        put_inv(
            next(
                m,
                if fails {
                    Event::Failed
                } else {
                    respond(s, pending(m))
                },
            ),
            if fails {
                s
            } else {
                perform(s, pending(m))
            },
            s0,
        ),
{
    let e = if fails {
        Event::Failed
    } else {
        respond(s, pending(m))
    };
    let s2 = if fails {
        s
    } else {
        perform(s, pending(m))
    };
    let m2 = next(m, e);
    lemma_set_ref_count_reads(s, m.bucket, m.hash, m.count);
    lemma_set_ref_count_reads(s, m.bucket, m.old_hash, m.count);
    lemma_set_modified_reads(s, m.bucket, m.path, m.timestamp);
    lemma_ref_file_reads(s, m.bucket, m.path, m.hash);
    lemma_ref_file_reads(s, m.bucket, m.path, m.old_hash);
    if m.phase == PutPhase::UndoRefFile && m.old_hash.len() == 0 {
        assert(m.old_hash =~= Seq::<char>::empty());
    }
    match m.phase {
        PutPhase::LockPath => {
            assert(store_matches(m2, s2, s0));
            assert(put_inv(m2, s2, s0));
        },
        PutPhase::ReadModified => {
            assert(store_matches(m2, s2, s0));
            assert(put_inv(m2, s2, s0));
        },
        PutPhase::ReadRefFile => {
            assert(store_matches(m2, s2, s0));
            assert(put_inv(m2, s2, s0));
        },
        PutPhase::LockNewHash => {
            assert(store_matches(m2, s2, s0));
            assert(put_inv(m2, s2, s0));
        },
        PutPhase::ReadNewCount => {
            assert(store_matches(m2, s2, s0));
            assert(put_inv(m2, s2, s0));
        },
        PutPhase::WriteNewCount => {
            assert(store_matches(m2, s2, s0));
            assert(put_inv(m2, s2, s0));
        },
        PutPhase::UnlockNewHash => {
            assert(store_matches(m2, s2, s0));
            assert(put_inv(m2, s2, s0));
        },
        PutPhase::LockOldHash => {
            assert(store_matches(m2, s2, s0));
            assert(put_inv(m2, s2, s0));
        },
        PutPhase::ReadOldCount => {
            assert(store_matches(m2, s2, s0));
            assert(put_inv(m2, s2, s0));
        },
        PutPhase::WriteOldCount => {
            assert(store_matches(m2, s2, s0));
            assert(put_inv(m2, s2, s0));
        },
        PutPhase::UnlockOldHash => {
            assert(store_matches(m2, s2, s0));
            assert(put_inv(m2, s2, s0));
        },
        PutPhase::StoreBlob => {
            assert(store_matches(m2, s2, s0));
            assert(put_inv(m2, s2, s0));
        },
        PutPhase::WriteRefFile => {
            assert(store_matches(m2, s2, s0));
            assert(put_inv(m2, s2, s0));
        },
        PutPhase::WriteModified => {
            assert(store_matches(m2, s2, s0));
            assert(put_inv(m2, s2, s0));
        },
        PutPhase::ReleaseHash => {
            assert(store_matches(m2, s2, s0));
            assert(put_inv(m2, s2, s0));
        },
        PutPhase::UndoRefFile => {
            assert(store_matches(m2, s2, s0));
            assert(put_inv(m2, s2, s0));
        },
        PutPhase::UndoLockOld => {
            assert(store_matches(m2, s2, s0));
            assert(put_inv(m2, s2, s0));
        },
        PutPhase::UndoReadOld => {
            assert(store_matches(m2, s2, s0));
            assert(put_inv(m2, s2, s0));
        },
        PutPhase::UndoWriteOld => {
            assert(store_matches(m2, s2, s0));
            assert(put_inv(m2, s2, s0));
        },
        PutPhase::UndoUnlockOld => {
            assert(store_matches(m2, s2, s0));
            assert(put_inv(m2, s2, s0));
        },
        PutPhase::UndoLockNew => {
            assert(store_matches(m2, s2, s0));
            assert(put_inv(m2, s2, s0));
        },
        PutPhase::UndoReadNew => {
            assert(store_matches(m2, s2, s0));
            assert(put_inv(m2, s2, s0));
        },
        PutPhase::UndoWriteNew => {
            assert(store_matches(m2, s2, s0));
            assert(put_inv(m2, s2, s0));
        },
        PutPhase::UndoUnlockNew => {
            assert(store_matches(m2, s2, s0));
            assert(put_inv(m2, s2, s0));
        },
        PutPhase::CollectLock => {
            assert(store_matches(m2, s2, s0));
            assert(put_inv(m2, s2, s0));
        },
        PutPhase::CollectRead => {
            assert(store_matches(m2, s2, s0));
            assert(put_inv(m2, s2, s0));
        },
        PutPhase::DeleteBlob => {
            assert(store_matches(m2, s2, s0));
            assert(put_inv(m2, s2, s0));
        },
        PutPhase::CollectUnlock => {
            assert(store_matches(m2, s2, s0));
            assert(put_inv(m2, s2, s0));
        },
        PutPhase::UnlockPath => {
            assert(store_matches(m2, s2, s0));
            assert(put_inv(m2, s2, s0));
        },
        PutPhase::Done => {
            assert(store_matches(m2, s2, s0));
            assert(put_inv(m2, s2, s0));
        },
    }
}

proof fn lemma_run_failing_inv(m: PutState, s: StoreModel, s0: StoreModel, fuel: nat, k: int)
    requires
        put_inv(m, s, s0),
    ensures
        run_failing(m, s, fuel, k).1 matches Some(o) && !(o is Accepted) ==> same_view(
            run_failing(m, s, fuel, k).0,
            s0,
        ),
    decreases fuel,
{
    if m.phase == PutPhase::Done {
    } else if fuel > 0 {
        let fails = forward(m.phase) && k == 0;
        lemma_put_inv_step(m, s, s0, fails);
        lemma_run_failing_inv(
            next(
                m,
                if fails {
                    Event::Failed
                } else {
                    respond(s, pending(m))
                },
            ),
            if fails {
                s
            } else {
                perform(s, pending(m))
            },
            s0,
            (fuel - 1) as nat,
            if forward(m.phase) {
                k - 1
            } else {
                k
            },
        );
    }
}

/// When one of a request's own steps fails (a refused lock, or a backend
/// read or write that fails without effect) and taking back its writes
/// succeeds, the request still finishes; and unless it was accepted, the
/// store answers every read exactly as before the request.
pub proof fn lemma_failed_put_leaves_store(
    s: StoreModel,
    b: Seq<char>,
    p: Seq<char>,
    h: Seq<char>,
    t: i64,
    k: int,
)
    ensures
        run_failing(start(b, p, h, t), s, put_fuel(), k).1 is Some,
        run_failing(start(b, p, h, t), s, put_fuel(), k).1 matches Some(o) && !(o is Accepted)
            ==> same_view(run_failing(start(b, p, h, t), s, put_fuel(), k).0, s),
{
    lemma_run_failing_finishes(start(b, p, h, t), s, put_fuel(), k);
    lemma_run_failing_inv(start(b, p, h, t), s, s, put_fuel(), k);
}

} // verus!
