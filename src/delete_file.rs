//! Removing a path: the same locking discipline as a store request; the
//! path's hash loses its reference and the path's relations are removed.
//! A failure after a write takes the writes back; content whose count
//! reached zero is removed last, under its hash lock, once the count is
//! confirmed to be still zero.
use vstd::prelude::*;
use crate::consistency::{count_matches, referrers, refcounts_consistent};
use crate::engine::{
    Action,
    Event,
    SyncError,
    lemma_lock_keys_differ,
    locks_after,
    perform,
    respond,
    same_view,
    written,
};
use crate::kvstorage::{
    StoreModel,
    StorageOp,
    StorageReply,
    decremented_ref_count,
    incremented_ref_count,
    lemma_delete_modified_reads,
    lemma_ref_file_reads,
    lemma_set_ref_count_reads,
};
use crate::locks::{file_lock, file_lock_key, hash_lock, hash_lock_key};

verus! {

/// How a removal ended.
#[derive(Clone, Copy, PartialEq, Eq, Structural, Debug)]
pub enum DeleteOutcome {
    /// The path's relations are gone.
    Deleted,
    /// The removal failed.
    Failed(SyncError),
}

/// Where the removal stands.
#[derive(Clone, Copy, PartialEq, Eq, Structural, Debug)]
pub enum DeletePhase {
    LockPath,
    ReadRefFile,
    LockOldHash,
    ReadOldCount,
    WriteOldCount,
    UnlockOldHash,
    DeleteRefFile,
    DeleteModified,
    ReleaseHash,
    UndoRefFile,
    UndoLockOld,
    UndoReadOld,
    UndoWriteOld,
    UndoUnlockOld,
    CollectLock,
    CollectRead,
    DeleteBlob,
    CollectUnlock,
    UnlockPath,
    Done,
}

/// The state of one removal.
pub struct DeleteState {
    pub bucket: Seq<char>,
    pub path: Seq<char>,
    pub phase: DeletePhase,
    /// The hash the path referenced, once read.
    pub old_hash: Seq<char>,
    /// The reference count to write next.
    pub count: i32,
    /// The old hash's count was written as zero: its content may go.
    pub collect: bool,
    /// The old hash's count was lowered and not yet taken back.
    pub old_written: bool,
    /// The path's hash entry was removed and not yet put back.
    pub ref_deleted: bool,
    pub outcome: DeleteOutcome,
}

/// A fresh request to remove `path` of `bucket`.
pub open spec fn start_delete(bucket: Seq<char>, path: Seq<char>) -> DeleteState {
    DeleteState {
        bucket,
        path,
        phase: DeletePhase::LockPath,
        old_hash: Seq::empty(),
        count: 0,
        collect: false,
        old_written: false,
        ref_deleted: false,
        outcome: DeleteOutcome::Failed(SyncError::StorageFailure),
    }
}

/// The action that phase `m.phase` asks for.
pub open spec fn pending_delete(m: DeleteState) -> Action<Seq<char>, DeleteOutcome> {
    let b = m.bucket;
    match m.phase {
        DeletePhase::LockPath => Action::AcquireExclusive(file_lock_key(b, m.path)),
        DeletePhase::ReadRefFile => Action::Storage(StorageOp::GetRefFile { bucket: b, path: m.path }),
        DeletePhase::LockOldHash | DeletePhase::UndoLockOld | DeletePhase::CollectLock => Action::AcquireExclusive(
            hash_lock_key(b, m.old_hash),
        ),
        DeletePhase::ReadOldCount | DeletePhase::UndoReadOld | DeletePhase::CollectRead => Action::Storage(
            StorageOp::GetRefCount { bucket: b, hash: m.old_hash },
        ),
        DeletePhase::WriteOldCount | DeletePhase::UndoWriteOld => Action::Storage(
            StorageOp::SetRefCount { bucket: b, hash: m.old_hash, value: m.count },
        ),
        DeletePhase::UnlockOldHash | DeletePhase::UndoUnlockOld | DeletePhase::CollectUnlock
        | DeletePhase::ReleaseHash => Action::Release(hash_lock_key(b, m.old_hash)),
        DeletePhase::DeleteRefFile => Action::Storage(
            StorageOp::DeleteRefFile { bucket: b, path: m.path },
        ),
        DeletePhase::DeleteModified => Action::Storage(
            StorageOp::DeleteModified { bucket: b, path: m.path },
        ),
        DeletePhase::UndoRefFile => if m.old_hash.len() > 0 {
            Action::Storage(StorageOp::SetRefFile { bucket: b, path: m.path, hash: m.old_hash })
        } else {
            Action::Storage(StorageOp::DeleteRefFile { bucket: b, path: m.path })
        },
        DeletePhase::DeleteBlob => Action::DeleteBlob(m.old_hash),
        DeletePhase::UnlockPath => Action::Release(file_lock_key(b, m.path)),
        DeletePhase::Done => Action::Finish(m.outcome),
    }
}

pub open spec fn goto_delete(m: DeleteState, phase: DeletePhase) -> DeleteState {
    DeleteState { phase, ..m }
}

/// The first step of taking back what the removal wrote, ending with
/// `outcome`: the path's hash entry first, then the old count.
pub open spec fn undo_delete(m: DeleteState, outcome: DeleteOutcome) -> DeleteState {
    DeleteState {
        phase: if m.ref_deleted {
            DeletePhase::UndoRefFile
        } else if m.old_written {
            DeletePhase::UndoLockOld
        } else {
            DeletePhase::UnlockPath
        },
        outcome,
        ..m
    }
}

/// The state after the driver reports `e` for the pending action.
pub open spec fn next_delete(m: DeleteState, e: Event<Seq<char>>) -> DeleteState {
    let storage_failed = DeleteOutcome::Failed(SyncError::StorageFailure);
    match m.phase {
        DeletePhase::LockPath => match e {
            Event::Granted => goto_delete(m, DeletePhase::ReadRefFile),
            _ => DeleteState {
                phase: DeletePhase::Done,
                outcome: DeleteOutcome::Failed(SyncError::LockUnavailable),
                ..m
            },
        },
        DeletePhase::ReadRefFile => match e {
            Event::Completed(StorageReply::RefFile(h)) => if h.len() == 0 {
                DeleteState { phase: DeletePhase::DeleteRefFile, old_hash: h, ..m }
            } else {
                DeleteState { phase: DeletePhase::LockOldHash, old_hash: h, ..m }
            },
            _ => undo_delete(m, storage_failed),
        },
        DeletePhase::LockOldHash => match e {
            Event::Granted => goto_delete(m, DeletePhase::ReadOldCount),
            _ => undo_delete(m, DeleteOutcome::Failed(SyncError::LockUnavailable)),
        },
        DeletePhase::ReadOldCount => match e {
            Event::Completed(StorageReply::Count(c)) => if c > 0 {
                DeleteState { phase: DeletePhase::WriteOldCount, count: (c - 1) as i32, ..m }
            } else {
                DeleteState { phase: DeletePhase::UnlockOldHash, collect: false, ..m }
            },
            _ => DeleteState { phase: DeletePhase::ReleaseHash, outcome: storage_failed, ..m },
        },
        DeletePhase::WriteOldCount => if written(e) {
            DeleteState {
                phase: DeletePhase::UnlockOldHash,
                old_written: true,
                collect: m.count == 0,
                ..m
            }
        } else {
            DeleteState { phase: DeletePhase::ReleaseHash, outcome: storage_failed, ..m }
        },
        DeletePhase::UnlockOldHash => goto_delete(m, DeletePhase::DeleteRefFile),
        DeletePhase::DeleteRefFile => if written(e) {
            DeleteState { phase: DeletePhase::DeleteModified, ref_deleted: true, ..m }
        } else {
            undo_delete(m, storage_failed)
        },
        DeletePhase::DeleteModified => if written(e) {
            DeleteState {
                phase: if m.collect {
                    DeletePhase::CollectLock
                } else {
                    DeletePhase::UnlockPath
                },
                outcome: DeleteOutcome::Deleted,
                ..m
            }
        } else {
            undo_delete(m, storage_failed)
        },
        DeletePhase::ReleaseHash => undo_delete(m, m.outcome),
        DeletePhase::UndoRefFile => DeleteState {
            phase: if m.old_written {
                DeletePhase::UndoLockOld
            } else {
                DeletePhase::UnlockPath
            },
            ref_deleted: m.ref_deleted && !written(e),
            ..m
        },
        DeletePhase::UndoLockOld => match e {
            Event::Granted => goto_delete(m, DeletePhase::UndoReadOld),
            _ => goto_delete(m, DeletePhase::UnlockPath),
        },
        DeletePhase::UndoReadOld => match e {
            Event::Completed(StorageReply::Count(c)) => if c < i32::MAX {
                DeleteState { phase: DeletePhase::UndoWriteOld, count: (c + 1) as i32, ..m }
            } else {
                goto_delete(m, DeletePhase::UndoUnlockOld)
            },
            _ => goto_delete(m, DeletePhase::UndoUnlockOld),
        },
        DeletePhase::UndoWriteOld => DeleteState {
            phase: DeletePhase::UndoUnlockOld,
            old_written: m.old_written && !written(e),
            ..m
        },
        DeletePhase::UndoUnlockOld => goto_delete(m, DeletePhase::UnlockPath),
        DeletePhase::CollectLock => match e {
            Event::Granted => goto_delete(m, DeletePhase::CollectRead),
            _ => goto_delete(m, DeletePhase::UnlockPath),
        },
        DeletePhase::CollectRead => match e {
            Event::Completed(StorageReply::Count(c)) => if c == 0 {
                goto_delete(m, DeletePhase::DeleteBlob)
            } else {
                goto_delete(m, DeletePhase::CollectUnlock)
            },
            _ => goto_delete(m, DeletePhase::CollectUnlock),
        },
        DeletePhase::DeleteBlob => goto_delete(m, DeletePhase::CollectUnlock),
        DeletePhase::CollectUnlock => goto_delete(m, DeletePhase::UnlockPath),
        DeletePhase::UnlockPath => goto_delete(m, DeletePhase::Done),
        DeletePhase::Done => m,
    }
}

/// Drives a removal for at most `fuel` steps against a faithful
/// environment whose store starts as `s`.
pub open spec fn run_delete(m: DeleteState, s: StoreModel, fuel: nat) -> (StoreModel, Option<DeleteOutcome>)
    decreases fuel,
{
    if m.phase == DeletePhase::Done {
        (s, Some(m.outcome))
    } else if fuel == 0 {
        (s, None)
    } else {
        run_delete(
            next_delete(m, respond(s, pending_delete(m))),
            perform(s, pending_delete(m)),
            (fuel - 1) as nat,
        )
    }
}

/// The effect of removing path `p` of bucket `b` as one atomic step: the
/// hash it recorded loses a reference (never going below zero), and its
/// hash and time entries are removed.
pub open spec fn delete_effect(s: StoreModel, b: Seq<char>, p: Seq<char>) -> StoreModel {
    let old = s.ref_file_of(b, p);
    let s1 = if old.len() > 0 && s.ref_count_of(b, old) > 0 {
        s.set_ref_count(b, old, (s.ref_count_of(b, old) - 1) as i32)
    } else {
        s
    };
    s1.delete_ref_file(b, p).delete_modified(b, p)
}

/// Driven against a faithful environment, a removal finishes and has
/// exactly the effect of `delete_effect`.
pub proof fn lemma_delete_file_run(s: StoreModel, b: Seq<char>, p: Seq<char>)
    ensures
        run_delete(start_delete(b, p), s, 16) == (delete_effect(s, b, p), Some(DeleteOutcome::Deleted)),
{
    let old = s.ref_file_of(b, p);
    let s1 = if old.len() > 0 && s.ref_count_of(b, old) > 0 {
        s.set_ref_count(b, old, (s.ref_count_of(b, old) - 1) as i32)
    } else {
        s
    };
    let m0 = start_delete(b, p);
    reveal_with_fuel(run_delete, 3);
    let m2 = DeleteState { phase: DeletePhase::DeleteRefFile, old_hash: old, ..m0 };
    if old.len() == 0 {
        assert(run_delete(m0, s, 16) == run_delete(m2, s, 14));
        lemma_delete_tail(m2, s);
    } else {
        let m3 = DeleteState { phase: DeletePhase::LockOldHash, old_hash: old, ..m0 };
        assert(run_delete(m0, s, 16) == run_delete(m3, s, 14));
        let m4 = goto_delete(m3, DeletePhase::ReadOldCount);
        assert(run_delete(m3, s, 14) == run_delete(m4, s, 13));
        let c = s.ref_count_of(b, old);
        if c > 0 {
            let m5 = DeleteState { phase: DeletePhase::WriteOldCount, count: (c - 1) as i32, ..m4 };
            assert(run_delete(m4, s, 13) == run_delete(m5, s, 12));
            let m6 = DeleteState {
                phase: DeletePhase::UnlockOldHash,
                old_written: true,
                collect: c - 1 == 0,
                ..m5
            };
            assert(run_delete(m5, s, 12) == run_delete(m6, s1, 11));
            let m7 = goto_delete(m6, DeletePhase::DeleteRefFile);
            assert(run_delete(m6, s1, 11) == run_delete(m7, s1, 10));
            lemma_delete_tail(m7, s1);
        } else {
            let m6 = DeleteState { phase: DeletePhase::UnlockOldHash, collect: false, ..m4 };
            assert(run_delete(m4, s, 13) == run_delete(m6, s, 12));
            let m7 = goto_delete(m6, DeletePhase::DeleteRefFile);
            assert(run_delete(m6, s, 12) == run_delete(m7, s, 11));
            lemma_delete_tail(m7, s);
            lemma_delete_fuel(m7, s, 10, 11);
        }
    }
}

/// From the removal of the path's hash entry on, a removal finishes.
#[verifier::spinoff_prover]
proof fn lemma_delete_tail(m: DeleteState, s: StoreModel)
    requires
        m.phase == DeletePhase::DeleteRefFile,
    ensures
        run_delete(m, s, 10) == (
            s.delete_ref_file(m.bucket, m.path).delete_modified(m.bucket, m.path),
            Some(DeleteOutcome::Deleted),
        ),
        run_delete(m, s, 14) == run_delete(m, s, 10),
{
    let s3 = s.delete_ref_file(m.bucket, m.path).delete_modified(m.bucket, m.path);
    let m1 = DeleteState {
        phase: if m.collect {
            DeletePhase::CollectLock
        } else {
            DeletePhase::UnlockPath
        },
        ref_deleted: true,
        outcome: DeleteOutcome::Deleted,
        ..m
    };
    reveal_with_fuel(run_delete, 3);
    assert(run_delete(m, s, 10) == run_delete(m1, s3, 8));
    assert(run_delete(m, s, 14) == run_delete(m1, s3, 12));
    if m.collect {
        let m2 = goto_delete(m1, DeletePhase::CollectRead);
        reveal_with_fuel(run_delete, 6);
    } else {
        reveal_with_fuel(run_delete, 3);
    }
}

/// Once a removal finishes within `f1` steps, more fuel changes nothing.
proof fn lemma_delete_fuel(m: DeleteState, s: StoreModel, f1: nat, f2: nat)
    requires
        f1 <= f2,
        run_delete(m, s, f1).1 is Some,
    ensures
        run_delete(m, s, f1) == run_delete(m, s, f2),
    decreases f1,
{
    if m.phase != DeletePhase::Done && f1 > 0 {
        lemma_delete_fuel(
            next_delete(m, respond(s, pending_delete(m))),
            perform(s, pending_delete(m)),
            (f1 - 1) as nat,
            (f2 - 1) as nat,
        );
    }
}

/// A removal keeps every reference count equal to the number of paths that
/// record its hash.
pub proof fn lemma_delete_keeps_refcounts(s: StoreModel, b: Seq<char>, p: Seq<char>)
    requires
        refcounts_consistent(s),
    ensures
        refcounts_consistent(delete_effect(s, b, p)),
{
    let old = s.ref_file_of(b, p);
    let f = delete_effect(s, b, p);
    if old.len() > 0 {
        assert(count_matches(s, b, old));
        assert(referrers(s, b, old).contains(p));
        vstd::set_lib::lemma_set_empty_equivalency_len(referrers(s, b, old));
    }
    assert forall|b2: Seq<char>, h2: Seq<char>| h2.len() > 0 implies #[trigger] count_matches(
        f,
        b2,
        h2,
    ) by {
        assert(count_matches(s, b2, h2));
        if b2 == b && h2 == old {
            assert(referrers(f, b2, h2) =~= referrers(s, b2, h2).remove(p));
        } else {
            assert(referrers(f, b2, h2) =~= referrers(s, b2, h2));
        }
    }
    assert forall|b2: Seq<char>, p2: Seq<char>| #[trigger] f.ref_file.contains_key((b2, p2)) implies f.ref_file[(
        b2,
        p2,
    )].len() > 0 by {
        assert(s.ref_file.contains_key((b2, p2)));
    }
}

/// Whether phase `ph` is one of the removal's own steps.
pub open spec fn forward_delete(ph: DeletePhase) -> bool {
    ph == DeletePhase::LockPath || ph == DeletePhase::ReadRefFile || ph == DeletePhase::LockOldHash
        || ph == DeletePhase::ReadOldCount || ph == DeletePhase::WriteOldCount || ph
        == DeletePhase::DeleteRefFile || ph == DeletePhase::DeleteModified
}

/// Drives a removal against an environment that is faithful except that
/// the removal's own step number `k` (counting from zero) fails without
/// effect.
pub open spec fn run_delete_failing(m: DeleteState, s: StoreModel, fuel: nat, k: int) -> (
    StoreModel,
    Option<DeleteOutcome>,
)
    decreases fuel,
{
    if m.phase == DeletePhase::Done {
        (s, Some(m.outcome))
    } else if fuel == 0 {
        (s, None)
    } else {
        let fails = forward_delete(m.phase) && k == 0;
        run_delete_failing(
            next_delete(
                m,
                if fails {
                    Event::Failed
                } else {
                    respond(s, pending_delete(m))
                },
            ),
            if fails {
                s
            } else {
                perform(s, pending_delete(m))
            },
            (fuel - 1) as nat,
            if forward_delete(m.phase) {
                k - 1
            } else {
                k
            },
        )
    }
}

/// Steps left at most before phase `ph` reaches `Done`.
pub open spec fn delete_rank(ph: DeletePhase) -> nat {
    match ph {
        DeletePhase::LockPath => 19,
        DeletePhase::ReadRefFile => 18,
        DeletePhase::LockOldHash => 17,
        DeletePhase::ReadOldCount => 16,
        DeletePhase::WriteOldCount => 15,
        DeletePhase::UnlockOldHash => 14,
        DeletePhase::DeleteRefFile => 13,
        DeletePhase::DeleteModified => 12,
        DeletePhase::ReleaseHash => 11,
        DeletePhase::UndoRefFile => 10,
        DeletePhase::UndoLockOld => 9,
        DeletePhase::UndoReadOld => 8,
        DeletePhase::UndoWriteOld => 7,
        DeletePhase::UndoUnlockOld => 6,
        DeletePhase::CollectLock => 5,
        DeletePhase::CollectRead => 4,
        DeletePhase::DeleteBlob => 3,
        DeletePhase::CollectUnlock => 2,
        DeletePhase::UnlockPath => 1,
        DeletePhase::Done => 0,
    }
}

/// With more fuel than its rank, a removal finishes in any such environment.
pub proof fn lemma_run_delete_failing_finishes(m: DeleteState, s: StoreModel, fuel: nat, k: int)
    requires
        fuel > delete_rank(m.phase),
    ensures
        run_delete_failing(m, s, fuel, k).1 is Some,
    decreases fuel,
{
    if m.phase != DeletePhase::Done {
        let fails = forward_delete(m.phase) && k == 0;
        let e = if fails {
            Event::Failed
        } else {
            respond(s, pending_delete(m))
        };
        assert(delete_rank(next_delete(m, e).phase) < delete_rank(m.phase));
        lemma_run_delete_failing_finishes(
            next_delete(m, e),
            if fails {
                s
            } else {
                perform(s, pending_delete(m))
            },
            (fuel - 1) as nat,
            if forward_delete(m.phase) {
                k - 1
            } else {
                k
            },
        );
    }
}

/// The removal has removed the path's time.
pub open spec fn modified_deleted(m: DeleteState) -> bool {
    m.outcome == DeleteOutcome::Deleted && (m.phase == DeletePhase::CollectLock || m.phase
        == DeletePhase::CollectRead || m.phase == DeletePhase::DeleteBlob || m.phase
        == DeletePhase::CollectUnlock || m.phase == DeletePhase::UnlockPath || m.phase
        == DeletePhase::Done)
}

/// Store `s` is `s0` with exactly the writes that `m` records.
pub open spec fn delete_store_matches(m: DeleteState, s: StoreModel, s0: StoreModel) -> bool {
    &&& forall|b: Seq<char>, k: Seq<char>|
        #[trigger] s.ref_count_of(b, k) == s0.ref_count_of(b, k) - (if m.old_written && b == m.bucket
            && k == m.old_hash {
            1int
        } else {
            0int
        })
    &&& forall|b: Seq<char>, k: Seq<char>|
        #[trigger] s.ref_file_of(b, k) == (if m.ref_deleted && b == m.bucket && k == m.path {
            Seq::<char>::empty()
        } else {
            s0.ref_file_of(b, k)
        })
    &&& forall|b: Seq<char>, k: Seq<char>|
        #[trigger] s.modified_of(b, k) == (if modified_deleted(m) && b == m.bucket && k == m.path {
            0i64
        } else {
            s0.modified_of(b, k)
        })
}

/// What holds of a removal and the store throughout a run that started on
/// store `s0`.
pub open spec fn delete_inv(m: DeleteState, s: StoreModel, s0: StoreModel) -> bool {
    let ph = m.phase;
    let failed = m.outcome is Failed;
    let untouched = !m.old_written && !m.ref_deleted;
    &&& delete_store_matches(m, s, s0)
    &&& !(ph == DeletePhase::LockPath || ph == DeletePhase::ReadRefFile || ph == DeletePhase::UnlockPath
        || ph == DeletePhase::Done) ==> m.old_hash == s0.ref_file_of(m.bucket, m.path)
    &&& m.old_written ==> m.old_hash.len() > 0
    &&& (ph == DeletePhase::LockPath || ph == DeletePhase::ReadRefFile || ph == DeletePhase::LockOldHash
        || ph == DeletePhase::ReadOldCount || ph == DeletePhase::WriteOldCount) ==> untouched
    &&& (ph == DeletePhase::LockOldHash || ph == DeletePhase::ReadOldCount || ph
        == DeletePhase::WriteOldCount) ==> m.old_hash.len() > 0
    &&& ph == DeletePhase::WriteOldCount ==> m.count == s0.ref_count_of(m.bucket, m.old_hash) - 1
    &&& (ph == DeletePhase::UnlockOldHash || ph == DeletePhase::DeleteRefFile) ==> !m.ref_deleted
    &&& ph == DeletePhase::DeleteModified ==> m.ref_deleted
    &&& ph == DeletePhase::ReleaseHash ==> untouched && failed
    &&& ph == DeletePhase::UndoRefFile ==> m.ref_deleted && failed
    &&& (ph == DeletePhase::UndoLockOld || ph == DeletePhase::UndoReadOld || ph
        == DeletePhase::UndoWriteOld) ==> m.old_written && !m.ref_deleted && failed
    &&& ph == DeletePhase::UndoWriteOld ==> m.count == s0.ref_count_of(m.bucket, m.old_hash)
    &&& ph == DeletePhase::UndoUnlockOld ==> untouched && failed
    &&& (ph == DeletePhase::CollectLock || ph == DeletePhase::CollectRead || ph == DeletePhase::DeleteBlob
        || ph == DeletePhase::CollectUnlock) ==> m.outcome == DeleteOutcome::Deleted
    &&& (ph == DeletePhase::UnlockPath || ph == DeletePhase::Done) && m.outcome
        != DeleteOutcome::Deleted ==> untouched
}

#[verifier::spinoff_prover]
#[verifier::rlimit(100)]
proof fn lemma_delete_inv_step(m: DeleteState, s: StoreModel, s0: StoreModel, fails: bool)
    requires
        delete_inv(m, s, s0),
        m.phase != DeletePhase::Done,
        fails ==> forward_delete(m.phase),
    ensures
        delete_inv(
            next_delete(
                m,
                if fails {
                    Event::Failed
                } else {
                    respond(s, pending_delete(m))
                },
            ),
            if fails {
                s
            } else {
                perform(s, pending_delete(m))
            },
            s0,
        ),
{
    let e = if fails {
        Event::Failed
    } else {
        respond(s, pending_delete(m))
    };
    let s2 = if fails {
        s
    } else {
        perform(s, pending_delete(m))
    };
    let m2 = next_delete(m, e);
    lemma_set_ref_count_reads(s, m.bucket, m.old_hash, m.count);
    lemma_delete_modified_reads(s, m.bucket, m.path);
    lemma_ref_file_reads(s, m.bucket, m.path, m.old_hash);
    if m.phase == DeletePhase::UndoRefFile && m.old_hash.len() == 0 {
        assert(m.old_hash =~= Seq::<char>::empty());
    }
    match m.phase {
        DeletePhase::LockPath => {
            assert(delete_store_matches(m2, s2, s0));
            assert(delete_inv(m2, s2, s0));
        },
        DeletePhase::ReadRefFile => {
            assert(delete_store_matches(m2, s2, s0));
            assert(delete_inv(m2, s2, s0));
        },
        DeletePhase::LockOldHash => {
            assert(delete_store_matches(m2, s2, s0));
            assert(delete_inv(m2, s2, s0));
        },
        DeletePhase::ReadOldCount => {
            assert(delete_store_matches(m2, s2, s0));
            assert(delete_inv(m2, s2, s0));
        },
        DeletePhase::WriteOldCount => {
            assert(delete_store_matches(m2, s2, s0));
            assert(delete_inv(m2, s2, s0));
        },
        DeletePhase::UnlockOldHash => {
            assert(delete_store_matches(m2, s2, s0));
            assert(delete_inv(m2, s2, s0));
        },
        DeletePhase::DeleteRefFile => {
            assert(delete_store_matches(m2, s2, s0));
            assert(delete_inv(m2, s2, s0));
        },
        DeletePhase::DeleteModified => {
            assert(delete_store_matches(m2, s2, s0));
            assert(delete_inv(m2, s2, s0));
        },
        DeletePhase::ReleaseHash => {
            assert(delete_store_matches(m2, s2, s0));
            assert(delete_inv(m2, s2, s0));
        },
        DeletePhase::UndoRefFile => {
            assert(delete_store_matches(m2, s2, s0));
            assert(delete_inv(m2, s2, s0));
        },
        DeletePhase::UndoLockOld => {
            assert(delete_store_matches(m2, s2, s0));
            assert(delete_inv(m2, s2, s0));
        },
        DeletePhase::UndoReadOld => {
            assert(delete_store_matches(m2, s2, s0));
            assert(delete_inv(m2, s2, s0));
        },
        DeletePhase::UndoWriteOld => {
            assert(delete_store_matches(m2, s2, s0));
            assert(delete_inv(m2, s2, s0));
        },
        DeletePhase::UndoUnlockOld => {
            assert(delete_store_matches(m2, s2, s0));
            assert(delete_inv(m2, s2, s0));
        },
        DeletePhase::CollectLock => {
            assert(delete_store_matches(m2, s2, s0));
            assert(delete_inv(m2, s2, s0));
        },
        DeletePhase::CollectRead => {
            assert(delete_store_matches(m2, s2, s0));
            assert(delete_inv(m2, s2, s0));
        },
        DeletePhase::DeleteBlob => {
            assert(delete_store_matches(m2, s2, s0));
            assert(delete_inv(m2, s2, s0));
        },
        DeletePhase::CollectUnlock => {
            assert(delete_store_matches(m2, s2, s0));
            assert(delete_inv(m2, s2, s0));
        },
        DeletePhase::UnlockPath => {
            assert(delete_store_matches(m2, s2, s0));
            assert(delete_inv(m2, s2, s0));
        },
        DeletePhase::Done => {
            assert(delete_store_matches(m2, s2, s0));
            assert(delete_inv(m2, s2, s0));
        },
    }
}

proof fn lemma_run_delete_failing_inv(m: DeleteState, s: StoreModel, s0: StoreModel, fuel: nat, k: int)
    requires
        delete_inv(m, s, s0),
    ensures
        run_delete_failing(m, s, fuel, k).1 matches Some(o) && o != DeleteOutcome::Deleted
            ==> same_view(run_delete_failing(m, s, fuel, k).0, s0),
    decreases fuel,
{
    if m.phase == DeletePhase::Done {
    } else if fuel > 0 {
        let fails = forward_delete(m.phase) && k == 0;
        lemma_delete_inv_step(m, s, s0, fails);
        lemma_run_delete_failing_inv(
            next_delete(
                m,
                if fails {
                    Event::Failed
                } else {
                    respond(s, pending_delete(m))
                },
            ),
            if fails {
                s
            } else {
                perform(s, pending_delete(m))
            },
            s0,
            (fuel - 1) as nat,
            if forward_delete(m.phase) {
                k - 1
            } else {
                k
            },
        );
    }
}

/// When one of a removal's own steps fails (a refused lock, or a backend
/// read or write that fails without effect) and taking back its writes
/// succeeds, the removal still finishes; and unless it completed, the store
/// answers every read exactly as before.
pub proof fn lemma_failed_delete_leaves_store(s: StoreModel, b: Seq<char>, p: Seq<char>, k: int)
    ensures
        run_delete_failing(start_delete(b, p), s, 21, k).1 is Some,
        run_delete_failing(start_delete(b, p), s, 21, k).1 matches Some(o) && o
            != DeleteOutcome::Deleted ==> same_view(run_delete_failing(start_delete(b, p), s, 21, k).0, s),
{
    lemma_run_delete_failing_finishes(start_delete(b, p), s, 21, k);
    lemma_run_delete_failing_inv(start_delete(b, p), s, s, 21, k);
}

/// The lock keys a removal holds in state `m`.
pub open spec fn delete_held_locks(m: DeleteState) -> Set<Seq<char>> {
    let path_key = file_lock_key(m.bucket, m.path);
    match m.phase {
        DeletePhase::LockPath | DeletePhase::Done => Set::empty(),
        DeletePhase::ReadOldCount | DeletePhase::WriteOldCount | DeletePhase::UnlockOldHash
        | DeletePhase::ReleaseHash | DeletePhase::UndoReadOld | DeletePhase::UndoWriteOld
        | DeletePhase::UndoUnlockOld | DeletePhase::CollectRead | DeletePhase::DeleteBlob
        | DeletePhase::CollectUnlock => set![path_key, hash_lock_key(m.bucket, m.old_hash)],
        _ => set![path_key],
    }
}

/// Lock discipline of a removal, as for a store request: the holdings
/// follow the performed actions, the path lock comes first, at most one
/// hash lock is held, content is deleted only under its hash lock, and a
/// finished removal holds nothing.
pub proof fn lemma_delete_lock_discipline(m: DeleteState, e: Event<Seq<char>>)
    ensures
        delete_held_locks(next_delete(m, e)) =~= locks_after(
            delete_held_locks(m),
            pending_delete(m),
            e,
        ),
        pending_delete(m) matches Action::AcquireExclusive(k) ==> (delete_held_locks(m)
            =~= Set::empty() && k == file_lock_key(m.bucket, m.path)) || (delete_held_locks(m)
            =~= set![file_lock_key(m.bucket, m.path)] && exists|h: Seq<char>|
            k == hash_lock_key(m.bucket, h)),
        pending_delete(m) is DeleteBlob ==> delete_held_locks(m).contains(
            hash_lock_key(m.bucket, m.old_hash),
        ),
        m.phase == DeletePhase::Done ==> delete_held_locks(m) =~= Set::empty(),
{
    lemma_lock_keys_differ(m.bucket, m.path, m.old_hash);
}

/// One removal in progress.
pub struct DeleteFile {
    bucket: String,
    path: String,
    phase: DeletePhase,
    old_hash: String,
    count: i32,
    collect: bool,
    old_written: bool,
    ref_deleted: bool,
    outcome: DeleteOutcome,
}

impl View for DeleteFile {
    type V = DeleteState;

    closed spec fn view(&self) -> DeleteState {
        DeleteState {
            bucket: self.bucket@,
            path: self.path@,
            phase: self.phase,
            old_hash: self.old_hash@,
            count: self.count,
            collect: self.collect,
            old_written: self.old_written,
            ref_deleted: self.ref_deleted,
            outcome: self.outcome,
        }
    }
}

fn is_written(event: &Event<String>) -> (r: bool)
    ensures
        r == written(event@),
{
    match event {
        Event::Completed(StorageReply::Written) => true,
        _ => false,
    }
}

impl DeleteFile {
    /// A request to remove `path` of `bucket`.
    pub fn new(bucket: &str, path: &str) -> (r: Self)
        ensures
            r@ == start_delete(bucket@, path@),
    {
        DeleteFile {
            bucket: String::from_str(bucket),
            path: String::from_str(path),
            phase: DeletePhase::LockPath,
            old_hash: String::new(),
            count: 0,
            collect: false,
            old_written: false,
            ref_deleted: false,
            outcome: DeleteOutcome::Failed(SyncError::StorageFailure),
        }
    }

    fn storage(&self, op: StorageOp<String>) -> (r: Action<String, DeleteOutcome>)
        ensures
            r@ == Action::<Seq<char>, DeleteOutcome>::Storage(op@),
    {
        Action::Storage(op)
    }

    /// What the driver must do next.
    pub fn action(&self) -> (r: Action<String, DeleteOutcome>)
        ensures
            r@ == pending_delete(self@),
    {
        let b = self.bucket.clone();
        match self.phase {
            DeletePhase::LockPath => Action::AcquireExclusive(file_lock(&self.bucket, &self.path)),
            DeletePhase::ReadRefFile => self.storage(
                StorageOp::GetRefFile { bucket: b, path: self.path.clone() },
            ),
            DeletePhase::LockOldHash | DeletePhase::UndoLockOld | DeletePhase::CollectLock => Action::AcquireExclusive(
                hash_lock(&self.bucket, &self.old_hash),
            ),
            DeletePhase::ReadOldCount | DeletePhase::UndoReadOld | DeletePhase::CollectRead => self.storage(
                StorageOp::GetRefCount { bucket: b, hash: self.old_hash.clone() },
            ),
            DeletePhase::WriteOldCount | DeletePhase::UndoWriteOld => self.storage(
                StorageOp::SetRefCount { bucket: b, hash: self.old_hash.clone(), value: self.count },
            ),
            DeletePhase::UnlockOldHash | DeletePhase::UndoUnlockOld | DeletePhase::CollectUnlock
            | DeletePhase::ReleaseHash => Action::Release(hash_lock(&self.bucket, &self.old_hash)),
            DeletePhase::DeleteRefFile => self.storage(
                StorageOp::DeleteRefFile { bucket: b, path: self.path.clone() },
            ),
            DeletePhase::DeleteModified => self.storage(
                StorageOp::DeleteModified { bucket: b, path: self.path.clone() },
            ),
            DeletePhase::UndoRefFile => if self.old_hash.as_str().is_empty() {
                self.storage(StorageOp::DeleteRefFile { bucket: b, path: self.path.clone() })
            } else {
                self.storage(
                    StorageOp::SetRefFile { bucket: b, path: self.path.clone(), hash: self.old_hash.clone() },
                )
            },
            DeletePhase::DeleteBlob => Action::DeleteBlob(self.old_hash.clone()),
            DeletePhase::UnlockPath => Action::Release(file_lock(&self.bucket, &self.path)),
            DeletePhase::Done => Action::Finish(self.outcome),
        }
    }

    fn undo(&mut self, outcome: DeleteOutcome)
        ensures
            final(self)@ == undo_delete(old(self)@, outcome),
    {
        self.phase = if self.ref_deleted {
            DeletePhase::UndoRefFile
        } else if self.old_written {
            DeletePhase::UndoLockOld
        } else {
            DeletePhase::UnlockPath
        };
        self.outcome = outcome;
    }

    /// Takes in what happened to the last action and moves on.
    pub fn step(&mut self, event: Event<String>)
        ensures
            final(self)@ == next_delete(old(self)@, event@),
    {
        let storage_failed = DeleteOutcome::Failed(SyncError::StorageFailure);
        let done_write = is_written(&event);
        match self.phase {
            DeletePhase::LockPath => match event {
                Event::Granted => self.phase = DeletePhase::ReadRefFile,
                _ => {
                    self.phase = DeletePhase::Done;
                    self.outcome = DeleteOutcome::Failed(SyncError::LockUnavailable);
                },
            },
            DeletePhase::ReadRefFile => match event {
                Event::Completed(StorageReply::RefFile(h)) => {
                    let empty = h.as_str().is_empty();
                    self.old_hash = h;
                    if empty {
                        self.phase = DeletePhase::DeleteRefFile;
                    } else {
                        self.phase = DeletePhase::LockOldHash;
                    }
                },
                _ => self.undo(storage_failed),
            },
            DeletePhase::LockOldHash => match event {
                Event::Granted => self.phase = DeletePhase::ReadOldCount,
                _ => self.undo(DeleteOutcome::Failed(SyncError::LockUnavailable)),
            },
            DeletePhase::ReadOldCount => match event {
                Event::Completed(StorageReply::Count(c)) => {
                    let n = decremented_ref_count(c);
                    if n != c {
                        self.phase = DeletePhase::WriteOldCount;
                        self.count = n;
                    } else {
                        self.phase = DeletePhase::UnlockOldHash;
                        self.collect = false;
                    }
                },
                _ => {
                    self.phase = DeletePhase::ReleaseHash;
                    self.outcome = storage_failed;
                },
            },
            DeletePhase::WriteOldCount => {
                if done_write {
                    self.phase = DeletePhase::UnlockOldHash;
                    self.old_written = true;
                    self.collect = self.count == 0;
                } else {
                    self.phase = DeletePhase::ReleaseHash;
                    self.outcome = storage_failed;
                }
            },
            DeletePhase::UnlockOldHash => self.phase = DeletePhase::DeleteRefFile,
            DeletePhase::DeleteRefFile => {
                if done_write {
                    self.phase = DeletePhase::DeleteModified;
                    self.ref_deleted = true;
                } else {
                    self.undo(storage_failed);
                }
            },
            DeletePhase::DeleteModified => {
                if done_write {
                    self.phase = if self.collect {
                        DeletePhase::CollectLock
                    } else {
                        DeletePhase::UnlockPath
                    };
                    self.outcome = DeleteOutcome::Deleted;
                } else {
                    self.undo(storage_failed);
                }
            },
            DeletePhase::ReleaseHash => {
                let o = self.outcome;
                self.undo(o);
            },
            DeletePhase::UndoRefFile => {
                self.phase = if self.old_written {
                    DeletePhase::UndoLockOld
                } else {
                    DeletePhase::UnlockPath
                };
                self.ref_deleted = self.ref_deleted && !done_write;
            },
            DeletePhase::UndoLockOld => match event {
                Event::Granted => self.phase = DeletePhase::UndoReadOld,
                _ => self.phase = DeletePhase::UnlockPath,
            },
            DeletePhase::UndoReadOld => match event {
                Event::Completed(StorageReply::Count(c)) => match incremented_ref_count(c) {
                    Some(n) => {
                        self.phase = DeletePhase::UndoWriteOld;
                        self.count = n;
                    },
                    None => self.phase = DeletePhase::UndoUnlockOld,
                },
                _ => self.phase = DeletePhase::UndoUnlockOld,
            },
            DeletePhase::UndoWriteOld => {
                self.phase = DeletePhase::UndoUnlockOld;
                self.old_written = self.old_written && !done_write;
            },
            DeletePhase::UndoUnlockOld => self.phase = DeletePhase::UnlockPath,
            DeletePhase::CollectLock => match event {
                Event::Granted => self.phase = DeletePhase::CollectRead,
                _ => self.phase = DeletePhase::UnlockPath,
            },
            DeletePhase::CollectRead => match event {
                Event::Completed(StorageReply::Count(c)) => {
                    if c == 0 {
                        self.phase = DeletePhase::DeleteBlob;
                    } else {
                        self.phase = DeletePhase::CollectUnlock;
                    }
                },
                _ => self.phase = DeletePhase::CollectUnlock,
            },
            DeletePhase::DeleteBlob => self.phase = DeletePhase::CollectUnlock,
            DeletePhase::CollectUnlock => self.phase = DeletePhase::UnlockPath,
            DeletePhase::UnlockPath => self.phase = DeletePhase::Done,
            DeletePhase::Done => {},
        }
    }
}

} // verus!
