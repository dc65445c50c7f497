//! What the put-file protocol guarantees about the persisted relations.
use vstd::prelude::*;
use crate::engine::{PutOutcome, lemma_put_file_run, put_effect, put_fuel, run, start};
use crate::kvstorage::StoreModel;

verus! {

/// The paths of bucket `b` whose recorded hash is `h`.
pub open spec fn referrers(s: StoreModel, b: Seq<char>, h: Seq<char>) -> Set<Seq<char>> {
    Set::new(|p: Seq<char>| s.ref_file.contains_key((b, p)) && s.ref_file[(b, p)] == h)
}

/// The reference count of `h` in bucket `b` is the number of paths that
/// record it.
pub open spec fn count_matches(s: StoreModel, b: Seq<char>, h: Seq<char>) -> bool {
    referrers(s, b, h).finite() && s.ref_count_of(b, h) == referrers(s, b, h).len()
}

/// Every recorded hash is non-empty, and the reference count of every
/// non-empty hash is the number of paths of its bucket that record it.
pub open spec fn refcounts_consistent(s: StoreModel) -> bool {
    &&& forall|b: Seq<char>, p: Seq<char>|
        #[trigger] s.ref_file.contains_key((b, p)) ==> s.ref_file[(b, p)].len() > 0
    &&& forall|b: Seq<char>, h: Seq<char>| h.len() > 0 ==> #[trigger] count_matches(s, b, h)
}

/// A store request with a non-empty hash keeps every reference count equal
/// to the number of paths that record its hash.
pub proof fn lemma_put_keeps_refcounts(
    s: StoreModel,
    b: Seq<char>,
    p: Seq<char>,
    h: Seq<char>,
    t: i64,
)
    requires
        refcounts_consistent(s),
        h.len() > 0,
    ensures
        refcounts_consistent(put_effect(s, b, p, h, t).0),
{
    let m = s.modified_of(b, p);
    let old = s.ref_file_of(b, p);
    let f = put_effect(s, b, p, h, t).0;
    if m >= t {
    } else if old == h {
        assert forall|b2: Seq<char>, h2: Seq<char>| h2.len() > 0 implies #[trigger] count_matches(
            f,
            b2,
            h2,
        ) by {
            assert(count_matches(s, b2, h2));
            assert(referrers(f, b2, h2) =~= referrers(s, b2, h2));
        }
        assert(f.ref_file == s.ref_file);
    } else if s.ref_count_of(b, h) == i32::MAX {
    } else {
        let c = s.ref_count_of(b, h);
        if old.len() > 0 {
            assert(count_matches(s, b, old));
            assert(referrers(s, b, old).contains(p));
            vstd::set_lib::lemma_set_empty_equivalency_len(referrers(s, b, old));
        }
        assert forall|b2: Seq<char>, h2: Seq<char>| h2.len() > 0 implies #[trigger] count_matches(
            f,
            b2,
            h2,
        ) by {
            assert(count_matches(s, b2, h2));
            if b2 == b && h2 == h {
                assert(!referrers(s, b, h).contains(p));
                assert(referrers(f, b2, h2) =~= referrers(s, b2, h2).insert(p));
            } else if b2 == b && h2 == old {
                assert(referrers(f, b2, h2) =~= referrers(s, b2, h2).remove(p));
            } else {
                assert(referrers(f, b2, h2) =~= referrers(s, b2, h2));
            }
        }
        assert forall|b2: Seq<char>, p2: Seq<char>| #[trigger] f.ref_file.contains_key(
            (b2, p2),
        ) implies f.ref_file[(b2, p2)].len() > 0 by {
            if (b2, p2) != (b, p) {
                assert(s.ref_file.contains_key((b2, p2)));
            }
        }
    }
}

/// A store request driven to its end against a faithful backend leaves the
/// reference counts consistent when they were before.
pub proof fn lemma_put_run_keeps_refcounts(
    s: StoreModel,
    b: Seq<char>,
    p: Seq<char>,
    h: Seq<char>,
    t: i64,
)
    requires
        refcounts_consistent(s),
        h.len() > 0,
    ensures
        refcounts_consistent(run(start(b, p, h, t), s, put_fuel()).0),
{
    lemma_put_file_run(s, b, p, h, t);
    lemma_put_keeps_refcounts(s, b, p, h, t);
}

/// Once a path holds a write with time `t1`, a write with a time no newer
/// than `t1` changes nothing and is reported stale with the prevailing time.
pub proof fn lemma_stale_write_changes_nothing(
    s: StoreModel,
    b: Seq<char>,
    p: Seq<char>,
    h1: Seq<char>,
    t1: i64,
    h2: Seq<char>,
    t2: i64,
)
    requires
        t2 <= t1,
        !(put_effect(s, b, p, h1, t1).1 is Failed),
    ensures
        put_effect(s, b, p, h1, t1).0.modified_of(b, p) >= t1,
        put_effect(put_effect(s, b, p, h1, t1).0, b, p, h2, t2) == (
            put_effect(s, b, p, h1, t1).0,
            PutOutcome::Stale(put_effect(s, b, p, h1, t1).0.modified_of(b, p)),
        ),
{
}

/// A newer write of different content moves the path to the new hash and
/// time, adds one reference to the new hash and takes one from the old
/// hash (never going below zero).
pub proof fn lemma_newer_write_replaces(
    s: StoreModel,
    b: Seq<char>,
    p: Seq<char>,
    h1: Seq<char>,
    t1: i64,
    h2: Seq<char>,
    t2: i64,
)
    requires
        put_effect(s, b, p, h1, t1).1 == PutOutcome::Accepted(t1),
        t1 < t2,
        h1 != h2,
        h1.len() > 0,
        put_effect(s, b, p, h1, t1).0.ref_count_of(b, h2) < i32::MAX,
    ensures
        put_effect(put_effect(s, b, p, h1, t1).0, b, p, h2, t2).1 == PutOutcome::Accepted(t2),
        put_effect(put_effect(s, b, p, h1, t1).0, b, p, h2, t2).0.modified_of(b, p) == t2,
        put_effect(put_effect(s, b, p, h1, t1).0, b, p, h2, t2).0.ref_file_of(b, p) == h2,
        put_effect(put_effect(s, b, p, h1, t1).0, b, p, h2, t2).0.ref_count_of(b, h2)
            == put_effect(s, b, p, h1, t1).0.ref_count_of(b, h2) + 1,
        put_effect(put_effect(s, b, p, h1, t1).0, b, p, h2, t2).0.ref_count_of(b, h1) == (if put_effect(
            s,
            b,
            p,
            h1,
            t1,
        ).0.ref_count_of(b, h1) > 0 {
            put_effect(s, b, p, h1, t1).0.ref_count_of(b, h1) - 1
        } else {
            put_effect(s, b, p, h1, t1).0.ref_count_of(b, h1) as int
        }),
{
}

/// Two paths stored with the same, so far unreferenced, content both record
/// its hash, and the hash has two references.
pub proof fn lemma_same_content_is_shared(
    s: StoreModel,
    b: Seq<char>,
    p1: Seq<char>,
    p2: Seq<char>,
    h: Seq<char>,
    t1: i64,
    t2: i64,
)
    requires
        p1 != p2,
        s.ref_count_of(b, h) == 0,
        forall|q: Seq<char>| #[trigger] s.ref_file_of(b, q) != h,
        s.modified_of(b, p1) < t1,
        s.modified_of(b, p2) < t2,
    ensures
        put_effect(s, b, p1, h, t1).1 == PutOutcome::Accepted(t1),
        put_effect(put_effect(s, b, p1, h, t1).0, b, p2, h, t2).1 == PutOutcome::Accepted(t2),
        put_effect(put_effect(s, b, p1, h, t1).0, b, p2, h, t2).0.ref_file_of(b, p1) == h,
        put_effect(put_effect(s, b, p1, h, t1).0, b, p2, h, t2).0.ref_file_of(b, p2) == h,
        put_effect(put_effect(s, b, p1, h, t1).0, b, p2, h, t2).0.ref_count_of(b, h) == 2,
{
    assert(s.ref_file_of(b, p1) != h);
    assert(s.ref_file_of(b, p2) != h);
    let s1 = put_effect(s, b, p1, h, t1).0;
    assert(s1.ref_count_of(b, h) == 1);
    assert(s1.ref_file_of(b, p2) == s.ref_file_of(b, p2));
    assert(s1.modified_of(b, p2) == s.modified_of(b, p2));
}

/// The store after the writes `writes` (hash, claimed time) to path `p` of
/// bucket `b` are applied one after another, in the order the path lock
/// admitted them.
pub open spec fn put_all(s: StoreModel, b: Seq<char>, p: Seq<char>, writes: Seq<(Seq<char>, i64)>) -> StoreModel
    decreases writes.len(),
{
    if writes.len() == 0 {
        s
    } else {
        put_effect(
            put_all(s, b, p, writes.drop_last()),
            b,
            p,
            writes.last().0,
            writes.last().1,
        ).0
    }
}

proof fn lemma_put_all_count_bound(
    s: StoreModel,
    b: Seq<char>,
    p: Seq<char>,
    writes: Seq<(Seq<char>, i64)>,
    h: Seq<char>,
)
    ensures
        put_all(s, b, p, writes).ref_count_of(b, h) <= s.ref_count_of(b, h) + writes.len(),
    decreases writes.len(),
{
    if writes.len() > 0 {
        lemma_put_all_count_bound(s, b, p, writes.drop_last(), h);
    }
}

/// Concurrent writes to one path, each newer than what is stored and with
/// distinct times, serialised by the path lock in any order: none fails,
/// the newest write wins (its time and hash are what the path records), and
/// reference counts stay consistent.
pub proof fn lemma_serialized_writes_newest_wins(
    s: StoreModel,
    b: Seq<char>,
    p: Seq<char>,
    writes: Seq<(Seq<char>, i64)>,
)
    requires
        writes.len() > 0,
        forall|i: int, j: int|
            0 <= i < j < writes.len() ==> #[trigger] writes[i].1 != #[trigger] writes[j].1,
        forall|i: int| 0 <= i < writes.len() ==> #[trigger] writes[i].1 > s.modified_of(b, p),
        forall|h: Seq<char>| #[trigger] s.ref_count_of(b, h) + writes.len() < i32::MAX,
    ensures
        forall|i: int|
            0 <= i < writes.len() ==> !(#[trigger] put_effect(
                put_all(s, b, p, writes.take(i)),
                b,
                p,
                writes[i].0,
                writes[i].1,
            ).1 is Failed),
        exists|k: int|
            0 <= k < writes.len() && (forall|i: int|
                0 <= i < writes.len() ==> #[trigger] writes[i].1 <= writes[k].1) && put_all(
                s,
                b,
                p,
                writes,
            ).modified_of(b, p) == writes[k].1 && put_all(s, b, p, writes).ref_file_of(b, p)
                == writes[k].0,
        refcounts_consistent(s) && (forall|i: int|
            0 <= i < writes.len() ==> (#[trigger] writes[i].0).len() > 0) ==> refcounts_consistent(
            put_all(s, b, p, writes),
        ),
    decreases writes.len(),
{
    let n = writes.len();
    let pre = writes.drop_last();
    let w = writes.last();
    let f0 = put_all(s, b, p, pre);
    assert(writes.take(n - 1) =~= pre);
    lemma_put_all_count_bound(s, b, p, pre, w.0);
    assert(s.ref_count_of(b, w.0) + n < i32::MAX);
    if n == 1 {
        assert(pre.len() == 0);
        assert(writes.take(0) =~= pre);
        assert forall|i: int| 0 <= i < writes.len() implies #[trigger] writes[i].1 <= writes[0].1 by {
        }
    } else {
        assert forall|i: int, j: int| 0 <= i < j < pre.len() implies #[trigger] pre[i].1
            != #[trigger] pre[j].1 by {
            assert(pre[i] == writes[i] && pre[j] == writes[j]);
        }
        assert forall|i: int| 0 <= i < pre.len() implies #[trigger] pre[i].1 > s.modified_of(b, p) by {
            assert(pre[i] == writes[i]);
        }
        lemma_serialized_writes_newest_wins(s, b, p, pre);
        let k0 = choose|k: int|
            0 <= k < pre.len() && (forall|i: int| 0 <= i < pre.len() ==> #[trigger] pre[i].1 <= pre[k].1)
                && f0.modified_of(b, p) == pre[k].1 && f0.ref_file_of(b, p) == pre[k].0;
        assert(pre[k0] == writes[k0]);
        assert(writes[k0].1 != writes[n - 1].1);
        if w.1 < pre[k0].1 {
            assert forall|i: int| 0 <= i < writes.len() implies #[trigger] writes[i].1 <= writes[k0].1 by {
                if i < n - 1 {
                    assert(pre[i] == writes[i]);
                }
            }
        } else {
            assert forall|i: int| 0 <= i < writes.len() implies #[trigger] writes[i].1 <= writes[n
                - 1].1 by {
                if i < n - 1 {
                    assert(pre[i] == writes[i]);
                }
            }
        }
        assert forall|i: int| 0 <= i < writes.len() implies !(#[trigger] put_effect(
            put_all(s, b, p, writes.take(i)),
            b,
            p,
            writes[i].0,
            writes[i].1,
        ).1 is Failed) by {
            if i < n - 1 {
                assert(writes.take(i) =~= pre.take(i));
                assert(pre[i] == writes[i]);
            }
        }
        if refcounts_consistent(s) && (forall|i: int|
            0 <= i < writes.len() ==> (#[trigger] writes[i].0).len() > 0) {
            assert forall|i: int| 0 <= i < pre.len() implies (#[trigger] pre[i].0).len() > 0 by {
                assert(pre[i] == writes[i]);
            }
        }
    }
    if refcounts_consistent(s) && (forall|i: int|
        0 <= i < writes.len() ==> (#[trigger] writes[i].0).len() > 0) {
        assert(writes[n - 1].0.len() > 0);
        lemma_put_keeps_refcounts(f0, b, p, w.0, w.1);
    }
}

/// Writes to path `p` leave the hash entries of every other path as they were.
proof fn lemma_put_all_keeps_other_paths(
    s: StoreModel,
    b: Seq<char>,
    p: Seq<char>,
    writes: Seq<(Seq<char>, i64)>,
    b2: Seq<char>,
    p2: Seq<char>,
)
    requires
        (b2, p2) != (b, p),
    ensures
        put_all(s, b, p, writes).ref_file.contains_key((b2, p2)) == s.ref_file.contains_key((b2, p2)),
        s.ref_file.contains_key((b2, p2)) ==> put_all(s, b, p, writes).ref_file[(b2, p2)]
            == s.ref_file[(b2, p2)],
    decreases writes.len(),
{
    if writes.len() > 0 {
        lemma_put_all_keeps_other_paths(s, b, p, writes.drop_last(), b2, p2);
    }
}

/// After concurrent writes to one path (as in
/// `lemma_serialized_writes_newest_wins`), the net change of every
/// reference count is one reference for the hash the path ends on and one
/// reference less for the hash it started on.
pub proof fn lemma_serialized_writes_net_counts(
    s: StoreModel,
    b: Seq<char>,
    p: Seq<char>,
    writes: Seq<(Seq<char>, i64)>,
    h: Seq<char>,
)
    requires
        writes.len() > 0,
        forall|i: int, j: int|
            0 <= i < j < writes.len() ==> #[trigger] writes[i].1 != #[trigger] writes[j].1,
        forall|i: int| 0 <= i < writes.len() ==> #[trigger] writes[i].1 > s.modified_of(b, p),
        forall|k: Seq<char>| #[trigger] s.ref_count_of(b, k) + writes.len() < i32::MAX,
        forall|i: int| 0 <= i < writes.len() ==> (#[trigger] writes[i].0).len() > 0,
        refcounts_consistent(s),
        h.len() > 0,
    ensures
        put_all(s, b, p, writes).ref_count_of(b, h) == s.ref_count_of(b, h) + (if put_all(
            s,
            b,
            p,
            writes,
        ).ref_file_of(b, p) == h {
            1int
        } else {
            0int
        }) - (if s.ref_file_of(b, p) == h {
            1int
        } else {
            0int
        }),
{
    let f = put_all(s, b, p, writes);
    lemma_serialized_writes_newest_wins(s, b, p, writes);
    assert(count_matches(s, b, h));
    assert(count_matches(f, b, h));
    let rest = referrers(s, b, h).remove(p);
    assert forall|q: Seq<char>| q != p implies (#[trigger] referrers(f, b, h).contains(q)
        == referrers(s, b, h).contains(q)) by {
        lemma_put_all_keeps_other_paths(s, b, p, writes, b, q);
    }
    if f.ref_file_of(b, p) == h {
        assert(referrers(f, b, h) =~= rest.insert(p));
    } else {
        assert(referrers(f, b, h) =~= rest);
    }
    if s.ref_file_of(b, p) == h {
        assert(referrers(s, b, h).contains(p));
    } else {
        assert(rest =~= referrers(s, b, h));
    }
}

} // verus!
