//! Laws of the flush policy, proved over the model: idempotent retries,
//! error priority, and partial-failure semantics.

use vstd::prelude::*;

use crate::errors::ErrModel;
use crate::model::{
    FlushOutcome, PropsModel, PrewriteStep, SnapModel, assertion_violated, find_lock, flush_model,
    flush_step, has_committed_record, key_exists_in, latest_write, opt_lock_seq, prewrite_model,
    snap_wf, staged_contains, staged_lock_of,
};
use crate::types::{LockModel, MutationModel, kind_should_not_exist};

verus! {

/// The store after the staged locks of a completed flush have been applied
/// and nothing else has changed.
pub open spec fn apply_staged(snap: SnapModel, staged: Seq<LockModel>) -> SnapModel {
    SnapModel { locks: snap.locks + staged, writes: snap.writes }
}

/// Locks this flush may have staged: owned by this transaction, optimistic,
/// on keys that held no lock in the snapshot.
pub open spec fn staged_inv(snap: SnapModel, props: PropsModel, staged: Seq<LockModel>) -> bool {
    forall|i: int|
        0 <= i < staged.len() ==> {
            &&& (#[trigger] staged[i]).start_ts == props.start_ts
            &&& !(staged[i].kind is Pessimistic)
            &&& find_lock(snap.locks, staged[i].key) is None
        }
}

/// No two staged locks share a key.
pub open spec fn keys_distinct(staged: Seq<LockModel>) -> bool {
    forall|i: int, j: int|
        0 <= i < j < staged.len() ==> (#[trigger] staged[i]).key != (#[trigger] staged[j]).key
}

/// Looking a key up in appended lock sequences: the appended part wins when
/// it holds the key, the front part answers otherwise.
proof fn lemma_find_lock_append(a: Seq<LockModel>, b: Seq<LockModel>, key: Seq<u8>)
    ensures
        find_lock(a + b, key) == match find_lock(b, key) {
            Some(l) => Some(l),
            None => find_lock(a, key),
        },
    decreases b.len(),
{
    if b.len() == 0 {
        assert(a + b =~= a);
    } else {
        assert((a + b).drop_last() =~= a + b.drop_last());
        assert((a + b).last() == b.last());
        lemma_find_lock_append(a, b.drop_last(), key);
    }
}

/// A key is found among a lock sequence exactly when some element bears it,
/// and what is found is one of the elements.
proof fn lemma_find_lock_contained(locks: Seq<LockModel>, key: Seq<u8>)
    ensures
        match find_lock(locks, key) {
            Some(l) => l.key == key && exists|i: int|
                0 <= i < locks.len() && #[trigger] locks[i] == l,
            None => !staged_contains(locks, key),
        },
    decreases locks.len(),
{
    if locks.len() == 0 {
    } else if locks.last().key == key {
        assert(locks[locks.len() - 1] == locks.last());
    } else {
        lemma_find_lock_contained(locks.drop_last(), key);
        match find_lock(locks.drop_last(), key) {
            Some(l) => {
                let i = choose|i: int|
                    0 <= i < locks.drop_last().len() && #[trigger] locks.drop_last()[i] == l;
                assert(locks[i] == l);
            },
            None => {
                assert forall|i: int| 0 <= i < locks.len() implies (#[trigger] locks[i]).key
                    != key by {
                    if i < locks.len() - 1 {
                        assert(locks.drop_last()[i] == locks[i]);
                        assert(!staged_contains(locks.drop_last(), key));
                    }
                }
            },
        }
    }
}

/// A completed flush keeps every lock that was already staged when it took
/// over.
proof fn lemma_flush_keeps_staged(
    snap: SnapModel,
    props: PropsModel,
    ms: Seq<MutationModel>,
    i: int,
    staged: Seq<LockModel>,
    results: Seq<Result<(), ErrModel>>,
    deferred: Option<ErrModel>,
    old_values: Seq<crate::types::OldValueEntryModel>,
)
    ensures
        match flush_step(snap, props, ms, i, staged, results, deferred, old_values) {
            FlushOutcome::Completed { staged: sf, .. } => forall|k: Seq<u8>|
                staged_contains(staged, k) ==> staged_contains(sf, k),
            _ => true,
        },
    decreases ms.len() - i,
{
    if i < 0 || i >= ms.len() {
    } else {
        let m = ms[i];
        match prewrite_model(snap, props, staged, m) {
            PrewriteStep::Staged { lock, old_value } => {
                let staged2 = staged + opt_lock_seq(lock);
                lemma_flush_keeps_staged(
                    snap,
                    props,
                    ms,
                    i + 1,
                    staged2,
                    results,
                    deferred,
                    old_values + crate::model::opt_old_entries(m, props, old_value),
                );
                assert forall|k: Seq<u8>| staged_contains(staged, k) implies staged_contains(
                    staged2,
                    k,
                ) by {
                    let w = choose|w: int| 0 <= w < staged.len() && (#[trigger] staged[w]).key == k;
                    assert(staged2[w] == staged[w]);
                }
            },
            PrewriteStep::Failed { err } => match err {
                ErrModel::KeyIsLocked { .. } => {
                    if !has_committed_record(snap.writes, m.key, props.start_ts) {
                        lemma_flush_keeps_staged(
                            snap,
                            props,
                            ms,
                            i + 1,
                            staged,
                            results.push(Result::Err(err)),
                            deferred,
                            old_values,
                        );
                    }
                },
                ErrModel::AssertionFailed { .. } => {
                    lemma_flush_keeps_staged(
                        snap,
                        props,
                        ms,
                        i + 1,
                        staged,
                        results,
                        if deferred is None {
                            Some(err)
                        } else {
                            deferred
                        },
                        old_values,
                    );
                },
                _ => {},
            },
        }
    }
}

/// A completed flush preserves the staged-lock invariant: every lock it adds
/// is this transaction's own optimistic lock on a key the snapshot showed
/// unlocked.
proof fn lemma_flush_staged_inv(
    snap: SnapModel,
    props: PropsModel,
    ms: Seq<MutationModel>,
    i: int,
    staged: Seq<LockModel>,
    results: Seq<Result<(), ErrModel>>,
    deferred: Option<ErrModel>,
    old_values: Seq<crate::types::OldValueEntryModel>,
)
    requires
        staged_inv(snap, props, staged),
    ensures
        match flush_step(snap, props, ms, i, staged, results, deferred, old_values) {
            FlushOutcome::Completed { staged: sf, .. } => staged_inv(snap, props, sf),
            _ => true,
        },
    decreases ms.len() - i,
{
    if i < 0 || i >= ms.len() {
    } else {
        let m = ms[i];
        match prewrite_model(snap, props, staged, m) {
            PrewriteStep::Staged { lock, old_value } => {
                let staged2 = staged + opt_lock_seq(lock);
                assert(staged_inv(snap, props, staged2)) by {
                    assert forall|w: int| 0 <= w < staged2.len() implies {
                        &&& (#[trigger] staged2[w]).start_ts == props.start_ts
                        &&& !(staged2[w].kind is Pessimistic)
                        &&& find_lock(snap.locks, staged2[w].key) is None
                    } by {
                        if w < staged.len() {
                            assert(staged2[w] == staged[w]);
                        } else {
                            assert(staged2[w] == opt_lock_seq(lock)[w - staged.len()]);
                        }
                    }
                }
                lemma_flush_staged_inv(
                    snap,
                    props,
                    ms,
                    i + 1,
                    staged2,
                    results,
                    deferred,
                    old_values + crate::model::opt_old_entries(m, props, old_value),
                );
            },
            PrewriteStep::Failed { err } => match err {
                ErrModel::KeyIsLocked { .. } => {
                    if !has_committed_record(snap.writes, m.key, props.start_ts) {
                        lemma_flush_staged_inv(
                            snap,
                            props,
                            ms,
                            i + 1,
                            staged,
                            results.push(Result::Err(err)),
                            deferred,
                            old_values,
                        );
                    }
                },
                ErrModel::AssertionFailed { .. } => {
                    lemma_flush_staged_inv(
                        snap,
                        props,
                        ms,
                        i + 1,
                        staged,
                        results,
                        if deferred is None {
                            Some(err)
                        } else {
                            deferred
                        },
                        old_values,
                    );
                },
                _ => {},
            },
        }
    }
}

/// A lock record for a key is created at most once per flush invocation: a
/// completed flush whose incoming staged set has distinct keys hands back a
/// staged set with distinct keys.
pub proof fn lemma_staged_keys_distinct(
    snap: SnapModel,
    props: PropsModel,
    ms: Seq<MutationModel>,
    i: int,
    staged: Seq<LockModel>,
    results: Seq<Result<(), ErrModel>>,
    deferred: Option<ErrModel>,
    old_values: Seq<crate::types::OldValueEntryModel>,
)
    requires
        keys_distinct(staged),
    ensures
        match flush_step(snap, props, ms, i, staged, results, deferred, old_values) {
            FlushOutcome::Completed { staged: sf, .. } => keys_distinct(sf),
            _ => true,
        },
    decreases ms.len() - i,
{
    if i < 0 || i >= ms.len() {
    } else {
        let m = ms[i];
        match prewrite_model(snap, props, staged, m) {
            PrewriteStep::Staged { lock, old_value } => {
                let staged2 = staged + opt_lock_seq(lock);
                assert(keys_distinct(staged2)) by {
                    assert forall|v: int, w: int| 0 <= v < w < staged2.len() implies (
                    #[trigger] staged2[v]).key != (#[trigger] staged2[w]).key by {
                        if w < staged.len() {
                            assert(staged2[v] == staged[v] && staged2[w] == staged[w]);
                        } else {
                            assert(lock is Some && staged2[w] == opt_lock_seq(lock)[0]);
                            assert(staged2[v] == staged[v]);
                            assert(!staged_contains(staged, m.key));
                            assert(staged2[w].key == m.key);
                            assert(staged[v].key != m.key);
                        }
                    }
                }
                lemma_staged_keys_distinct(
                    snap,
                    props,
                    ms,
                    i + 1,
                    staged2,
                    results,
                    deferred,
                    old_values + crate::model::opt_old_entries(m, props, old_value),
                );
            },
            PrewriteStep::Failed { err } => match err {
                ErrModel::KeyIsLocked { .. } => {
                    if !has_committed_record(snap.writes, m.key, props.start_ts) {
                        lemma_staged_keys_distinct(
                            snap,
                            props,
                            ms,
                            i + 1,
                            staged,
                            results.push(Result::Err(err)),
                            deferred,
                            old_values,
                        );
                    }
                },
                ErrModel::AssertionFailed { .. } => {
                    lemma_staged_keys_distinct(
                        snap,
                        props,
                        ms,
                        i + 1,
                        staged,
                        results,
                        if deferred is None {
                            Some(err)
                        } else {
                            deferred
                        },
                        old_values,
                    );
                },
                _ => {},
            },
        }
    }
}

/// The inductive heart of idempotence: a second run of the same batch,
/// against the store with the first run's staged locks applied, walks the
/// same per-key decisions while staging nothing new. The second run may see
/// fewer assertion failures than the first (keys whose applied lock now
/// takes the duplicate path skip the checks), never more, so whenever the
/// first run completed the second completes with the same list.
proof fn lemma_idem_from(
    snap: SnapModel,
    props: PropsModel,
    ms: Seq<MutationModel>,
    i: int,
    staged1: Seq<LockModel>,
    results: Seq<Result<(), ErrModel>>,
    deferred1: Option<ErrModel>,
    deferred2: Option<ErrModel>,
    old1: Seq<crate::types::OldValueEntryModel>,
    old2: Seq<crate::types::OldValueEntryModel>,
    sf: Seq<LockModel>,
    rf: Seq<Result<(), ErrModel>>,
    of: Seq<crate::types::OldValueEntryModel>,
)
    requires
        flush_step(snap, props, ms, i, staged1, results, deferred1, old1) == (
        FlushOutcome::Completed { results: rf, staged: sf, old_values: of }),
        staged_inv(snap, props, sf),
        forall|k: Seq<u8>| staged_contains(staged1, k) ==> staged_contains(sf, k),
        deferred2 is Some ==> deferred1 is Some,
    ensures
        match flush_step(
            apply_staged(snap, sf),
            props,
            ms,
            i,
            Seq::empty(),
            results,
            deferred2,
            old2,
        ) {
            FlushOutcome::Completed { results: rf2, staged: sf2, .. } => rf2 == rf && sf2 == Seq::<
                LockModel,
            >::empty(),
            _ => false,
        },
    decreases ms.len() - i,
{
    let snap2 = apply_staged(snap, sf);
    if i < 0 || i >= ms.len() {
    } else {
        let m = ms[i];
        lemma_find_lock_append(snap.locks, sf, m.key);
        lemma_find_lock_contained(sf, m.key);
        assert(!staged_contains(Seq::<LockModel>::empty(), m.key));
        match prewrite_model(snap, props, staged1, m) {
            PrewriteStep::Staged { lock, old_value } => {
                let staged1b = staged1 + opt_lock_seq(lock);
                let old1b = old1 + crate::model::opt_old_entries(m, props, old_value);
                lemma_flush_keeps_staged(
                    snap,
                    props,
                    ms,
                    i + 1,
                    staged1b,
                    results,
                    deferred1,
                    old1b,
                );
                assert(forall|k: Seq<u8>|
                    staged_contains(staged1b, k) ==> staged_contains(sf, k));
                // In every subcase the second run accepts the mutation, so
                // its step is `Staged`; what differs is whether it takes the
                // duplicate path or repeats the checks.
                let step2 = prewrite_model(snap2, props, Seq::empty(), m);
                match find_lock(snap.locks, m.key) {
                    Some(l) => {
                        // This transaction's own lock was already in the
                        // store; no staged lock may bear a key the store had
                        // locked, so the second run sees the same lock.
                        match find_lock(sf, m.key) {
                            Some(l2) => {
                                let w = choose|w: int|
                                    0 <= w < sf.len() && #[trigger] sf[w] == l2;
                                assert(find_lock(snap.locks, sf[w].key) is None);
                                assert(false);
                            },
                            None => {},
                        }
                        assert(find_lock(snap2.locks, m.key) == Some(l));
                        assert(step2 == (PrewriteStep::Staged {
                            lock: Option::<LockModel>::None,
                            old_value: None,
                        }));
                        assert(staged1b =~= staged1);
                        lemma_idem_from(
                            snap, props, ms, i + 1, staged1, results, deferred1, deferred2,
                            old1b, old2, sf, rf, of,
                        );
                        assert(Seq::<LockModel>::empty() + opt_lock_seq(
                            Option::<LockModel>::None,
                        ) =~= Seq::<LockModel>::empty());
                        assert(old2 + crate::model::opt_old_entries(
                            m,
                            props,
                            Option::<crate::types::OldValueModel>::None,
                        ) =~= old2);
                    },
                    None => {
                        if staged_contains(staged1, m.key) || find_lock(sf, m.key) is Some {
                            // The first run staged this key, now or elsewhere
                            // in the batch: the second run finds the applied
                            // lock and takes the duplicate path.
                            if staged_contains(staged1, m.key) {
                                assert(staged_contains(sf, m.key));
                                match find_lock(sf, m.key) {
                                    Some(_) => {},
                                    None => {
                                        assert(!staged_contains(sf, m.key));
                                        assert(false);
                                    },
                                }
                            }
                            let l2 = match find_lock(sf, m.key) {
                                Some(l2) => l2,
                                None => arbitrary(),
                            };
                            let w = choose|w: int| 0 <= w < sf.len() && #[trigger] sf[w] == l2;
                            assert(sf[w].start_ts == props.start_ts && !(sf[w].kind
                                is Pessimistic));
                            assert(find_lock(snap2.locks, m.key) == Some(l2));
                            assert(step2 == (PrewriteStep::Staged {
                                lock: Option::<LockModel>::None,
                                old_value: None,
                            }));
                            lemma_idem_from(
                                snap, props, ms, i + 1, staged1b, results, deferred1, deferred2,
                                old1b, old2, sf, rf, of,
                            );
                            assert(Seq::<LockModel>::empty() + opt_lock_seq(
                                Option::<LockModel>::None,
                            ) =~= Seq::<LockModel>::empty());
                            assert(old2 + crate::model::opt_old_entries(
                                m,
                                props,
                                Option::<crate::types::OldValueModel>::None,
                            ) =~= old2);
                        } else {
                            // The first run staged nothing for this key, so
                            // the mutation stages no lock, and the second run
                            // repeats the same checks over the unchanged
                            // committed versions.
                            if lock is Some {
                                assert(staged_contains(staged1b, m.key)) by {
                                    assert(staged1b[staged1.len() as int].key == m.key);
                                }
                                assert(staged_contains(sf, m.key));
                                assert(false);
                            }
                            assert(find_lock(snap2.locks, m.key) is None);
                            assert(snap2.writes == snap.writes);
                            assert(step2 == (PrewriteStep::Staged { lock, old_value }));
                            assert(staged1b =~= staged1);
                            let old2b = old2 + crate::model::opt_old_entries(
                                m,
                                props,
                                old_value,
                            );
                            lemma_idem_from(
                                snap, props, ms, i + 1, staged1, results, deferred1, deferred2,
                                old1b, old2b, sf, rf, of,
                            );
                            assert(Seq::<LockModel>::empty() + opt_lock_seq(lock) =~= Seq::<
                                LockModel,
                            >::empty());
                        }
                    },
                }
            },
            PrewriteStep::Failed { err } => match err {
                ErrModel::KeyIsLocked { .. } => {
                    // The first run completed, so this lock was no retry of
                    // an own commit; the second run sees the same foreign
                    // lock and collects the same per-key error.
                    assert(!has_committed_record(snap.writes, m.key, props.start_ts));
                    match find_lock(sf, m.key) {
                        Some(l2) => {
                            let w = choose|w: int| 0 <= w < sf.len() && #[trigger] sf[w] == l2;
                            assert(find_lock(snap.locks, sf[w].key) is None);
                            assert(false);
                        },
                        None => {},
                    }
                    assert(find_lock(snap2.locks, m.key) == find_lock(snap.locks, m.key));
                    assert(prewrite_model(snap2, props, Seq::empty(), m) == (PrewriteStep::Failed {
                        err,
                    }));
                    lemma_idem_from(
                        snap,
                        props,
                        ms,
                        i + 1,
                        staged1,
                        results.push(Result::Err(err)),
                        deferred1,
                        deferred2,
                        old1,
                        old2,
                        sf,
                        rf,
                        of,
                    );
                },
                ErrModel::AssertionFailed { .. } => {
                    // The first run deferred this failure yet still
                    // completed, so its per-key list ends non-empty. The
                    // second run either finds the key's applied lock (a later
                    // mutation staged it) and skips the checks, or repeats
                    // them and defers the same failure.
                    let deferred1b = if deferred1 is None {
                        Some(err)
                    } else {
                        deferred1
                    };
                    match find_lock(sf, m.key) {
                        Some(l2) => {
                            let w = choose|w: int| 0 <= w < sf.len() && #[trigger] sf[w] == l2;
                            assert(sf[w].start_ts == props.start_ts && !(sf[w].kind
                                is Pessimistic));
                            assert(find_lock(snap2.locks, m.key) == Some(l2));
                            assert(prewrite_model(snap2, props, Seq::empty(), m)
                                == (PrewriteStep::Staged {
                                lock: Option::<LockModel>::None,
                                old_value: None,
                            }));
                            lemma_idem_from(
                                snap, props, ms, i + 1, staged1, results, deferred1b, deferred2,
                                old1, old2, sf, rf, of,
                            );
                            assert(Seq::<LockModel>::empty() + opt_lock_seq(
                                Option::<LockModel>::None,
                            ) =~= Seq::<LockModel>::empty());
                            assert(old2 + crate::model::opt_old_entries(
                                m,
                                props,
                                Option::<crate::types::OldValueModel>::None,
                            ) =~= old2);
                        },
                        None => {
                            assert(find_lock(snap2.locks, m.key) == find_lock(snap.locks, m.key));
                            assert(snap2.writes == snap.writes);
                            assert(prewrite_model(snap2, props, Seq::empty(), m)
                                == (PrewriteStep::Failed { err }));
                            let deferred2b = if deferred2 is None {
                                Some(err)
                            } else {
                                deferred2
                            };
                            lemma_idem_from(
                                snap, props, ms, i + 1, staged1, results, deferred1b, deferred2b,
                                old1, old2, sf, rf, of,
                            );
                        },
                    }
                },
                _ => {
                    assert(false);
                },
            },
        }
    }
}

/// Idempotence: issuing the same request twice, where the first attempt
/// completed and its staged locks were then applied with no other change to
/// the store, yields the same per-key result list both times and creates no
/// lock a second time; and within one invocation no key's lock is created
/// twice.
pub proof fn lemma_flush_idempotent(snap: SnapModel, props: PropsModel, ms: Seq<MutationModel>)
    requires
        flush_model(snap, props, ms) matches FlushOutcome::Completed { .. },
    ensures
        match flush_model(snap, props, ms) {
            FlushOutcome::Completed { results, staged, .. } => {
                &&& keys_distinct(staged)
                &&& match flush_model(apply_staged(snap, staged), props, ms) {
                    FlushOutcome::Completed { results: r2, staged: s2, .. } => r2 == results
                        && s2 == Seq::<LockModel>::empty(),
                    _ => false,
                }
            },
            _ => true,
        },
{
    match flush_model(snap, props, ms) {
        FlushOutcome::Completed { results: rf, staged: sf, old_values: of } => {
            lemma_staged_keys_distinct(
                snap,
                props,
                ms,
                0,
                Seq::empty(),
                Seq::empty(),
                None,
                Seq::empty(),
            );
            lemma_flush_staged_inv(
                snap,
                props,
                ms,
                0,
                Seq::empty(),
                Seq::empty(),
                None,
                Seq::empty(),
            );
            lemma_idem_from(
                snap,
                props,
                ms,
                0,
                Seq::empty(),
                Seq::empty(),
                None,
                None,
                Seq::empty(),
                Seq::empty(),
                sf,
                rf,
                of,
            );
        },
        _ => {},
    }
}

/// Applying a completed flush's staged locks to a well-formed store keeps it
/// well-formed: the new locks bear distinct keys, none of which was locked.
pub proof fn lemma_apply_staged_wf(snap: SnapModel, props: PropsModel, ms: Seq<MutationModel>)
    requires
        snap_wf(snap),
        flush_model(snap, props, ms) matches FlushOutcome::Completed { .. },
    ensures
        match flush_model(snap, props, ms) {
            FlushOutcome::Completed { staged, .. } => snap_wf(apply_staged(snap, staged)),
            _ => true,
        },
{
    match flush_model(snap, props, ms) {
        FlushOutcome::Completed { staged: sf, .. } => {
            lemma_staged_keys_distinct(
                snap,
                props,
                ms,
                0,
                Seq::empty(),
                Seq::empty(),
                None,
                Seq::empty(),
            );
            lemma_flush_staged_inv(
                snap,
                props,
                ms,
                0,
                Seq::empty(),
                Seq::empty(),
                None,
                Seq::empty(),
            );
            let snap2 = apply_staged(snap, sf);
            assert(snap2.writes == snap.writes);
            assert forall|i: int, j: int| 0 <= i < j < snap2.locks.len() implies (
            #[trigger] snap2.locks[i]).key != (#[trigger] snap2.locks[j]).key by {
                let n = snap.locks.len() as int;
                if j < n {
                    assert(snap2.locks[i] == snap.locks[i] && snap2.locks[j] == snap.locks[j]);
                } else if i >= n {
                    assert(snap2.locks[i] == sf[i - n] && snap2.locks[j] == sf[j - n]);
                    assert(keys_distinct(sf));
                } else {
                    assert(snap2.locks[j] == sf[j - n]);
                    assert(find_lock(snap.locks, sf[j - n].key) is None);
                    lemma_find_lock_contained(snap.locks, sf[j - n].key);
                    assert(snap2.locks[i] == snap.locks[i]);
                    if snap.locks[i].key == sf[j - n].key {
                        assert(staged_contains(snap.locks, sf[j - n].key));
                        assert(false);
                    }
                }
            }
        },
        _ => {},
    }
}

/// Errors a deferred failure may hold: only the first assertion failure is
/// ever remembered.
pub open spec fn deferred_ok(deferred: Option<ErrModel>) -> bool {
    match deferred {
        Some(d) => d is AssertionFailed,
        None => true,
    }
}

proof fn lemma_impossible_step(
    snap: SnapModel,
    props: PropsModel,
    ms: Seq<MutationModel>,
    i: int,
    staged: Seq<LockModel>,
    results: Seq<Result<(), ErrModel>>,
    deferred: Option<ErrModel>,
    old_values: Seq<crate::types::OldValueEntryModel>,
)
    requires
        deferred_ok(deferred),
    ensures
        match flush_step(snap, props, ms, i, staged, results, deferred, old_values) {
            FlushOutcome::Aborted { err } => !(err is PessimisticLockNotFound) && !(err
                is CommitTsTooLarge),
            _ => true,
        },
    decreases ms.len() - i,
{
    if i < 0 || i >= ms.len() {
    } else {
        let m = ms[i];
        match prewrite_model(snap, props, staged, m) {
            PrewriteStep::Staged { lock, old_value } => {
                lemma_impossible_step(
                    snap,
                    props,
                    ms,
                    i + 1,
                    staged + opt_lock_seq(lock),
                    results,
                    deferred,
                    old_values + crate::model::opt_old_entries(m, props, old_value),
                );
            },
            PrewriteStep::Failed { err } => match err {
                ErrModel::KeyIsLocked { .. } => {
                    if !has_committed_record(snap.writes, m.key, props.start_ts) {
                        lemma_impossible_step(
                            snap,
                            props,
                            ms,
                            i + 1,
                            staged,
                            results.push(Result::Err(err)),
                            deferred,
                            old_values,
                        );
                    }
                },
                ErrModel::AssertionFailed { .. } => {
                    lemma_impossible_step(
                        snap,
                        props,
                        ms,
                        i + 1,
                        staged,
                        results,
                        if deferred is None {
                            Some(err)
                        } else {
                            deferred
                        },
                        old_values,
                    );
                },
                _ => {},
            },
        }
    }
}

/// The structurally impossible failure classes stay impossible: a flush of
/// this optimistic, non-deferred-commit command never surfaces a
/// pessimistic-lock-not-found or commit-timestamp-too-large error, whatever
/// the store holds.
pub proof fn lemma_impossible_errors_never_surface(
    snap: SnapModel,
    props: PropsModel,
    ms: Seq<MutationModel>,
)
    ensures
        match flush_model(snap, props, ms) {
            FlushOutcome::Aborted { err } => !(err is PessimisticLockNotFound) && !(err
                is CommitTsTooLarge),
            _ => true,
        },
{
    lemma_impossible_step(snap, props, ms, 0, Seq::empty(), Seq::empty(), None, Seq::empty());
}

/// A key that raises a write conflict: it holds no lock, yet a version newer
/// than the transaction's start is committed.
pub open spec fn key_conflicts(snap: SnapModel, props: PropsModel, key: Seq<u8>) -> bool {
    &&& find_lock(snap.locks, key) is None
    &&& match latest_write(snap.writes, key) {
        Some(w) => w.commit_ts > props.start_ts,
        None => false,
    }
}

/// A key locked by another transaction (or pessimistically) while this
/// transaction's commit on it is already recorded: the lock resolves as a
/// confirmed idempotent retry.
pub open spec fn foreign_locked_confirmed_retry(
    snap: SnapModel,
    props: PropsModel,
    key: Seq<u8>,
) -> bool {
    &&& key_foreign_locked(snap, props, key)
    &&& has_committed_record(snap.writes, key, props.start_ts)
}

/// A key a flush may stage a lock on: unlocked, with no version newer than
/// the transaction's start.
pub open spec fn stageable_key(snap: SnapModel, props: PropsModel, key: Seq<u8>) -> bool {
    &&& find_lock(snap.locks, key) is None
    &&& match latest_write(snap.writes, key) {
        Some(w) => w.commit_ts <= props.start_ts,
        None => true,
    }
}

proof fn lemma_conflict_step(
    snap: SnapModel,
    props: PropsModel,
    ms: Seq<MutationModel>,
    i: int,
    staged: Seq<LockModel>,
    results: Seq<Result<(), ErrModel>>,
    deferred: Option<ErrModel>,
    old_values: Seq<crate::types::OldValueEntryModel>,
    j: int,
)
    requires
        0 <= i <= j < ms.len(),
        key_conflicts(snap, props, ms[j].key) || foreign_locked_confirmed_retry(
            snap,
            props,
            ms[j].key,
        ),
        forall|w: int|
            0 <= w < staged.len() ==> stageable_key(snap, props, (#[trigger] staged[w]).key),
    ensures
        match flush_step(snap, props, ms, i, staged, results, deferred, old_values) {
            FlushOutcome::Completed { .. } => false,
            FlushOutcome::ShortCircuited { .. } => true,
            FlushOutcome::Aborted { err } => !(err is AssertionFailed),
        },
    decreases ms.len() - i,
{
    let m = ms[i];
    if i == j {
        if staged_contains(staged, m.key) {
            let w = choose|w: int| 0 <= w < staged.len() && (#[trigger] staged[w]).key == m.key;
            assert(stageable_key(snap, props, staged[w].key));
            assert(false);
        }
    } else {
        match prewrite_model(snap, props, staged, m) {
            PrewriteStep::Staged { lock, old_value } => {
                let staged2 = staged + opt_lock_seq(lock);
                assert forall|w: int| 0 <= w < staged2.len() implies stageable_key(
                    snap,
                    props,
                    (#[trigger] staged2[w]).key,
                ) by {
                    if w < staged.len() {
                        assert(staged2[w] == staged[w]);
                    } else {
                        assert(lock is Some && staged2[w] == opt_lock_seq(lock)[0]);
                        assert(staged2[w].key == m.key);
                    }
                }
                lemma_conflict_step(
                    snap,
                    props,
                    ms,
                    i + 1,
                    staged2,
                    results,
                    deferred,
                    old_values + crate::model::opt_old_entries(m, props, old_value),
                    j,
                );
            },
            PrewriteStep::Failed { err } => match err {
                ErrModel::KeyIsLocked { .. } => {
                    if !has_committed_record(snap.writes, m.key, props.start_ts) {
                        lemma_conflict_step(
                            snap,
                            props,
                            ms,
                            i + 1,
                            staged,
                            results.push(Result::Err(err)),
                            deferred,
                            old_values,
                            j,
                        );
                    }
                },
                ErrModel::AssertionFailed { .. } => {
                    lemma_conflict_step(
                        snap,
                        props,
                        ms,
                        i + 1,
                        staged,
                        results,
                        if deferred is None {
                            Some(err)
                        } else {
                            deferred
                        },
                        old_values,
                        j,
                    );
                },
                _ => {},
            },
        }
    }
}

/// Error-priority: a batch holding a key that raises a genuine write
/// conflict, or a locked key that resolves as a confirmed idempotent retry,
/// never has its outcome masked by a deferred assertion failure. The command
/// then takes the conflict path itself — an idempotent-retry short-circuit
/// or a fatal error that is not an assertion failure — and never completes
/// the batch normally.
pub proof fn lemma_conflict_never_masked(
    snap: SnapModel,
    props: PropsModel,
    ms: Seq<MutationModel>,
    j: int,
)
    requires
        0 <= j < ms.len(),
        key_conflicts(snap, props, ms[j].key) || foreign_locked_confirmed_retry(
            snap,
            props,
            ms[j].key,
        ),
    ensures
        match flush_model(snap, props, ms) {
            FlushOutcome::Completed { .. } => false,
            FlushOutcome::ShortCircuited { .. } => true,
            FlushOutcome::Aborted { err } => !(err is AssertionFailed),
        },
{
    lemma_conflict_step(
        snap,
        props,
        ms,
        0,
        Seq::empty(),
        Seq::empty(),
        None,
        Seq::empty(),
        j,
    );
}

/// A key locked by another transaction, or held pessimistically, whatever
/// the committed record situation.
pub open spec fn key_foreign_locked(snap: SnapModel, props: PropsModel, key: Seq<u8>) -> bool {
    match find_lock(snap.locks, key) {
        Some(l) => l.start_ts != props.start_ts || l.kind is Pessimistic,
        None => false,
    }
}

/// Once the per-key list holds an entry, the flush can no longer end as an
/// assertion failure: the list only grows, and a non-empty list demotes the
/// deferred failure at the end of the loop.
proof fn lemma_nonempty_results(
    snap: SnapModel,
    props: PropsModel,
    ms: Seq<MutationModel>,
    i: int,
    staged: Seq<LockModel>,
    results: Seq<Result<(), ErrModel>>,
    deferred: Option<ErrModel>,
    old_values: Seq<crate::types::OldValueEntryModel>,
)
    requires
        results.len() > 0,
    ensures
        match flush_step(snap, props, ms, i, staged, results, deferred, old_values) {
            FlushOutcome::Completed { results: rf, .. } => rf.len() > 0,
            FlushOutcome::ShortCircuited { .. } => true,
            FlushOutcome::Aborted { err } => !(err is AssertionFailed),
        },
    decreases ms.len() - i,
{
    if i < 0 || i >= ms.len() {
    } else {
        let m = ms[i];
        match prewrite_model(snap, props, staged, m) {
            PrewriteStep::Staged { lock, old_value } => {
                lemma_nonempty_results(
                    snap,
                    props,
                    ms,
                    i + 1,
                    staged + opt_lock_seq(lock),
                    results,
                    deferred,
                    old_values + crate::model::opt_old_entries(m, props, old_value),
                );
            },
            PrewriteStep::Failed { err } => match err {
                ErrModel::KeyIsLocked { .. } => {
                    if !has_committed_record(snap.writes, m.key, props.start_ts) {
                        lemma_nonempty_results(
                            snap,
                            props,
                            ms,
                            i + 1,
                            staged,
                            results.push(Result::Err(err)),
                            deferred,
                            old_values,
                        );
                    }
                },
                ErrModel::AssertionFailed { .. } => {
                    lemma_nonempty_results(
                        snap,
                        props,
                        ms,
                        i + 1,
                        staged,
                        results,
                        if deferred is None {
                            Some(err)
                        } else {
                            deferred
                        },
                        old_values,
                    );
                },
                _ => {},
            },
        }
    }
}

proof fn lemma_locked_step(
    snap: SnapModel,
    props: PropsModel,
    ms: Seq<MutationModel>,
    i: int,
    staged: Seq<LockModel>,
    results: Seq<Result<(), ErrModel>>,
    deferred: Option<ErrModel>,
    old_values: Seq<crate::types::OldValueEntryModel>,
    j: int,
)
    requires
        0 <= i <= j < ms.len(),
        key_foreign_locked(snap, props, ms[j].key),
        forall|w: int|
            0 <= w < staged.len() ==> stageable_key(snap, props, (#[trigger] staged[w]).key),
    ensures
        match flush_step(snap, props, ms, i, staged, results, deferred, old_values) {
            FlushOutcome::Completed { results: rf, .. } => rf.len() > 0,
            FlushOutcome::ShortCircuited { .. } => true,
            FlushOutcome::Aborted { err } => !(err is AssertionFailed),
        },
    decreases ms.len() - i,
{
    let m = ms[i];
    if i == j {
        if staged_contains(staged, m.key) {
            let w = choose|w: int| 0 <= w < staged.len() && (#[trigger] staged[w]).key == m.key;
            assert(stageable_key(snap, props, staged[w].key));
            assert(false);
        }
        match prewrite_model(snap, props, staged, m) {
            PrewriteStep::Failed { err } => {
                assert(err is KeyIsLocked);
                if !has_committed_record(snap.writes, m.key, props.start_ts) {
                    lemma_nonempty_results(
                        snap,
                        props,
                        ms,
                        i + 1,
                        staged,
                        results.push(Result::Err(err)),
                        deferred,
                        old_values,
                    );
                }
            },
            PrewriteStep::Staged { .. } => {
                assert(false);
            },
        }
    } else {
        match prewrite_model(snap, props, staged, m) {
            PrewriteStep::Staged { lock, old_value } => {
                let staged2 = staged + opt_lock_seq(lock);
                assert forall|w: int| 0 <= w < staged2.len() implies stageable_key(
                    snap,
                    props,
                    (#[trigger] staged2[w]).key,
                ) by {
                    if w < staged.len() {
                        assert(staged2[w] == staged[w]);
                    } else {
                        assert(lock is Some && staged2[w] == opt_lock_seq(lock)[0]);
                        assert(staged2[w].key == m.key);
                    }
                }
                lemma_locked_step(
                    snap,
                    props,
                    ms,
                    i + 1,
                    staged2,
                    results,
                    deferred,
                    old_values + crate::model::opt_old_entries(m, props, old_value),
                    j,
                );
            },
            PrewriteStep::Failed { err } => match err {
                ErrModel::KeyIsLocked { .. } => {
                    if !has_committed_record(snap.writes, m.key, props.start_ts) {
                        lemma_locked_step(
                            snap,
                            props,
                            ms,
                            i + 1,
                            staged,
                            results.push(Result::Err(err)),
                            deferred,
                            old_values,
                            j,
                        );
                    }
                },
                ErrModel::AssertionFailed { .. } => {
                    lemma_locked_step(
                        snap,
                        props,
                        ms,
                        i + 1,
                        staged,
                        results,
                        if deferred is None {
                            Some(err)
                        } else {
                            deferred
                        },
                        old_values,
                        j,
                    );
                },
                _ => {},
            },
        }
    }
}

/// Error-priority, the locked-key half: a foreign-locked key anywhere in the
/// batch is never masked by a deferred assertion failure either. The command
/// short-circuits on a confirmed retry, aborts on some error that is not an
/// assertion failure, or completes with a non-empty per-key list — never
/// with the assertion failure alone.
pub proof fn lemma_locked_key_never_masked(
    snap: SnapModel,
    props: PropsModel,
    ms: Seq<MutationModel>,
    j: int,
)
    requires
        0 <= j < ms.len(),
        key_foreign_locked(snap, props, ms[j].key),
    ensures
        match flush_model(snap, props, ms) {
            FlushOutcome::Completed { results, .. } => results.len() > 0,
            FlushOutcome::ShortCircuited { .. } => true,
            FlushOutcome::Aborted { err } => !(err is AssertionFailed),
        },
{
    lemma_locked_step(
        snap,
        props,
        ms,
        0,
        Seq::empty(),
        Seq::empty(),
        None,
        Seq::empty(),
        j,
    );
}

/// A mutation the prewrite accepts cleanly, staging its lock: no lock held,
/// no newer committed version, no data-constraint violation, no assertion
/// violation, and not an existence check (which stages nothing).
pub open spec fn clean_mutation(snap: SnapModel, props: PropsModel, m: MutationModel) -> bool {
    &&& find_lock(snap.locks, m.key) is None
    &&& match latest_write(snap.writes, m.key) {
        Some(w) => w.commit_ts <= props.start_ts,
        None => true,
    }
    &&& !(kind_should_not_exist(m.kind) && key_exists_in(snap.writes, m.key)
        && !props.skip_constraint_check)
    &&& !assertion_violated(m, props.assertion_level, key_exists_in(snap.writes, m.key))
    &&& !(m.kind is CheckNotExists)
}

/// The timestamp of the lock held on `key`; zero when none is held.
pub open spec fn snap_lock_ts(snap: SnapModel, key: Seq<u8>) -> u64 {
    match find_lock(snap.locks, key) {
        Some(l) => l.start_ts,
        None => 0,
    }
}

/// A key locked by a foreign transaction (or held pessimistically), with no
/// committed record of this transaction on it.
pub open spec fn foreign_locked(snap: SnapModel, props: PropsModel, key: Seq<u8>) -> bool {
    &&& key_foreign_locked(snap, props, key)
    &&& !has_committed_record(snap.writes, key, props.start_ts)
}

proof fn lemma_partial_step(
    snap: SnapModel,
    props: PropsModel,
    ms: Seq<MutationModel>,
    i: int,
    staged: Seq<LockModel>,
    results: Seq<Result<(), ErrModel>>,
    old_values: Seq<crate::types::OldValueEntryModel>,
    j: int,
)
    requires
        0 <= i <= ms.len(),
        0 <= j < ms.len(),
        foreign_locked(snap, props, ms[j].key),
        forall|w: int|
            0 <= w < ms.len() && w != j ==> clean_mutation(snap, props, #[trigger] ms[w]),
        forall|v: int, w: int|
            0 <= v < w < ms.len() ==> (#[trigger] ms[v]).key != (#[trigger] ms[w]).key,
        forall|w: int| i <= w < ms.len() ==> !staged_contains(staged, (#[trigger] ms[w]).key),
    ensures
        match flush_step(snap, props, ms, i, staged, results, None, old_values) {
            FlushOutcome::Completed { results: rfin, staged: sfin, .. } => {
                if i <= j {
                    &&& rfin == results.push(
                        Result::Err(
                            ErrModel::KeyIsLocked {
                                key: ms[j].key,
                                lock_ts: snap_lock_ts(snap, ms[j].key),
                            },
                        ),
                    )
                    &&& sfin.len() == staged.len() + (ms.len() - i - 1)
                } else {
                    &&& rfin == results
                    &&& sfin.len() == staged.len() + (ms.len() - i)
                }
            },
            _ => false,
        },
    decreases ms.len() - i,
{
    if i >= ms.len() {
    } else {
        let m = ms[i];
        if i == j {
            lemma_partial_step(
                snap,
                props,
                ms,
                i + 1,
                staged,
                results.push(
                    Result::Err(
                        ErrModel::KeyIsLocked {
                            key: m.key,
                            lock_ts: snap_lock_ts(snap, m.key),
                        },
                    ),
                ),
                old_values,
                j,
            );
        } else {
            assert(clean_mutation(snap, props, m));
            assert(!staged_contains(staged, m.key));
            match prewrite_model(snap, props, staged, m) {
                PrewriteStep::Staged { lock, old_value } => {
                    assert(lock == staged_lock_of(m, props));
                    assert(lock is Some);
                    let staged2 = staged + opt_lock_seq(lock);
                    assert forall|w: int| i + 1 <= w < ms.len() implies !staged_contains(
                        staged2,
                        (#[trigger] ms[w]).key,
                    ) by {
                        if staged_contains(staged2, ms[w].key) {
                            let v = choose|v: int|
                                0 <= v < staged2.len() && (#[trigger] staged2[v]).key
                                    == ms[w].key;
                            if v < staged.len() {
                                assert(staged2[v] == staged[v]);
                                assert(staged_contains(staged, ms[w].key));
                                assert(false);
                            } else {
                                assert(staged2[v].key == m.key);
                                assert(ms[i].key != ms[w].key);
                                assert(false);
                            }
                        }
                    }
                    lemma_partial_step(
                        snap,
                        props,
                        ms,
                        i + 1,
                        staged2,
                        results,
                        old_values + crate::model::opt_old_entries(m, props, old_value),
                        j,
                    );
                },
                PrewriteStep::Failed { .. } => {
                    assert(false);
                },
            }
        }
    }
}

/// Partial failure: in a batch of distinct keys where exactly one key is
/// locked by a foreign transaction (and is no retry of an own commit) and
/// every other mutation is clean, the command completes — it does not abort —
/// with one lock staged per clean mutation and exactly one per-key error
/// entry, a `KeyIsLocked` for the locked key.
pub proof fn lemma_partial_failure(
    snap: SnapModel,
    props: PropsModel,
    ms: Seq<MutationModel>,
    j: int,
)
    requires
        0 <= j < ms.len(),
        foreign_locked(snap, props, ms[j].key),
        forall|w: int|
            0 <= w < ms.len() && w != j ==> clean_mutation(snap, props, #[trigger] ms[w]),
        forall|v: int, w: int|
            0 <= v < w < ms.len() ==> (#[trigger] ms[v]).key != (#[trigger] ms[w]).key,
    ensures
        match flush_model(snap, props, ms) {
            FlushOutcome::Completed { results, staged, .. } => {
                &&& results =~= seq![
                    Result::<(), ErrModel>::Err(
                        ErrModel::KeyIsLocked {
                            key: ms[j].key,
                            lock_ts: snap_lock_ts(snap, ms[j].key),
                        },
                    ),
                ]
                &&& staged.len() == ms.len() - 1
            },
            _ => false,
        },
{
    lemma_partial_step(snap, props, ms, 0, Seq::empty(), Seq::empty(), Seq::empty(), j);
    assert(Seq::<Result<(), ErrModel>>::empty().push(
        Result::Err(
            ErrModel::KeyIsLocked { key: ms[j].key, lock_ts: snap_lock_ts(snap, ms[j].key) },
        ),
    ) =~= seq![
        Result::<(), ErrModel>::Err(
            ErrModel::KeyIsLocked { key: ms[j].key, lock_ts: snap_lock_ts(snap, ms[j].key) },
        ),
    ]);
}

} // verus!
