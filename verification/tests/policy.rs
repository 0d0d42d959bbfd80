//! The flush policy probed case by case: byte accounting, each error class,
//! error priority, partial failure, idempotent retries, and captured old
//! values.

use mvcc_flush::errors::TxnError;
use mvcc_flush::flush::{Flush, ResponsePolicy, WriteResult};
use mvcc_flush::snapshot::Snapshot;
use mvcc_flush::txn::ConcurrencyManager;
use mvcc_flush::types::{
    Assertion, AssertionLevel, CommitRecord, ExtraOp, LockKind, LockRecord, Mutation, OldValue,
    RequestContext, WriteKind,
};

fn ctx() -> RequestContext {
    RequestContext { is_retry_request: false, txn_source: 0 }
}

fn put_lock(key: &[u8], start_ts: u64, value: &[u8]) -> LockRecord {
    LockRecord {
        key: key.to_vec(),
        start_ts,
        primary: key.to_vec(),
        ttl: 3000,
        kind: LockKind::Put { value: value.to_vec() },
    }
}

fn committed_put(key: &[u8], start_ts: u64, commit_ts: u64, value: &[u8]) -> CommitRecord {
    CommitRecord {
        key: key.to_vec(),
        start_ts,
        commit_ts,
        kind: WriteKind::Put { value: value.to_vec() },
    }
}

fn run_flush(
    snapshot: &Snapshot,
    start_ts: u64,
    mutations: Vec<Mutation>,
    level: AssertionLevel,
    extra_op: ExtraOp,
) -> Result<WriteResult, TxnError> {
    let cmd = Flush::new(start_ts, b"pk".to_vec(), mutations, 3000, level, ctx());
    let mut cm = ConcurrencyManager::new(start_ts);
    cmd.process_write(snapshot, &mut cm, extra_op)
}

fn empty_snapshot() -> Snapshot {
    Snapshot { locks: Vec::new(), writes: Vec::new() }
}

#[test]
fn test_write_bytes_formula() {
    let cmd = Flush::new(
        1,
        b"pk".to_vec(),
        vec![
            Mutation::make_put(b"key".to_vec(), b"value".to_vec()),
            Mutation::make_insert(b"ik".to_vec(), b"iv".to_vec()),
            Mutation::make_delete(b"dk".to_vec()),
            Mutation::make_lock(b"lk".to_vec()),
            Mutation::make_check_not_exists(b"ck".to_vec()),
        ],
        3000,
        AssertionLevel::Off,
        ctx(),
    );
    // (3 + 5) + (2 + 2) + 2 + 2 + 0
    assert_eq!(cmd.write_bytes(), 16);
}

#[test]
fn test_write_bytes_empty_batch() {
    let cmd = Flush::new(1, b"pk".to_vec(), vec![], 3000, AssertionLevel::Off, ctx());
    assert_eq!(cmd.write_bytes(), 0);
}

#[test]
fn test_declared_keys() {
    let cmd = Flush::new(
        1,
        b"pk".to_vec(),
        vec![
            Mutation::make_put(b"b".to_vec(), b"1".to_vec()),
            Mutation::make_delete(b"a".to_vec()),
        ],
        3000,
        AssertionLevel::Off,
        ctx(),
    );
    let keys = cmd.declared_keys();
    assert_eq!(keys.len(), 2);
    assert_eq!(keys[0].as_slice(), b"b");
    assert_eq!(keys[1].as_slice(), b"a");
    assert_eq!(cmd.tag(), "flush");
    assert_eq!(cmd.ts(), 1);
}

#[test]
fn test_successful_flush_stages_locks() {
    let snapshot = empty_snapshot();
    let res = run_flush(
        &snapshot,
        7,
        vec![
            Mutation::make_put(b"a".to_vec(), b"1".to_vec()),
            Mutation::make_delete(b"b".to_vec()),
        ],
        AssertionLevel::Strict,
        ExtraOp::Noop,
    );
    let wr = match res {
        Ok(wr) => wr,
        Err(_) => panic!("clean batch must succeed"),
    };
    assert_eq!(wr.rows, 2);
    assert!(wr.per_key_results.is_empty());
    assert!(matches!(wr.response_policy, ResponsePolicy::OnApplied));
    assert_eq!(wr.to_be_write.modifies.len(), 2);
    let l0 = &wr.to_be_write.modifies[0];
    assert_eq!(l0.key.as_slice(), b"a");
    assert_eq!(l0.start_ts, 7);
    assert_eq!(l0.primary.as_slice(), b"pk");
    assert_eq!(l0.ttl, 3000);
    assert!(matches!(&l0.kind, LockKind::Put { value } if value.as_slice() == b"1"));
    assert!(matches!(wr.to_be_write.modifies[1].kind, LockKind::Delete));
}

#[test]
fn test_key_is_locked_error_detail() {
    let snapshot = Snapshot {
        locks: vec![put_lock(b"key", 1, b"value")],
        writes: Vec::new(),
    };
    let res = run_flush(
        &snapshot,
        2,
        vec![Mutation::make_put(b"key".to_vec(), b"value".to_vec())],
        AssertionLevel::Strict,
        ExtraOp::Noop,
    );
    let wr = match res {
        Ok(wr) => wr,
        Err(_) => panic!("a locked key is a per-key error, not a fatal one"),
    };
    assert_eq!(wr.per_key_results.len(), 1);
    match &wr.per_key_results[0] {
        Err(TxnError::KeyIsLocked { key, lock_ts }) => {
            assert_eq!(key.as_slice(), b"key");
            assert_eq!(*lock_ts, 1);
        }
        _ => panic!("expected a KeyIsLocked entry"),
    }
    assert!(wr.to_be_write.modifies.is_empty());
}

#[test]
fn test_write_conflict_fatal() {
    let snapshot = Snapshot {
        locks: Vec::new(),
        writes: vec![committed_put(b"key", 5, 6, b"other")],
    };
    let res = run_flush(
        &snapshot,
        1,
        vec![Mutation::make_put(b"key".to_vec(), b"value".to_vec())],
        AssertionLevel::Strict,
        ExtraOp::Noop,
    );
    match res {
        Err(TxnError::WriteConflict {
            start_ts,
            conflict_start_ts,
            conflict_commit_ts,
            key,
            ..
        }) => {
            assert_eq!(start_ts, 1);
            assert_eq!(conflict_start_ts, 5);
            assert_eq!(conflict_commit_ts, 6);
            assert_eq!(key.as_slice(), b"key");
        }
        _ => panic!("expected a fatal write conflict"),
    }
}

#[test]
fn test_already_exist_fatal() {
    let snapshot = Snapshot {
        locks: Vec::new(),
        writes: vec![committed_put(b"key", 5, 6, b"other")],
    };
    let res = run_flush(
        &snapshot,
        9,
        vec![Mutation::make_insert(b"key".to_vec(), b"value".to_vec())],
        AssertionLevel::Strict,
        ExtraOp::Noop,
    );
    match res {
        Err(TxnError::AlreadyExist { key }) => assert_eq!(key.as_slice(), b"key"),
        _ => panic!("insert-if-absent on a present key must abort"),
    }
}

#[test]
fn test_check_not_exists() {
    let snapshot = Snapshot {
        locks: Vec::new(),
        writes: vec![committed_put(b"present", 5, 6, b"x")],
    };
    let ok = run_flush(
        &snapshot,
        9,
        vec![Mutation::make_check_not_exists(b"absent".to_vec())],
        AssertionLevel::Strict,
        ExtraOp::Noop,
    );
    let wr = match ok {
        Ok(wr) => wr,
        Err(_) => panic!("an absent key passes the existence check"),
    };
    // An existence check stages no lock.
    assert!(wr.to_be_write.modifies.is_empty());
    assert!(wr.per_key_results.is_empty());

    let bad = run_flush(
        &snapshot,
        9,
        vec![Mutation::make_check_not_exists(b"present".to_vec())],
        AssertionLevel::Strict,
        ExtraOp::Noop,
    );
    assert!(matches!(bad, Err(TxnError::AlreadyExist { .. })));
}

#[test]
fn test_assertion_failed_deferred() {
    let snapshot = empty_snapshot();
    // The key does not exist, so asserting existence fails; the batch still
    // processes the second key before the failure surfaces.
    let res = run_flush(
        &snapshot,
        3,
        vec![
            Mutation::Put {
                key: b"a".to_vec(),
                value: b"1".to_vec(),
                assertion: Assertion::Exist,
            },
            Mutation::make_put(b"b".to_vec(), b"2".to_vec()),
        ],
        AssertionLevel::Strict,
        ExtraOp::Noop,
    );
    match res {
        Err(TxnError::AssertionFailed { start_ts, key, assertion }) => {
            assert_eq!(start_ts, 3);
            assert_eq!(key.as_slice(), b"a");
            assert!(matches!(assertion, Assertion::Exist));
        }
        _ => panic!("expected the deferred assertion failure"),
    }
}

#[test]
fn test_first_assertion_failure_reported() {
    // Two keys fail their assertions and nothing else goes wrong: the first
    // failure in batch order is the command's result, the later one is
    // discarded.
    let snapshot = empty_snapshot();
    let res = run_flush(
        &snapshot,
        3,
        vec![
            Mutation::Put {
                key: b"first".to_vec(),
                value: b"1".to_vec(),
                assertion: Assertion::Exist,
            },
            Mutation::Put {
                key: b"second".to_vec(),
                value: b"2".to_vec(),
                assertion: Assertion::Exist,
            },
        ],
        AssertionLevel::Strict,
        ExtraOp::Noop,
    );
    match res {
        Err(TxnError::AssertionFailed { key, .. }) => assert_eq!(key.as_slice(), b"first"),
        _ => panic!("expected the first assertion failure"),
    }
}

#[test]
fn test_assertion_level_off_skips_checks() {
    let snapshot = empty_snapshot();
    let res = run_flush(
        &snapshot,
        3,
        vec![Mutation::Put {
            key: b"a".to_vec(),
            value: b"1".to_vec(),
            assertion: Assertion::Exist,
        }],
        AssertionLevel::Off,
        ExtraOp::Noop,
    );
    assert!(res.is_ok());
}

#[test]
fn test_conflict_wins_over_assertion() {
    // One key raises a genuine write conflict, another an assertion failure:
    // the command reports the conflict, in either batch order.
    let snapshot = Snapshot {
        locks: Vec::new(),
        writes: vec![committed_put(b"conflict", 5, 6, b"x")],
    };
    let bad_assert = Mutation::Put {
        key: b"a".to_vec(),
        value: b"1".to_vec(),
        assertion: Assertion::Exist,
    };
    let conflicting = Mutation::make_put(b"conflict".to_vec(), b"y".to_vec());
    let res1 = run_flush(
        &snapshot,
        1,
        vec![
            Mutation::Put {
                key: b"a".to_vec(),
                value: b"1".to_vec(),
                assertion: Assertion::Exist,
            },
            Mutation::make_put(b"conflict".to_vec(), b"y".to_vec()),
        ],
        AssertionLevel::Strict,
        ExtraOp::Noop,
    );
    assert!(matches!(res1, Err(TxnError::WriteConflict { .. })));
    let res2 = run_flush(
        &snapshot,
        1,
        vec![conflicting, bad_assert],
        AssertionLevel::Strict,
        ExtraOp::Noop,
    );
    assert!(matches!(res2, Err(TxnError::WriteConflict { .. })));
}

#[test]
fn test_lock_entry_wins_over_assertion() {
    // One key is foreign-locked (no retry record), another fails its
    // assertion: the per-key list with the lock-contention evidence is the
    // outcome; the assertion failure is demoted entirely. Either batch order.
    let snapshot = Snapshot {
        locks: vec![put_lock(b"locked", 8, b"x")],
        writes: Vec::new(),
    };
    let bad_assert = || Mutation::Put {
        key: b"a".to_vec(),
        value: b"1".to_vec(),
        assertion: Assertion::Exist,
    };
    let on_locked = || Mutation::make_put(b"locked".to_vec(), b"y".to_vec());
    for batch in [vec![bad_assert(), on_locked()], vec![on_locked(), bad_assert()]] {
        let res = run_flush(&snapshot, 2, batch, AssertionLevel::Strict, ExtraOp::Noop);
        let wr = match res {
            Ok(wr) => wr,
            Err(_) => panic!("collected lock evidence must decide the outcome"),
        };
        assert_eq!(wr.per_key_results.len(), 1);
        assert!(matches!(
            &wr.per_key_results[0],
            Err(TxnError::KeyIsLocked { key, lock_ts: 8 }) if key.as_slice() == b"locked"
        ));
    }
}

#[test]
fn test_confirmed_retry_wins_over_assertion() {
    // The locked key's commit record confirms an idempotent retry: the
    // command answers the previously established result, not the assertion
    // failure seen earlier in the batch.
    let snapshot = Snapshot {
        locks: vec![put_lock(b"locked", 8, b"x")],
        writes: vec![committed_put(b"locked", 1, 5, b"x")],
    };
    let res = run_flush(
        &snapshot,
        1,
        vec![
            Mutation::Put {
                key: b"a".to_vec(),
                value: b"1".to_vec(),
                assertion: Assertion::Exist,
            },
            Mutation::make_put(b"locked".to_vec(), b"x".to_vec()),
        ],
        AssertionLevel::Strict,
        ExtraOp::Noop,
    );
    let wr = match res {
        Ok(wr) => wr,
        Err(_) => panic!("a confirmed retry must not surface an error"),
    };
    assert_eq!(wr.per_key_results.len(), 1);
    assert!(matches!(wr.per_key_results[0], Ok(())));
    assert!(wr.to_be_write.modifies.is_empty());
}

#[test]
fn test_partial_failure_continues_batch() {
    // Three keys, one foreign-locked: two locks staged, one error entry, and
    // the command itself succeeds.
    let snapshot = Snapshot {
        locks: vec![put_lock(b"locked", 1, b"x")],
        writes: Vec::new(),
    };
    let res = run_flush(
        &snapshot,
        2,
        vec![
            Mutation::make_put(b"a".to_vec(), b"1".to_vec()),
            Mutation::make_put(b"locked".to_vec(), b"2".to_vec()),
            Mutation::make_put(b"c".to_vec(), b"3".to_vec()),
        ],
        AssertionLevel::Strict,
        ExtraOp::Noop,
    );
    let wr = match res {
        Ok(wr) => wr,
        Err(_) => panic!("one locked key must not sink the batch"),
    };
    assert_eq!(wr.per_key_results.len(), 1);
    assert!(matches!(
        &wr.per_key_results[0],
        Err(TxnError::KeyIsLocked { key, lock_ts: 1 }) if key.as_slice() == b"locked"
    ));
    assert_eq!(wr.to_be_write.modifies.len(), 2);
    assert_eq!(wr.to_be_write.modifies[0].key.as_slice(), b"a");
    assert_eq!(wr.to_be_write.modifies[1].key.as_slice(), b"c");
}

#[test]
fn test_idempotent_reissue_same_results() {
    // Issue, apply the staged locks, issue again: the same (empty) per-key
    // result list, and no lock is created a second time.
    let mutations = || vec![
        Mutation::make_put(b"a".to_vec(), b"1".to_vec()),
        Mutation::make_put(b"b".to_vec(), b"2".to_vec()),
    ];
    let first = match run_flush(
        &empty_snapshot(),
        4,
        mutations(),
        AssertionLevel::Strict,
        ExtraOp::Noop,
    ) {
        Ok(wr) => wr,
        Err(_) => panic!("first issue must succeed"),
    };
    assert!(first.per_key_results.is_empty());
    assert_eq!(first.to_be_write.modifies.len(), 2);
    let snapshot2 = Snapshot { locks: first.to_be_write.modifies, writes: Vec::new() };
    let second = match run_flush(
        &snapshot2,
        4,
        mutations(),
        AssertionLevel::Strict,
        ExtraOp::Noop,
    ) {
        Ok(wr) => wr,
        Err(_) => panic!("re-issue must succeed"),
    };
    assert!(second.per_key_results.is_empty());
    assert!(second.to_be_write.modifies.is_empty());
}

#[test]
fn test_duplicate_key_staged_once() {
    let res = run_flush(
        &empty_snapshot(),
        4,
        vec![
            Mutation::make_put(b"a".to_vec(), b"1".to_vec()),
            Mutation::make_put(b"a".to_vec(), b"1".to_vec()),
        ],
        AssertionLevel::Strict,
        ExtraOp::Noop,
    );
    let wr = match res {
        Ok(wr) => wr,
        Err(_) => panic!("a duplicated key is an idempotent duplicate"),
    };
    assert!(wr.per_key_results.is_empty());
    assert_eq!(wr.to_be_write.modifies.len(), 1);
}

#[test]
fn test_rollback_record_is_no_retry() {
    // A rollback record of this very transaction does not confirm a retry:
    // the conflict stays fatal.
    let snapshot = Snapshot {
        locks: Vec::new(),
        writes: vec![
            CommitRecord {
                key: b"key".to_vec(),
                start_ts: 1,
                commit_ts: 1,
                kind: WriteKind::Rollback,
            },
            committed_put(b"key", 5, 6, b"x"),
        ],
    };
    let res = run_flush(
        &snapshot,
        1,
        vec![Mutation::make_put(b"key".to_vec(), b"v".to_vec())],
        AssertionLevel::Strict,
        ExtraOp::Noop,
    );
    assert!(matches!(res, Err(TxnError::WriteConflict { .. })));
}

#[test]
fn test_old_values_captured_on_request() {
    let snapshot = Snapshot {
        locks: Vec::new(),
        writes: vec![committed_put(b"a", 5, 6, b"before")],
    };
    let muts = || vec![
        Mutation::make_put(b"a".to_vec(), b"after".to_vec()),
        Mutation::make_put(b"fresh".to_vec(), b"1".to_vec()),
    ];
    let wr = match run_flush(&snapshot, 9, muts(), AssertionLevel::Off, ExtraOp::ReadOldValue) {
        Ok(wr) => wr,
        Err(_) => panic!("flush must succeed"),
    };
    let entries = &wr.to_be_write.extra.old_values.entries;
    assert_eq!(entries.len(), 2);
    assert_eq!(entries[0].key.as_slice(), b"a");
    assert_eq!(entries[0].start_ts, 9);
    assert!(matches!(&entries[0].old_value, OldValue::Value { value } if value.as_slice() == b"before"));
    assert!(matches!(entries[1].old_value, OldValue::NotExist));
    // Without the request, nothing is captured.
    let wr2 = match run_flush(&snapshot, 9, muts(), AssertionLevel::Off, ExtraOp::Noop) {
        Ok(wr) => wr,
        Err(_) => panic!("flush must succeed"),
    };
    assert!(wr2.to_be_write.extra.old_values.entries.is_empty());
}

#[test]
fn test_lock_mutation_stages_lock_kind() {
    let res = run_flush(
        &empty_snapshot(),
        2,
        vec![Mutation::make_lock(b"k".to_vec())],
        AssertionLevel::Strict,
        ExtraOp::Noop,
    );
    let wr = match res {
        Ok(wr) => wr,
        Err(_) => panic!("lock-only mutation must succeed"),
    };
    assert_eq!(wr.to_be_write.modifies.len(), 1);
    assert!(matches!(wr.to_be_write.modifies[0].kind, LockKind::Lock));
}

#[test]
fn test_conflict_boundary_at_start_ts() {
    // A version committed exactly at the transaction's start timestamp is
    // visible to it and raises no conflict; one tick later does.
    let snapshot = Snapshot {
        locks: Vec::new(),
        writes: vec![committed_put(b"k", 3, 5, b"x")],
    };
    let at_boundary = run_flush(
        &snapshot,
        5,
        vec![Mutation::make_put(b"k".to_vec(), b"y".to_vec())],
        AssertionLevel::Strict,
        ExtraOp::Noop,
    );
    assert!(at_boundary.is_ok());
    let behind = run_flush(
        &snapshot,
        4,
        vec![Mutation::make_put(b"k".to_vec(), b"y".to_vec())],
        AssertionLevel::Strict,
        ExtraOp::Noop,
    );
    assert!(matches!(behind, Err(TxnError::WriteConflict { .. })));
}

#[test]
fn test_concurrency_manager_high_water() {
    let mut cm = ConcurrencyManager::new(5);
    let cmd = Flush::new(
        9,
        b"pk".to_vec(),
        vec![Mutation::make_put(b"a".to_vec(), b"1".to_vec())],
        3000,
        AssertionLevel::Off,
        ctx(),
    );
    let snapshot = empty_snapshot();
    assert!(cmd.process_write(&snapshot, &mut cm, ExtraOp::Noop).is_ok());
    assert_eq!(cm.max_ts, 9);
    cm.update_max_ts(3);
    assert_eq!(cm.max_ts, 9);
}
