//! The flush command exercised against an in-memory store: staging, commit
//! visibility, and conflicts with other writers.

use mvcc_flush::errors::TxnError;
use mvcc_flush::flush::{Flush, WriteResult};
use mvcc_flush::prewrite::{TransactionProperties, prewrite};
use mvcc_flush::snapshot::Snapshot;
use mvcc_flush::txn::{ConcurrencyManager, MvccTxn};
use mvcc_flush::types::{
    AssertionLevel, CommitRecord, ExtraOp, LockKind, LockRecord, Mutation, RequestContext,
    WriteKind,
};

struct Engine {
    locks: Vec<LockRecord>,
    writes: Vec<CommitRecord>,
}

fn clone_lock(l: &LockRecord) -> LockRecord {
    LockRecord {
        key: l.key.clone(),
        start_ts: l.start_ts,
        primary: l.primary.clone(),
        ttl: l.ttl,
        kind: match &l.kind {
            LockKind::Put { value } => LockKind::Put { value: value.clone() },
            LockKind::Delete => LockKind::Delete,
            LockKind::Lock => LockKind::Lock,
            LockKind::Pessimistic => LockKind::Pessimistic,
        },
    }
}

fn clone_write(w: &CommitRecord) -> CommitRecord {
    CommitRecord {
        key: w.key.clone(),
        start_ts: w.start_ts,
        commit_ts: w.commit_ts,
        kind: match &w.kind {
            WriteKind::Put { value } => WriteKind::Put { value: value.clone() },
            WriteKind::Delete => WriteKind::Delete,
            WriteKind::Lock => WriteKind::Lock,
            WriteKind::Rollback => WriteKind::Rollback,
        },
    }
}

impl Engine {
    fn new() -> Engine {
        Engine { locks: Vec::new(), writes: Vec::new() }
    }

    fn snapshot(&self) -> Snapshot {
        Snapshot {
            locks: self.locks.iter().map(clone_lock).collect(),
            writes: self.writes.iter().map(clone_write).collect(),
        }
    }

    fn apply(&mut self, modifies: Vec<LockRecord>) {
        for l in modifies {
            self.locks.push(l);
        }
    }
}

fn flush_put_impl(
    engine: &mut Engine,
    key: &[u8],
    value: &[u8],
    pk: &[u8],
    start_ts: u64,
) -> Result<WriteResult, TxnError> {
    let cmd = Flush::new(
        start_ts,
        pk.to_vec(),
        vec![Mutation::make_put(key.to_vec(), value.to_vec())],
        3000,
        AssertionLevel::Strict,
        RequestContext { is_retry_request: false, txn_source: 0 },
    );
    let mut cm = ConcurrencyManager::new(start_ts);
    let snapshot = engine.snapshot();
    cmd.process_write(&snapshot, &mut cm, ExtraOp::Noop)
}

fn must_flush_put(engine: &mut Engine, key: &[u8], value: &[u8], pk: &[u8], start_ts: u64) {
    let res = match flush_put_impl(engine, key, value, pk, start_ts) {
        Ok(r) => r,
        Err(_) => panic!("flush failed"),
    };
    engine.apply(res.to_be_write.modifies);
}

fn must_flush_put_meet_lock(engine: &mut Engine, key: &[u8], value: &[u8], pk: &[u8], start_ts: u64) {
    let res = match flush_put_impl(engine, key, value, pk, start_ts) {
        Ok(r) => r,
        Err(_) => panic!("flush return type error"),
    };
    assert!(!res.per_key_results.is_empty());
}

fn must_locked(engine: &Engine, key: &[u8], start_ts: u64) {
    assert!(engine.locks.iter().any(
        |l| l.key == key && l.start_ts == start_ts && !matches!(l.kind, LockKind::Pessimistic)
    ));
}

fn must_pessimistic_locked(engine: &Engine, key: &[u8], start_ts: u64, _for_update_ts: u64) {
    assert!(engine.locks.iter().any(
        |l| l.key == key && l.start_ts == start_ts && matches!(l.kind, LockKind::Pessimistic)
    ));
}

fn must_commit(engine: &mut Engine, key: &[u8], start_ts: u64, commit_ts: u64) {
    let pos = engine
        .locks
        .iter()
        .position(|l| l.key == key && l.start_ts == start_ts);
    let pos = match pos {
        Some(p) => p,
        None => panic!("key is not locked by this transaction"),
    };
    let lock = engine.locks.remove(pos);
    let kind = match lock.kind {
        LockKind::Put { value } => WriteKind::Put { value },
        LockKind::Delete => WriteKind::Delete,
        LockKind::Lock => WriteKind::Lock,
        LockKind::Pessimistic => panic!("cannot commit a pessimistic lock"),
    };
    engine.writes.push(CommitRecord { key: key.to_vec(), start_ts, commit_ts, kind });
}

fn must_get(engine: &Engine, key: &[u8], ts: u64, expected: &[u8]) {
    let mut best: Option<&CommitRecord> = None;
    for w in &engine.writes {
        let is_data = matches!(w.kind, WriteKind::Put { .. } | WriteKind::Delete);
        if w.key == key && w.commit_ts <= ts && is_data {
            if best.map_or(true, |b| w.commit_ts > b.commit_ts) {
                best = Some(w);
            }
        }
    }
    match best {
        Some(CommitRecord { kind: WriteKind::Put { value }, .. }) => {
            assert_eq!(value.as_slice(), expected)
        }
        _ => panic!("no value visible at this timestamp"),
    }
}

fn must_acquire_pessimistic_lock(
    engine: &mut Engine,
    key: &[u8],
    pk: &[u8],
    start_ts: u64,
    _for_update_ts: u64,
) {
    assert!(engine.locks.iter().all(|l| l.key != key));
    engine.locks.push(LockRecord {
        key: key.to_vec(),
        start_ts,
        primary: pk.to_vec(),
        ttl: 3000,
        kind: LockKind::Pessimistic,
    });
}

fn must_acquire_pessimistic_lock_err(
    engine: &mut Engine,
    key: &[u8],
    _pk: &[u8],
    start_ts: u64,
    _for_update_ts: u64,
) {
    assert!(engine.locks.iter().any(|l| l.key == key && l.start_ts != start_ts));
}

fn props_for(pk: &[u8], start_ts: u64) -> TransactionProperties {
    TransactionProperties {
        start_ts,
        primary: pk.to_vec(),
        txn_size: 0,
        lock_ttl: 3000,
        min_commit_ts: 0,
        need_old_value: false,
        is_retry_request: false,
        assertion_level: AssertionLevel::Strict,
        txn_source: 0,
        skip_constraint_check: false,
    }
}

fn must_prewrite_put(engine: &mut Engine, key: &[u8], value: &[u8], pk: &[u8], start_ts: u64) {
    let snapshot = engine.snapshot();
    let mut txn = MvccTxn::new(start_ts);
    let props = props_for(pk, start_ts);
    let m = Mutation::make_put(key.to_vec(), value.to_vec());
    let r = prewrite(&mut txn, &snapshot, &props, &m);
    assert!(r.is_ok());
    engine.apply(txn.into_modifies());
}

fn must_prewrite_put_err(engine: &mut Engine, key: &[u8], value: &[u8], pk: &[u8], start_ts: u64) {
    let snapshot = engine.snapshot();
    let mut txn = MvccTxn::new(start_ts);
    let props = props_for(pk, start_ts);
    let m = Mutation::make_put(key.to_vec(), value.to_vec());
    let r = prewrite(&mut txn, &snapshot, &props, &m);
    assert!(r.is_err());
}

#[test]
fn test_flush() {
    let mut engine = Engine::new();
    let k = b"key";
    let v = b"value";
    let start_ts = 1;
    must_flush_put(&mut engine, k, v, k, start_ts);
    must_locked(&engine, k, start_ts);
    must_commit(&mut engine, k, start_ts, start_ts + 1);
    must_get(&engine, k, start_ts + 1, v);
}

#[test]
fn test_write_conflict() {
    let mut engine = Engine::new();
    let k = b"key";
    let v = b"value";
    // flush x {flush, pessimistic lock, prewrite}
    must_flush_put(&mut engine, k, v, k, 1);
    must_locked(&engine, k, 1);
    must_flush_put_meet_lock(&mut engine, k, v, k, 2);
    must_acquire_pessimistic_lock_err(&mut engine, k, k, 2, 2);
    must_prewrite_put_err(&mut engine, k, v, k, 2);

    // pessimistic lock x flush
    let k = b"key2";
    must_acquire_pessimistic_lock(&mut engine, k, k, 1, 1);
    must_pessimistic_locked(&engine, k, 1, 1);
    must_flush_put_meet_lock(&mut engine, k, v, k, 2);

    // prewrite x flush
    let k = b"key3";
    must_prewrite_put(&mut engine, k, v, k, 1);
    must_locked(&engine, k, 1);
    must_flush_put_meet_lock(&mut engine, k, v, k, 2);
}

#[test]
fn test_flush_overwrite() {
    let mut engine = Engine::new();
    let k = b"key";
    let v = b"value";
    must_flush_put(&mut engine, k, v, k, 1);
    // Re-flushing the same key with a different value under a generation
    // mechanism is deliberately out of scope.
}

#[test]
fn test_flush_retry_after_commit() {
    // An identical flush request re-sent after its first attempt was applied
    // and committed externally answers the previously established result,
    // not a fresh write conflict.
    let mut engine = Engine::new();
    let k = b"k2";
    let v = b"v";
    must_flush_put(&mut engine, k, v, k, 1);
    must_commit(&mut engine, k, 1, 3);
    let res = match flush_put_impl(&mut engine, k, v, k, 1) {
        Ok(r) => r,
        Err(_) => panic!("retry must not surface a conflict"),
    };
    assert_eq!(res.per_key_results.len(), 1);
    assert!(matches!(res.per_key_results[0], Ok(())));
    assert!(res.to_be_write.modifies.is_empty());
}
