//! The mathematical model of the write path. Everything here is ghost: the
//! snapshot a command reads, the decision one prewrite makes, and the outcome
//! of a whole flush over a mutation batch. The exec functions' contracts say
//! that they compute exactly what these functions describe.

use vstd::prelude::*;

use crate::errors::ErrModel;
use crate::types::{
    Assertion, AssertionLevel, CommitModel, LockKindModel, LockModel, LockRecord, Mutation,
    MutationKind, MutationModel, OldValueEntry, OldValueEntryModel, OldValueModel, WriteKindModel,
    kind_checks_assertion, kind_should_not_exist, mutation_type_of,
};
use crate::errors::TxnError;

verus! {

/// Read-only view of the store as of a command's start: the locks currently
/// held and the committed (or rolled-back) versions.
#[verifier::ext_equal]
pub struct SnapModel {
    pub locks: Seq<LockModel>,
    pub writes: Seq<CommitModel>,
}

/// Properties of the transaction one flush command runs under.
#[verifier::ext_equal]
pub struct PropsModel {
    pub start_ts: u64,
    pub primary: Seq<u8>,
    pub txn_size: u64,
    pub lock_ttl: u64,
    pub min_commit_ts: u64,
    pub need_old_value: bool,
    pub is_retry_request: bool,
    pub assertion_level: AssertionLevel,
    pub txn_source: u64,
    pub skip_constraint_check: bool,
}

/// A committed record becomes visible strictly after its transaction started;
/// a rollback record sits at its own start timestamp.
pub open spec fn commit_wf(w: CommitModel) -> bool {
    if w.kind is Rollback {
        w.commit_ts == w.start_ts
    } else {
        w.commit_ts > w.start_ts
    }
}

/// Well-formedness of a snapshot: at most one lock per key, every record
/// well-formed, and no two records of one key share a commit or a start
/// timestamp.
pub open spec fn snap_wf(s: SnapModel) -> bool {
    &&& forall|i: int, j: int|
        0 <= i < j < s.locks.len() ==> (#[trigger] s.locks[i]).key != (#[trigger] s.locks[j]).key
    &&& forall|i: int| 0 <= i < s.writes.len() ==> commit_wf(#[trigger] s.writes[i])
    &&& forall|i: int, j: int|
        0 <= i < j < s.writes.len() ==> !((#[trigger] s.writes[i]).key == (
        #[trigger] s.writes[j]).key && s.writes[i].commit_ts == s.writes[j].commit_ts)
    &&& forall|i: int, j: int|
        0 <= i < j < s.writes.len() ==> !(s.writes[i].key == s.writes[j].key
            && s.writes[i].start_ts == s.writes[j].start_ts)
}

/// The lock held on `key`, if any (scanning from the back).
pub open spec fn find_lock(locks: Seq<LockModel>, key: Seq<u8>) -> Option<LockModel>
    decreases locks.len(),
{
    if locks.len() == 0 {
        None
    } else if locks.last().key == key {
        Some(locks.last())
    } else {
        find_lock(locks.drop_last(), key)
    }
}

/// The record of `key` with the greatest commit timestamp, of any kind.
pub open spec fn latest_write(writes: Seq<CommitModel>, key: Seq<u8>) -> Option<CommitModel>
    decreases writes.len(),
{
    if writes.len() == 0 {
        None
    } else {
        let prev = latest_write(writes.drop_last(), key);
        if writes.last().key == key {
            match prev {
                Some(r) => if writes.last().commit_ts > r.commit_ts {
                    Some(writes.last())
                } else {
                    Some(r)
                },
                None => Some(writes.last()),
            }
        } else {
            prev
        }
    }
}

/// Record kinds that decide whether a key holds data.
pub open spec fn is_data_kind(k: WriteKindModel) -> bool {
    k is Put || k is Delete
}

/// The record of `key` with the greatest commit timestamp among those that
/// put or delete data; lock-only and rollback records say nothing about
/// existence.
pub open spec fn latest_data_write(writes: Seq<CommitModel>, key: Seq<u8>) -> Option<CommitModel>
    decreases writes.len(),
{
    if writes.len() == 0 {
        None
    } else {
        let prev = latest_data_write(writes.drop_last(), key);
        if writes.last().key == key && is_data_kind(writes.last().kind) {
            match prev {
                Some(r) => if writes.last().commit_ts > r.commit_ts {
                    Some(writes.last())
                } else {
                    Some(r)
                },
                None => Some(writes.last()),
            }
        } else {
            prev
        }
    }
}

/// Whether `key` holds a committed value.
pub open spec fn key_exists_in(writes: Seq<CommitModel>, key: Seq<u8>) -> bool {
    match latest_data_write(writes, key) {
        Some(r) => r.kind is Put,
        None => false,
    }
}

/// The value visible at `key` before this transaction writes.
pub open spec fn old_value_in(writes: Seq<CommitModel>, key: Seq<u8>) -> OldValueModel {
    match latest_data_write(writes, key) {
        Some(r) => match r.kind {
            WriteKindModel::Put { value } => OldValueModel::Value { value },
            _ => OldValueModel::NotExist,
        },
        None => OldValueModel::NotExist,
    }
}

/// The record showing what became of transaction `start_ts` on `key`, if any.
pub open spec fn commit_record_in(writes: Seq<CommitModel>, key: Seq<u8>, start_ts: u64) -> Option<
    CommitModel,
>
    decreases writes.len(),
{
    if writes.len() == 0 {
        None
    } else if writes.last().key == key && writes.last().start_ts == start_ts {
        Some(writes.last())
    } else {
        commit_record_in(writes.drop_last(), key, start_ts)
    }
}

/// Whether transaction `start_ts` already committed on `key`: a record exists
/// and it is not a rollback. This is the idempotent-retry test.
pub open spec fn has_committed_record(writes: Seq<CommitModel>, key: Seq<u8>, start_ts: u64) -> bool {
    match commit_record_in(writes, key, start_ts) {
        Some(r) => !(r.kind is Rollback),
        None => false,
    }
}

/// Whether the transaction accumulator already staged a lock for `key`.
pub open spec fn staged_contains(staged: Seq<LockModel>, key: Seq<u8>) -> bool {
    exists|i: int| 0 <= i < staged.len() && (#[trigger] staged[i]).key == key
}

/// The lock record a successful prewrite of `m` stages; existence checks
/// stage nothing.
pub open spec fn staged_lock_of(m: MutationModel, props: PropsModel) -> Option<LockModel> {
    match m.kind {
        MutationKind::Put => Some(LockModel {
            key: m.key,
            start_ts: props.start_ts,
            primary: props.primary,
            ttl: props.lock_ttl,
            kind: LockKindModel::Put { value: m.value },
        }),
        MutationKind::Insert => Some(LockModel {
            key: m.key,
            start_ts: props.start_ts,
            primary: props.primary,
            ttl: props.lock_ttl,
            kind: LockKindModel::Put { value: m.value },
        }),
        MutationKind::Delete => Some(LockModel {
            key: m.key,
            start_ts: props.start_ts,
            primary: props.primary,
            ttl: props.lock_ttl,
            kind: LockKindModel::Delete,
        }),
        MutationKind::Lock => Some(LockModel {
            key: m.key,
            start_ts: props.start_ts,
            primary: props.primary,
            ttl: props.lock_ttl,
            kind: LockKindModel::Lock,
        }),
        MutationKind::CheckNotExists => None,
    }
}

/// A staged lock as a (possibly empty) sequence, for appending.
pub open spec fn opt_lock_seq(l: Option<LockModel>) -> Seq<LockModel> {
    match l {
        Some(lock) => seq![lock],
        None => Seq::empty(),
    }
}

/// Whether the declared assertion of `m` is violated, given whether the key
/// currently holds data. Checked only when the command asks for assertion
/// checking and only for mutation kinds that write.
pub open spec fn assertion_violated(m: MutationModel, level: AssertionLevel, present: bool) -> bool {
    &&& !(level is Off)
    &&& kind_checks_assertion(m.kind)
    &&& match m.assertion {
        Assertion::Unset => false,
        Assertion::Exist => !present,
        Assertion::NotExist => present,
    }
}

/// What one prewrite decides for one mutation.
#[verifier::ext_equal]
pub enum PrewriteStep {
    /// The mutation is accepted: a lock is staged (unless the key is already
    /// locked by this same transaction, or the mutation stages nothing) and
    /// the prior value is captured when requested.
    Staged { lock: Option<LockModel>, old_value: Option<OldValueModel> },
    /// The mutation is rejected with a classified error.
    Failed { err: ErrModel },
}

/// The conflict checks once the key is known to hold no lock and not to be
/// staged already: newer committed version, then data constraint, then the
/// declared assertion; on success, the staged lock and the captured old value.
pub open spec fn prewrite_checked(snap: SnapModel, props: PropsModel, m: MutationModel) -> PrewriteStep {
    let present = key_exists_in(snap.writes, m.key);
    if kind_should_not_exist(m.kind) && present && !props.skip_constraint_check {
        PrewriteStep::Failed { err: ErrModel::AlreadyExist { key: m.key } }
    } else if assertion_violated(m, props.assertion_level, present) {
        PrewriteStep::Failed {
            err: ErrModel::AssertionFailed {
                start_ts: props.start_ts,
                key: m.key,
                assertion: m.assertion,
            },
        }
    } else {
        PrewriteStep::Staged {
            lock: staged_lock_of(m, props),
            old_value: if props.need_old_value {
                Some(old_value_in(snap.writes, m.key))
            } else {
                None
            },
        }
    }
}

/// One prewrite of one mutation against the snapshot and what this command
/// already staged. A foreign lock (or any pessimistic lock) rejects the key;
/// this transaction's own optimistic lock, whether found in the store from a
/// previously applied attempt or staged earlier in this batch, makes the
/// mutation an idempotent duplicate that stages nothing further.
pub open spec fn prewrite_model(
    snap: SnapModel,
    props: PropsModel,
    staged: Seq<LockModel>,
    m: MutationModel,
) -> PrewriteStep {
    match find_lock(snap.locks, m.key) {
        Some(l) => {
            if l.start_ts == props.start_ts && !(l.kind is Pessimistic) {
                PrewriteStep::Staged { lock: None, old_value: None }
            } else {
                PrewriteStep::Failed {
                    err: ErrModel::KeyIsLocked { key: m.key, lock_ts: l.start_ts },
                }
            }
        },
        None => {
            if staged_contains(staged, m.key) {
                PrewriteStep::Staged { lock: None, old_value: None }
            } else {
                match latest_write(snap.writes, m.key) {
                    Some(w) => {
                        if w.commit_ts > props.start_ts {
                            PrewriteStep::Failed {
                                err: ErrModel::WriteConflict {
                                    start_ts: props.start_ts,
                                    conflict_start_ts: w.start_ts,
                                    conflict_commit_ts: w.commit_ts,
                                    key: m.key,
                                    primary: props.primary,
                                },
                            }
                        } else {
                            prewrite_checked(snap, props, m)
                        }
                    },
                    None => prewrite_checked(snap, props, m),
                }
            }
        },
    }
}

/// The captured old value as a (possibly empty) sequence of entries.
pub open spec fn opt_old_entries(
    m: MutationModel,
    props: PropsModel,
    old_value: Option<OldValueModel>,
) -> Seq<OldValueEntryModel> {
    match old_value {
        Some(v) => seq![
            OldValueEntryModel {
                key: m.key,
                start_ts: props.start_ts,
                old_value: v,
                mutation_type: mutation_type_of(m.kind),
            },
        ],
        None => Seq::empty(),
    }
}

/// The outcome of one flush command over a whole batch.
#[verifier::ext_equal]
pub enum FlushOutcome {
    /// The loop ran to the end: the per-key error list (successes are not
    /// listed), the staged write-set, and the captured old values.
    Completed {
        results: Seq<Result<(), ErrModel>>,
        staged: Seq<LockModel>,
        old_values: Seq<OldValueEntryModel>,
    },
    /// A conflict or lock turned out to be this transaction's own prior
    /// commit: the command answers with the previously established result and
    /// discards everything staged so far; old values captured before the
    /// short-circuit are kept.
    ShortCircuited {
        results: Seq<Result<(), ErrModel>>,
        old_values: Seq<OldValueEntryModel>,
    },
    /// A fatal error aborts the whole command; nothing is handed off.
    Aborted { err: ErrModel },
}

/// The flush loop from mutation `i` on, carrying what earlier iterations
/// accumulated: staged locks, the per-key error list, the first deferred
/// assertion failure, and captured old values. Write conflicts consult the
/// idempotent-retry test and otherwise abort; locked keys consult the same
/// test and otherwise fail only that key; assertion failures are deferred —
/// only the first is remembered, and it surfaces, once the whole batch has
/// been tried, only when the per-key list stayed empty, so that no evidence
/// of real concurrent activity anywhere in the batch is ever masked by a
/// data-integrity diagnostic; every other error aborts at once.
pub open spec fn flush_step(
    snap: SnapModel,
    props: PropsModel,
    ms: Seq<MutationModel>,
    i: int,
    staged: Seq<LockModel>,
    results: Seq<Result<(), ErrModel>>,
    deferred: Option<ErrModel>,
    old_values: Seq<OldValueEntryModel>,
) -> FlushOutcome
    decreases ms.len() - i,
{
    if i < 0 || i >= ms.len() {
        match deferred {
            Some(e) => {
                if results.len() == 0 {
                    FlushOutcome::Aborted { err: e }
                } else {
                    FlushOutcome::Completed { results, staged, old_values }
                }
            },
            None => FlushOutcome::Completed { results, staged, old_values },
        }
    } else {
        let m = ms[i];
        match prewrite_model(snap, props, staged, m) {
            PrewriteStep::Staged { lock, old_value } => flush_step(
                snap,
                props,
                ms,
                i + 1,
                staged + opt_lock_seq(lock),
                results,
                deferred,
                old_values + opt_old_entries(m, props, old_value),
            ),
            PrewriteStep::Failed { err } => match err {
                ErrModel::WriteConflict { start_ts, conflict_commit_ts, .. } => {
                    if conflict_commit_ts > start_ts {
                        if has_committed_record(snap.writes, m.key, props.start_ts) {
                            FlushOutcome::ShortCircuited {
                                results: seq![Result::Ok(())],
                                old_values,
                            }
                        } else {
                            FlushOutcome::Aborted { err }
                        }
                    } else {
                        FlushOutcome::Aborted { err }
                    }
                },
                ErrModel::KeyIsLocked { .. } => {
                    if has_committed_record(snap.writes, m.key, props.start_ts) {
                        FlushOutcome::ShortCircuited {
                            results: seq![Result::Ok(())],
                            old_values,
                        }
                    } else {
                        flush_step(
                            snap,
                            props,
                            ms,
                            i + 1,
                            staged,
                            results.push(Result::Err(err)),
                            deferred,
                            old_values,
                        )
                    }
                },
                ErrModel::AssertionFailed { .. } => flush_step(
                    snap,
                    props,
                    ms,
                    i + 1,
                    staged,
                    results,
                    if deferred is None {
                        Some(err)
                    } else {
                        deferred
                    },
                    old_values,
                ),
                _ => FlushOutcome::Aborted { err },
            },
        }
    }
}

/// The outcome of one flush command over the whole batch, starting from a
/// fresh accumulator.
pub open spec fn flush_model(snap: SnapModel, props: PropsModel, ms: Seq<MutationModel>) -> FlushOutcome {
    flush_step(snap, props, ms, 0, Seq::empty(), Seq::empty(), None, Seq::empty())
}

/// The byte cost of one mutation: key and value for writes, key alone for
/// deletions and lock-only mutations, nothing for existence checks.
pub open spec fn mutation_write_bytes(m: MutationModel) -> nat {
    match m.kind {
        MutationKind::Put => m.key.len() + m.value.len(),
        MutationKind::Insert => m.key.len() + m.value.len(),
        MutationKind::Delete => m.key.len(),
        MutationKind::Lock => m.key.len(),
        MutationKind::CheckNotExists => 0,
    }
}

/// The byte cost of a whole batch.
pub open spec fn batch_write_bytes(ms: Seq<MutationModel>) -> nat
    decreases ms.len(),
{
    if ms.len() == 0 {
        0
    } else {
        batch_write_bytes(ms.drop_last()) + mutation_write_bytes(ms.last())
    }
}

/// The views of a sequence of mutations.
pub open spec fn muts_view(ms: Seq<Mutation>) -> Seq<MutationModel> {
    ms.map_values(|m: Mutation| m@)
}

/// The views of a sequence of lock records.
pub open spec fn locks_view(ls: Seq<LockRecord>) -> Seq<LockModel> {
    ls.map_values(|l: LockRecord| l@)
}

/// The views of a sequence of commit records.
pub open spec fn writes_view(ws: Seq<crate::types::CommitRecord>) -> Seq<CommitModel> {
    ws.map_values(|w: crate::types::CommitRecord| w@)
}

/// The views of a sequence of captured old values.
pub open spec fn entries_view(es: Seq<OldValueEntry>) -> Seq<OldValueEntryModel> {
    es.map_values(|e: OldValueEntry| e@)
}

/// The views of a per-key result list.
pub open spec fn results_view(rs: Seq<Result<(), TxnError>>) -> Seq<Result<(), ErrModel>> {
    rs.map_values(
        |r: Result<(), TxnError>|
            match r {
                Ok(u) => Result::<(), ErrModel>::Ok(u),
                Err(e) => Result::<(), ErrModel>::Err(e@),
            },
    )
}

} // verus!
