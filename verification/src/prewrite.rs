//! The prewrite action: given one mutation, the snapshot, and the
//! transaction's properties, either stage a lock (and value) in the
//! transaction accumulator or fail with a classified conflict. The function
//! is proved to decide exactly as the model does.

use vstd::prelude::*;

use crate::errors::TxnError;
use crate::model::{PropsModel, PrewriteStep, opt_lock_seq, prewrite_model, staged_lock_of};
use crate::snapshot::Snapshot;
use crate::txn::MvccTxn;
use crate::types::{
    Assertion, AssertionLevel, LockKind, LockRecord, Mutation, OldValue, OldValueModel,
    clone_bytes,
};

verus! {

/// Properties of the transaction a flush command runs under. This command is
/// optimistic and two-phase: it acquires no pessimistic locks, defers no
/// commit timestamp, and checks data constraints (`skip_constraint_check` is
/// false).
pub struct TransactionProperties {
    pub start_ts: u64,
    pub primary: Vec<u8>,
    pub txn_size: u64,
    pub lock_ttl: u64,
    pub min_commit_ts: u64,
    pub need_old_value: bool,
    pub is_retry_request: bool,
    pub assertion_level: AssertionLevel,
    pub txn_source: u64,
    pub skip_constraint_check: bool,
}

impl View for TransactionProperties {
    type V = PropsModel;

    open spec fn view(&self) -> PropsModel {
        PropsModel {
            start_ts: self.start_ts,
            primary: self.primary@,
            txn_size: self.txn_size,
            lock_ttl: self.lock_ttl,
            min_commit_ts: self.min_commit_ts,
            need_old_value: self.need_old_value,
            is_retry_request: self.is_retry_request,
            assertion_level: self.assertion_level,
            txn_source: self.txn_source,
            skip_constraint_check: self.skip_constraint_check,
        }
    }
}

/// The view of an optional captured old value.
pub open spec fn opt_old_view(v: Option<OldValue>) -> Option<OldValueModel> {
    match v {
        Some(x) => Some(x@),
        None => None,
    }
}

/// Attempts to install a lock record for the mutation's key at the
/// transaction's start timestamp and to stage the mutation's value. On
/// success the staged commit-candidate timestamp (always zero for this
/// two-phase command) and, when requested, the prior value are returned; on
/// failure the classified conflict is returned and nothing is staged.
pub fn prewrite(
    txn: &mut MvccTxn,
    snapshot: &Snapshot,
    props: &TransactionProperties,
    m: &Mutation,
) -> (r: Result<(u64, Option<OldValue>), TxnError>)
    ensures
        final(txn).start_ts == old(txn).start_ts,
        // This path acquires no pessimistic locks and defers no commit
        // timestamp, so neither of those failure classes can come out of it.
        r matches Err(e) ==> !(e@ is PessimisticLockNotFound) && !(e@ is CommitTsTooLarge),
        ({
            let step = prewrite_model(snapshot@, props@, old(txn).staged(), m@);
            match r {
                Ok((ts, old_val)) => {
                    &&& step matches PrewriteStep::Staged { lock, old_value }
                        && opt_old_view(old_val) == old_value
                        && final(txn).staged() == old(txn).staged() + opt_lock_seq(lock)
                    &&& ts == 0u64
                },
                Err(e) => {
                    &&& step matches PrewriteStep::Failed { err } && e@ == err
                    &&& final(txn).staged() == old(txn).staged()
                },
            }
        }),
{
    let key = m.key();
    match snapshot.load_lock(key) {
        Some((lock_ts, pessimistic)) => {
            if lock_ts == props.start_ts && !pessimistic {
                // This transaction's own optimistic lock from a previously
                // applied attempt: an idempotent duplicate.
                Ok((0, None))
            } else {
                Err(TxnError::KeyIsLocked { key: clone_bytes(key), lock_ts })
            }
        },
        None => {
            if txn.has_staged_lock(key) {
                // Already staged earlier in this same batch.
                return Ok((0, None));
            }
            match snapshot.latest_commit(key) {
                Some((conflict_start_ts, conflict_commit_ts)) => {
                    if conflict_commit_ts > props.start_ts {
                        return Err(TxnError::WriteConflict {
                            start_ts: props.start_ts,
                            conflict_start_ts,
                            conflict_commit_ts,
                            key: clone_bytes(key),
                            primary: clone_bytes(&props.primary),
                        });
                    }
                },
                None => {},
            }
            let present = snapshot.key_exists(key);
            if m.should_not_exist() && present && !props.skip_constraint_check {
                return Err(TxnError::AlreadyExist { key: clone_bytes(key) });
            }
            let level_off = match props.assertion_level {
                AssertionLevel::Off => true,
                _ => false,
            };
            if !level_off && m.checks_assertion() {
                let violated = match m.assertion() {
                    Assertion::Unset => false,
                    Assertion::Exist => !present,
                    Assertion::NotExist => present,
                };
                if violated {
                    return Err(TxnError::AssertionFailed {
                        start_ts: props.start_ts,
                        key: clone_bytes(key),
                        assertion: m.assertion(),
                    });
                }
            }
            let ghost staged_before = txn.staged();
            match m {
                Mutation::CheckNotExists { .. } => {
                    proof {
                        assert(txn.staged() =~= staged_before + opt_lock_seq(
                            staged_lock_of(m@, props@),
                        ));
                    }
                },
                _ => {
                    let kind = match m {
                        Mutation::Put { value, .. } => LockKind::Put { value: clone_bytes(value) },
                        Mutation::Insert { value, .. } => LockKind::Put {
                            value: clone_bytes(value),
                        },
                        Mutation::Delete { .. } => LockKind::Delete,
                        _ => LockKind::Lock,
                    };
                    let lock = LockRecord {
                        key: clone_bytes(key),
                        start_ts: props.start_ts,
                        primary: clone_bytes(&props.primary),
                        ttl: props.lock_ttl,
                        kind,
                    };
                    proof {
                        assert(Some(lock@) =~= staged_lock_of(m@, props@));
                    }
                    txn.put_lock(lock);
                    proof {
                        assert(txn.staged() =~= staged_before + opt_lock_seq(
                            staged_lock_of(m@, props@),
                        ));
                    }
                },
            }
            let old_val = if props.need_old_value {
                Some(snapshot.old_value(key))
            } else {
                None
            };
            Ok((0, old_val))
        },
    }
}

} // verus!
