//! The flush command: orchestrates the prewrite action over a mutation
//! batch, applying the error-priority and partial-failure policy, and
//! assembles the final write-set and per-key result list.

use vstd::prelude::*;

use crate::errors::{ErrModel, TxnError};
use crate::model::{
    FlushOutcome, PropsModel, batch_write_bytes, entries_view, flush_model, flush_step,
    locks_view, mutation_write_bytes, muts_view, opt_old_entries, results_view,
};
use crate::prewrite::{TransactionProperties, opt_old_view, prewrite};
use crate::snapshot::Snapshot;
use crate::txn::{ConcurrencyManager, MvccTxn, OldValues, insert_old_value_if_resolved};
use crate::types::{
    AssertionLevel, ExtraOp, LockModel, LockRecord, Mutation, OldValueEntryModel, RequestContext,
    clone_bytes,
};

verus! {

/// How the dispatcher should answer the client once the write-set is handed
/// to the apply layer.
#[derive(Clone, Copy, PartialEq, Eq, Structural, Debug)]
pub enum ResponsePolicy {
    OnApplied,
    OnProposed,
}

/// Metadata handed off beside the write-set.
pub struct TxnExtra {
    pub old_values: OldValues,
    pub one_pc: bool,
    pub allowed_in_flashback: bool,
}

/// The write-set to be durably applied by the external apply layer, with its
/// metadata. Each modification is a new lock record carrying the staged
/// value, so no write exists without its lock.
pub struct WriteData {
    pub modifies: Vec<LockRecord>,
    pub extra: TxnExtra,
}

/// What a completed flush command yields: the write-set, the row count, the
/// per-key result list, and the response policy.
pub struct WriteResult {
    pub ctx: RequestContext,
    pub to_be_write: WriteData,
    pub rows: usize,
    pub per_key_results: Vec<Result<(), TxnError>>,
    pub response_policy: ResponsePolicy,
}

/// The view of the remembered first assertion failure.
pub open spec fn opt_err_view(v: Option<TxnError>) -> Option<ErrModel> {
    match v {
        Some(e) => Some(e@),
        None => None,
    }
}

/// A prefix never costs more bytes than the whole batch.
proof fn lemma_batch_bytes_prefix(ms: Seq<crate::types::MutationModel>, i: int)
    requires
        0 <= i <= ms.len(),
    ensures
        batch_write_bytes(ms.take(i)) <= batch_write_bytes(ms),
    decreases ms.len() - i,
{
    if i == ms.len() {
        assert(ms.take(i) =~= ms);
    } else {
        assert(ms.take(i + 1).drop_last() =~= ms.take(i));
        assert(ms.take(i + 1).last() == ms[i]);
        lemma_batch_bytes_prefix(ms, i + 1);
    }
}

/// The flush command: stage a batch of mutations as locks under one start
/// timestamp.
pub struct Flush {
    pub start_ts: u64,
    pub primary: Vec<u8>,
    pub mutations: Vec<Mutation>,
    pub lock_ttl: u64,
    pub assertion_level: AssertionLevel,
    pub ctx: RequestContext,
}

impl Flush {
    /// The transaction properties this command runs under: optimistic,
    /// two-phase, constraint checks on, old values captured exactly when the
    /// caller asks for change-data capture.
    pub open spec fn props_model(&self, extra_op: ExtraOp) -> PropsModel {
        PropsModel {
            start_ts: self.start_ts,
            primary: self.primary@,
            txn_size: 0,
            lock_ttl: self.lock_ttl,
            min_commit_ts: 0,
            need_old_value: extra_op is ReadOldValue,
            is_retry_request: self.ctx.is_retry_request,
            assertion_level: self.assertion_level,
            txn_source: self.ctx.txn_source,
            skip_constraint_check: false,
        }
    }

    /// A new flush command.
    pub fn new(
        start_ts: u64,
        primary: Vec<u8>,
        mutations: Vec<Mutation>,
        lock_ttl: u64,
        assertion_level: AssertionLevel,
        ctx: RequestContext,
    ) -> (r: Flush)
        ensures
            r.start_ts == start_ts,
            r.primary@ == primary@,
            r.mutations@ == mutations@,
            r.lock_ttl == lock_ttl,
            r.assertion_level == assertion_level,
            r.ctx == ctx,
    {
        Flush { start_ts, primary, mutations, lock_ttl, assertion_level, ctx }
    }

    /// The metric tag of this command kind.
    pub fn tag(&self) -> (r: &'static str)
        ensures
            r@ == "flush"@,
    {
        "flush"
    }

    /// The timestamp this command runs at.
    pub fn ts(&self) -> (r: u64)
        ensures
            r == self.start_ts,
    {
        self.start_ts
    }

    /// The request context this command carries.
    pub fn context(&self) -> (r: &RequestContext)
        ensures
            r == self.ctx,
    {
        &self.ctx
    }

    /// The byte cost of this batch, for scheduling and backpressure: key and
    /// value bytes for writes, key bytes alone for deletions and lock-only
    /// mutations, nothing for existence checks.
    pub fn write_bytes(&self) -> (r: usize)
        requires
            batch_write_bytes(muts_view(self.mutations@)) <= usize::MAX,
        ensures
            r == batch_write_bytes(muts_view(self.mutations@)),
    {
        let ghost ms = muts_view(self.mutations@);
        let n = self.mutations.len();
        let mut bytes: usize = 0;
        let mut i: usize = 0;
        while i < n
            invariant
                n == self.mutations@.len(),
                ms == muts_view(self.mutations@),
                batch_write_bytes(ms) <= usize::MAX,
                0 <= i <= n,
                bytes == batch_write_bytes(ms.take(i as int)),
            decreases n - i,
        {
            proof {
                assert(ms.take(i as int + 1).drop_last() =~= ms.take(i as int));
                assert(ms.take(i as int + 1).last() == ms[i as int]);
                lemma_batch_bytes_prefix(ms, i as int + 1);
                assert(batch_write_bytes(ms.take(i as int + 1)) == batch_write_bytes(
                    ms.take(i as int),
                ) + mutation_write_bytes(ms[i as int]));
            }
            match &self.mutations[i] {
                Mutation::Put { key, value, .. } => {
                    bytes = bytes + key.len();
                    bytes = bytes + value.len();
                },
                Mutation::Insert { key, value, .. } => {
                    bytes = bytes + key.len();
                    bytes = bytes + value.len();
                },
                Mutation::Delete { key, .. } => {
                    bytes = bytes + key.len();
                },
                Mutation::Lock { key, .. } => {
                    bytes = bytes + key.len();
                },
                Mutation::CheckNotExists { .. } => {},
            }
            i = i + 1;
        }
        proof {
            assert(ms.take(n as int) =~= ms);
        }
        bytes
    }

    /// The keys this command asks the lock coordinator to latch: every key of
    /// the batch, in batch order.
    pub fn declared_keys(&self) -> (r: Vec<Vec<u8>>)
        ensures
            r@.len() == self.mutations@.len(),
            forall|i: int|
                0 <= i < r@.len() ==> (#[trigger] r@[i])@ == muts_view(self.mutations@)[i].key,
    {
        let n = self.mutations.len();
        let mut keys: Vec<Vec<u8>> = Vec::new();
        let mut i: usize = 0;
        while i < n
            invariant
                n == self.mutations@.len(),
                0 <= i <= n,
                keys@.len() == i,
                forall|j: int|
                    0 <= j < i ==> (#[trigger] keys@[j])@ == muts_view(self.mutations@)[j].key,
            decreases n - i,
        {
            keys.push(clone_bytes(self.mutations[i].key()));
            i = i + 1;
        }
        keys
    }

    /// The exec transaction properties, denoting `props_model`.
    fn make_props(&self, extra_op: ExtraOp) -> (r: TransactionProperties)
        ensures
            r@ == self.props_model(extra_op),
    {
        let need_old_value = match extra_op {
            ExtraOp::ReadOldValue => true,
            ExtraOp::Noop => false,
        };
        TransactionProperties {
            start_ts: self.start_ts,
            primary: clone_bytes(&self.primary),
            txn_size: 0,
            lock_ttl: self.lock_ttl,
            min_commit_ts: 0,
            need_old_value,
            is_retry_request: self.ctx.is_retry_request,
            assertion_level: self.assertion_level,
            txn_source: self.ctx.txn_source,
            skip_constraint_check: false,
        }
    }

    /// The sequential mutation loop. Per-key recoverable lock errors are
    /// collected without stopping the batch; a write conflict or a locked key
    /// that turns out to be this transaction's own prior commit answers the
    /// previously established result at once; assertion failures are
    /// deferred, and the first of them surfaces only when the batch ends with
    /// an empty per-key list — collected lock-contention evidence is never
    /// masked by one; anything else aborts the command.
    /// On an abort the accumulator's partial content is meaningless and must
    /// be discarded, as `process_write` does.
    pub fn flush(
        &self,
        txn: &mut MvccTxn,
        reader: &Snapshot,
        old_values: &mut OldValues,
        extra_op: ExtraOp,
    ) -> (r: Result<Vec<Result<(), TxnError>>, TxnError>)
        requires
            old(txn).staged() == Seq::<LockModel>::empty(),
            old(txn).start_ts == self.start_ts,
        ensures
            ({
                let outcome = flush_model(
                    reader@,
                    self.props_model(extra_op),
                    muts_view(self.mutations@),
                );
                match r {
                    Ok(results) => match outcome {
                        FlushOutcome::Completed { results: mres, staged, old_values: movs } => {
                            &&& results_view(results@) == mres
                            &&& final(txn).staged() == staged
                            &&& final(old_values).entries_model() == old(
                                old_values,
                            ).entries_model() + movs
                        },
                        FlushOutcome::ShortCircuited { results: mres, old_values: movs } => {
                            &&& results_view(results@) == mres
                            &&& final(txn).staged() == Seq::<LockModel>::empty()
                            &&& final(old_values).entries_model() == old(
                                old_values,
                            ).entries_model() + movs
                        },
                        FlushOutcome::Aborted { .. } => false,
                    },
                    Err(e) => outcome matches FlushOutcome::Aborted { err } && e@ == err,
                }
            }),
    {
        let ghost snap = reader@;
        let ghost props_m = self.props_model(extra_op);
        let ghost ms = muts_view(self.mutations@);
        let ghost base_entries = old_values.entries_model();

        let props = self.make_props(extra_op);
        let mut locks: Vec<Result<(), TxnError>> = Vec::new();
        // If there are other errors, they are answered prior to a deferred
        // assertion failure.
        let mut assertion_failure: Option<TxnError> = None;
        let ghost mut delta: Seq<OldValueEntryModel> = Seq::empty();

        let n = self.mutations.len();
        let mut i: usize = 0;
        proof {
            assert(results_view(locks@) =~= Seq::<Result<(), ErrModel>>::empty());
            assert(base_entries + delta =~= base_entries);
        }
        while i < n
            invariant
                n == self.mutations@.len(),
                ms == muts_view(self.mutations@),
                snap == reader@,
                props_m == self.props_model(extra_op),
                props@ == props_m,
                0 <= i <= n,
                txn.start_ts == self.start_ts,
                base_entries == old(old_values).entries_model(),
                old_values.entries_model() == base_entries + delta,
                flush_model(snap, props_m, ms) == flush_step(
                    snap,
                    props_m,
                    ms,
                    i as int,
                    txn.staged(),
                    results_view(locks@),
                    opt_err_view(assertion_failure),
                    delta,
                ),
            decreases n - i,
        {
            let m = &self.mutations[i];
            let key = clone_bytes(m.key());
            let mutation_type = m.mutation_type();
            let ghost staged_pre = txn.staged();
            let ghost results_pre = results_view(locks@);
            let ghost delta_pre = delta;
            proof {
                assert(ms[i as int] == m@);
            }
            let prewrite_result = prewrite(txn, reader, &props, m);
            match prewrite_result {
                Ok((_ts, old_value)) => {
                    let ghost ov = opt_old_view(old_value);
                    insert_old_value_if_resolved(
                        old_values,
                        key,
                        txn.start_ts,
                        old_value,
                        mutation_type,
                    );
                    proof {
                        delta = delta_pre + opt_old_entries(m@, props_m, ov);
                        assert(old_values.entries_model() =~= base_entries + delta);
                    }
                },
                Err(e) => {
                    let fatal: bool;
                    let mut check_retry = false;
                    match &e {
                        TxnError::WriteConflict { start_ts, conflict_commit_ts, .. } => {
                            fatal = true;
                            if *conflict_commit_ts > *start_ts {
                                check_retry = true;
                            }
                        },
                        TxnError::KeyIsLocked { .. } => {
                            fatal = false;
                            check_retry = true;
                        },
                        TxnError::AssertionFailed { .. } => {
                            fatal = false;
                        },
                        TxnError::PessimisticLockNotFound { .. }
                        | TxnError::CommitTsTooLarge { .. } => {
                            // Structurally impossible for this optimistic,
                            // non-deferred-commit command; if ever observed,
                            // abort rather than produce incorrect state.
                            fatal = true;
                        },
                        TxnError::AlreadyExist { .. } => {
                            fatal = true;
                        },
                    }
                    if check_retry {
                        // The conflict may be this same transaction's own
                        // prior attempt: consult the committed record before
                        // surfacing anything.
                        if reader.committed_record(&key, self.start_ts) {
                            txn.clear();
                            let mut results: Vec<Result<(), TxnError>> = Vec::new();
                            results.push(Ok(()));
                            proof {
                                assert(results_view(results@) =~= seq![
                                    Result::<(), ErrModel>::Ok(()),
                                ]);
                                assert(flush_step(
                                    snap,
                                    props_m,
                                    ms,
                                    i as int,
                                    staged_pre,
                                    results_pre,
                                    opt_err_view(assertion_failure),
                                    delta_pre,
                                ) == (FlushOutcome::ShortCircuited {
                                    results: seq![Result::<(), ErrModel>::Ok(())],
                                    old_values: delta_pre,
                                }));
                            }
                            return Ok(results);
                        }
                    }
                    if fatal {
                        return Err(e);
                    }
                    match &e {
                        TxnError::KeyIsLocked { .. } => {
                            locks.push(Err(e));
                            proof {
                                assert(results_view(locks@) =~= results_pre.push(
                                    Result::Err(locks@.last()->Err_0@),
                                ));
                            }
                        },
                        _ => {
                            // A deferred assertion failure: only the first
                            // one is remembered.
                            match assertion_failure {
                                Some(_) => {},
                                None => {
                                    assertion_failure = Some(e);
                                },
                            }
                        },
                    }
                },
            }
            i = i + 1;
        }
        match assertion_failure {
            Some(e) => {
                if locks.len() == 0 {
                    return Err(e);
                }
                // Per-key lock-contention entries were collected: they are
                // evidence of real concurrent activity and take precedence
                // over the data-integrity diagnostic, which is dropped.
                Ok(locks)
            },
            None => Ok(locks),
        }
    }

    /// Runs the whole command against a snapshot: records the command's
    /// timestamp in the process-wide high-water mark, runs the mutation loop
    /// with a fresh accumulator, and packages the write-set, the captured old
    /// values, and the per-key results. On a fatal error nothing is handed
    /// off.
    pub fn process_write(
        self,
        snapshot: &Snapshot,
        cm: &mut ConcurrencyManager,
        extra_op: ExtraOp,
    ) -> (r: Result<WriteResult, TxnError>)
        ensures
            final(cm).max_ts == if self.start_ts > old(cm).max_ts {
                self.start_ts
            } else {
                old(cm).max_ts
            },
            ({
                let outcome = flush_model(
                    snapshot@,
                    self.props_model(extra_op),
                    muts_view(self.mutations@),
                );
                match r {
                    Ok(wr) => {
                        &&& wr.rows == self.mutations@.len()
                        &&& wr.ctx == self.ctx
                        &&& wr.response_policy is OnApplied
                        &&& !wr.to_be_write.extra.one_pc
                        &&& !wr.to_be_write.extra.allowed_in_flashback
                        &&& match outcome {
                            FlushOutcome::Completed { results, staged, old_values } => {
                                &&& results_view(wr.per_key_results@) == results
                                &&& locks_view(wr.to_be_write.modifies@) == staged
                                &&& entries_view(wr.to_be_write.extra.old_values.entries@)
                                    == old_values
                            },
                            FlushOutcome::ShortCircuited { results, old_values } => {
                                &&& results_view(wr.per_key_results@) == results
                                &&& locks_view(wr.to_be_write.modifies@) == Seq::<
                                    LockModel,
                                >::empty()
                                &&& entries_view(wr.to_be_write.extra.old_values.entries@)
                                    == old_values
                            },
                            FlushOutcome::Aborted { .. } => false,
                        }
                    },
                    Err(e) => outcome matches FlushOutcome::Aborted { err } && e@ == err,
                }
            }),
    {
        let rows = self.mutations.len();
        cm.update_max_ts(self.start_ts);
        let mut txn = MvccTxn::new(self.start_ts);
        let mut old_values = OldValues::new();
        let res = self.flush(&mut txn, snapshot, &mut old_values, extra_op);
        match res {
            Ok(results) => {
                let modifies = txn.into_modifies();
                Ok(
                    WriteResult {
                        ctx: self.ctx,
                        to_be_write: WriteData {
                            modifies,
                            extra: TxnExtra {
                                old_values,
                                one_pc: false,
                                allowed_in_flashback: false,
                            },
                        },
                        rows,
                        per_key_results: results,
                        response_policy: ResponsePolicy::OnApplied,
                    },
                )
            },
            Err(e) => Err(e),
        }
    }
}

} // verus!
