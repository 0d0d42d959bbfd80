//! The flat error taxonomy of the write path. Every conflict class a prewrite
//! can report is one variant with its associated data; callers pattern-match
//! the kind to decide on policy.

use vstd::prelude::*;

use crate::types::Assertion;

verus! {

/// Mathematical view of a transaction error.
#[verifier::ext_equal]
pub enum ErrModel {
    /// Another transaction already committed a newer version of the key.
    WriteConflict {
        start_ts: u64,
        conflict_start_ts: u64,
        conflict_commit_ts: u64,
        key: Seq<u8>,
        primary: Seq<u8>,
    },
    /// The key currently holds a lock of a different in-flight transaction.
    KeyIsLocked { key: Seq<u8>, lock_ts: u64 },
    /// An insert-if-absent or existence check found the key present.
    AlreadyExist { key: Seq<u8> },
    /// A declared existence precondition does not hold.
    AssertionFailed { start_ts: u64, key: Seq<u8>, assertion: Assertion },
    /// Structurally impossible for this optimistic command; fatal if observed.
    PessimisticLockNotFound { start_ts: u64, key: Seq<u8> },
    /// Structurally impossible for this non-deferred-commit command; fatal if
    /// observed.
    CommitTsTooLarge { start_ts: u64, min_commit_ts: u64 },
}

/// An error of the write path, classified so that the flush policy can react
/// per kind.
pub enum TxnError {
    WriteConflict {
        start_ts: u64,
        conflict_start_ts: u64,
        conflict_commit_ts: u64,
        key: Vec<u8>,
        primary: Vec<u8>,
    },
    KeyIsLocked { key: Vec<u8>, lock_ts: u64 },
    AlreadyExist { key: Vec<u8> },
    AssertionFailed { start_ts: u64, key: Vec<u8>, assertion: Assertion },
    PessimisticLockNotFound { start_ts: u64, key: Vec<u8> },
    CommitTsTooLarge { start_ts: u64, min_commit_ts: u64 },
}

impl View for TxnError {
    type V = ErrModel;

    open spec fn view(&self) -> ErrModel {
        match self {
            TxnError::WriteConflict { start_ts, conflict_start_ts, conflict_commit_ts, key, primary } => ErrModel::WriteConflict {
                start_ts: *start_ts,
                conflict_start_ts: *conflict_start_ts,
                conflict_commit_ts: *conflict_commit_ts,
                key: key@,
                primary: primary@,
            },
            TxnError::KeyIsLocked { key, lock_ts } => ErrModel::KeyIsLocked {
                key: key@,
                lock_ts: *lock_ts,
            },
            TxnError::AlreadyExist { key } => ErrModel::AlreadyExist { key: key@ },
            TxnError::AssertionFailed { start_ts, key, assertion } => ErrModel::AssertionFailed {
                start_ts: *start_ts,
                key: key@,
                assertion: *assertion,
            },
            TxnError::PessimisticLockNotFound { start_ts, key } => ErrModel::PessimisticLockNotFound {
                start_ts: *start_ts,
                key: key@,
            },
            TxnError::CommitTsTooLarge { start_ts, min_commit_ts } => ErrModel::CommitTsTooLarge {
                start_ts: *start_ts,
                min_commit_ts: *min_commit_ts,
            },
        }
    }
}

} // verus!
