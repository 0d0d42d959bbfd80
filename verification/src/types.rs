//! Data model of the write path: timestamps are plain `u64` values, keys and
//! values are byte vectors, and every exec type has a mathematical view used
//! by the contracts.

use vstd::prelude::*;

verus! {

/// Strictness of integrity-assertion checking for a whole command.
#[derive(Clone, Copy, PartialEq, Eq, Structural, Debug)]
pub enum AssertionLevel {
    Off,
    Fast,
    Strict,
}

/// A caller-declared existence precondition on one key.
#[derive(Clone, Copy, PartialEq, Eq, Structural, Debug)]
pub enum Assertion {
    Unset,
    Exist,
    NotExist,
}

/// The operation class of a mutation, recorded beside captured old values.
#[derive(Clone, Copy, PartialEq, Eq, Structural, Debug)]
pub enum MutationType {
    Put,
    Delete,
    Lock,
    Insertion,
    Other,
}

/// Whether the caller wants the value previously visible at each written key
/// captured for change-data capture.
#[derive(Clone, Copy, PartialEq, Eq, Structural, Debug)]
pub enum ExtraOp {
    Noop,
    ReadOldValue,
}

/// Fields of the request context that travel with a command.
#[derive(Clone, Copy, PartialEq, Eq, Structural, Debug)]
pub struct RequestContext {
    pub is_retry_request: bool,
    pub txn_source: u64,
}

/// The mutation kinds, used by the mathematical view of a mutation.
pub enum MutationKind {
    Put,
    Insert,
    Delete,
    Lock,
    CheckNotExists,
}

/// Mathematical view of a mutation: kind, key, value (empty for kinds that
/// carry none) and the declared assertion.
#[verifier::ext_equal]
pub struct MutationModel {
    pub kind: MutationKind,
    pub key: Seq<u8>,
    pub value: Seq<u8>,
    pub assertion: Assertion,
}

/// A tagged operation on one key. Exactly one key per mutation; a value is
/// present only for `Put` and `Insert`.
pub enum Mutation {
    Put { key: Vec<u8>, value: Vec<u8>, assertion: Assertion },
    Insert { key: Vec<u8>, value: Vec<u8>, assertion: Assertion },
    Delete { key: Vec<u8>, assertion: Assertion },
    Lock { key: Vec<u8>, assertion: Assertion },
    CheckNotExists { key: Vec<u8>, assertion: Assertion },
}

impl View for Mutation {
    type V = MutationModel;

    open spec fn view(&self) -> MutationModel {
        match self {
            Mutation::Put { key, value, assertion } => MutationModel {
                kind: MutationKind::Put,
                key: key@,
                value: value@,
                assertion: *assertion,
            },
            Mutation::Insert { key, value, assertion } => MutationModel {
                kind: MutationKind::Insert,
                key: key@,
                value: value@,
                assertion: *assertion,
            },
            Mutation::Delete { key, assertion } => MutationModel {
                kind: MutationKind::Delete,
                key: key@,
                value: Seq::empty(),
                assertion: *assertion,
            },
            Mutation::Lock { key, assertion } => MutationModel {
                kind: MutationKind::Lock,
                key: key@,
                value: Seq::empty(),
                assertion: *assertion,
            },
            Mutation::CheckNotExists { key, assertion } => MutationModel {
                kind: MutationKind::CheckNotExists,
                key: key@,
                value: Seq::empty(),
                assertion: *assertion,
            },
        }
    }
}

/// The operation class a mutation kind belongs to.
pub open spec fn mutation_type_of(kind: MutationKind) -> MutationType {
    match kind {
        MutationKind::Put => MutationType::Put,
        MutationKind::Insert => MutationType::Insertion,
        MutationKind::Delete => MutationType::Delete,
        MutationKind::Lock => MutationType::Lock,
        MutationKind::CheckNotExists => MutationType::Other,
    }
}

/// Kinds that demand the key to be absent before the write.
pub open spec fn kind_should_not_exist(kind: MutationKind) -> bool {
    match kind {
        MutationKind::Insert => true,
        MutationKind::CheckNotExists => true,
        _ => false,
    }
}

/// Kinds whose declared assertion is checked during prewrite.
pub open spec fn kind_checks_assertion(kind: MutationKind) -> bool {
    match kind {
        MutationKind::Put => true,
        MutationKind::Insert => true,
        MutationKind::Delete => true,
        _ => false,
    }
}

impl Mutation {
    /// The key this mutation operates on.
    pub fn key(&self) -> (r: &Vec<u8>)
        ensures
            r@ == self@.key,
    {
        match self {
            Mutation::Put { key, .. } => key,
            Mutation::Insert { key, .. } => key,
            Mutation::Delete { key, .. } => key,
            Mutation::Lock { key, .. } => key,
            Mutation::CheckNotExists { key, .. } => key,
        }
    }

    /// The declared assertion of this mutation.
    pub fn assertion(&self) -> (r: Assertion)
        ensures
            r == self@.assertion,
    {
        match self {
            Mutation::Put { assertion, .. } => *assertion,
            Mutation::Insert { assertion, .. } => *assertion,
            Mutation::Delete { assertion, .. } => *assertion,
            Mutation::Lock { assertion, .. } => *assertion,
            Mutation::CheckNotExists { assertion, .. } => *assertion,
        }
    }

    /// The operation class of this mutation.
    pub fn mutation_type(&self) -> (r: MutationType)
        ensures
            r == mutation_type_of(self@.kind),
    {
        match self {
            Mutation::Put { .. } => MutationType::Put,
            Mutation::Insert { .. } => MutationType::Insertion,
            Mutation::Delete { .. } => MutationType::Delete,
            Mutation::Lock { .. } => MutationType::Lock,
            Mutation::CheckNotExists { .. } => MutationType::Other,
        }
    }

    /// Whether this mutation demands the key to be absent.
    pub fn should_not_exist(&self) -> (r: bool)
        ensures
            r == kind_should_not_exist(self@.kind),
    {
        match self {
            Mutation::Insert { .. } => true,
            Mutation::CheckNotExists { .. } => true,
            _ => false,
        }
    }

    /// Whether this mutation's declared assertion is checked during prewrite.
    pub fn checks_assertion(&self) -> (r: bool)
        ensures
            r == kind_checks_assertion(self@.kind),
    {
        match self {
            Mutation::Put { .. } => true,
            Mutation::Insert { .. } => true,
            Mutation::Delete { .. } => true,
            _ => false,
        }
    }

    /// A write of `value` at `key`, with no declared assertion.
    pub fn make_put(key: Vec<u8>, value: Vec<u8>) -> (r: Mutation)
        ensures
            r@ == (MutationModel {
                kind: MutationKind::Put,
                key: key@,
                value: value@,
                assertion: Assertion::Unset,
            }),
    {
        Mutation::Put { key, value, assertion: Assertion::Unset }
    }

    /// An insert-if-absent of `value` at `key`, with no declared assertion.
    pub fn make_insert(key: Vec<u8>, value: Vec<u8>) -> (r: Mutation)
        ensures
            r@ == (MutationModel {
                kind: MutationKind::Insert,
                key: key@,
                value: value@,
                assertion: Assertion::Unset,
            }),
    {
        Mutation::Insert { key, value, assertion: Assertion::Unset }
    }

    /// A deletion of `key`, with no declared assertion.
    pub fn make_delete(key: Vec<u8>) -> (r: Mutation)
        ensures
            r@ == (MutationModel {
                kind: MutationKind::Delete,
                key: key@,
                value: Seq::empty(),
                assertion: Assertion::Unset,
            }),
    {
        Mutation::Delete { key, assertion: Assertion::Unset }
    }

    /// A lock-only mutation on `key`, with no declared assertion.
    pub fn make_lock(key: Vec<u8>) -> (r: Mutation)
        ensures
            r@ == (MutationModel {
                kind: MutationKind::Lock,
                key: key@,
                value: Seq::empty(),
                assertion: Assertion::Unset,
            }),
    {
        Mutation::Lock { key, assertion: Assertion::Unset }
    }

    /// An existence check on `key`, with no declared assertion.
    pub fn make_check_not_exists(key: Vec<u8>) -> (r: Mutation)
        ensures
            r@ == (MutationModel {
                kind: MutationKind::CheckNotExists,
                key: key@,
                value: Seq::empty(),
                assertion: Assertion::Unset,
            }),
    {
        Mutation::CheckNotExists { key, assertion: Assertion::Unset }
    }
}

/// What kind of intent a lock record stages.
pub enum LockKind {
    Put { value: Vec<u8> },
    Delete,
    Lock,
    Pessimistic,
}

/// Mathematical view of a lock kind.
#[verifier::ext_equal]
pub enum LockKindModel {
    Put { value: Seq<u8> },
    Delete,
    Lock,
    Pessimistic,
}

impl View for LockKind {
    type V = LockKindModel;

    open spec fn view(&self) -> LockKindModel {
        match self {
            LockKind::Put { value } => LockKindModel::Put { value: value@ },
            LockKind::Delete => LockKindModel::Delete,
            LockKind::Lock => LockKindModel::Lock,
            LockKind::Pessimistic => LockKindModel::Pessimistic,
        }
    }
}

/// Mathematical view of a lock record.
#[verifier::ext_equal]
pub struct LockModel {
    pub key: Seq<u8>,
    pub start_ts: u64,
    pub primary: Seq<u8>,
    pub ttl: u64,
    pub kind: LockKindModel,
}

/// An uncommitted write-intent on one key, owned by the transaction that
/// staged it and visible to every other transaction as a conflict source.
pub struct LockRecord {
    pub key: Vec<u8>,
    pub start_ts: u64,
    pub primary: Vec<u8>,
    pub ttl: u64,
    pub kind: LockKind,
}

impl View for LockRecord {
    type V = LockModel;

    open spec fn view(&self) -> LockModel {
        LockModel {
            key: self.key@,
            start_ts: self.start_ts,
            primary: self.primary@,
            ttl: self.ttl,
            kind: self.kind@,
        }
    }
}

/// What a commit record says happened to its key.
pub enum WriteKind {
    Put { value: Vec<u8> },
    Delete,
    Lock,
    Rollback,
}

/// Mathematical view of a commit record's kind.
#[verifier::ext_equal]
pub enum WriteKindModel {
    Put { value: Seq<u8> },
    Delete,
    Lock,
    Rollback,
}

impl View for WriteKind {
    type V = WriteKindModel;

    open spec fn view(&self) -> WriteKindModel {
        match self {
            WriteKind::Put { value } => WriteKindModel::Put { value: value@ },
            WriteKind::Delete => WriteKindModel::Delete,
            WriteKind::Lock => WriteKindModel::Lock,
            WriteKind::Rollback => WriteKindModel::Rollback,
        }
    }
}

/// Mathematical view of a commit record.
#[verifier::ext_equal]
pub struct CommitModel {
    pub key: Seq<u8>,
    pub start_ts: u64,
    pub commit_ts: u64,
    pub kind: WriteKindModel,
}

/// A committed (or rolled-back) version of one key: the transaction that
/// wrote it is identified by `start_ts`, and the version became visible at
/// `commit_ts`.
pub struct CommitRecord {
    pub key: Vec<u8>,
    pub start_ts: u64,
    pub commit_ts: u64,
    pub kind: WriteKind,
}

impl View for CommitRecord {
    type V = CommitModel;

    open spec fn view(&self) -> CommitModel {
        CommitModel {
            key: self.key@,
            start_ts: self.start_ts,
            commit_ts: self.commit_ts,
            kind: self.kind@,
        }
    }
}

/// The value visible at a key immediately before this transaction's write.
pub enum OldValue {
    NotExist,
    Value { value: Vec<u8> },
}

/// Mathematical view of an old value.
#[verifier::ext_equal]
pub enum OldValueModel {
    NotExist,
    Value { value: Seq<u8> },
}

impl View for OldValue {
    type V = OldValueModel;

    open spec fn view(&self) -> OldValueModel {
        match self {
            OldValue::NotExist => OldValueModel::NotExist,
            OldValue::Value { value } => OldValueModel::Value { value: value@ },
        }
    }
}

/// Mathematical view of a captured old value, keyed by `(key, start_ts)`.
#[verifier::ext_equal]
pub struct OldValueEntryModel {
    pub key: Seq<u8>,
    pub start_ts: u64,
    pub old_value: OldValueModel,
    pub mutation_type: MutationType,
}

/// A captured old value, keyed by `(key, start_ts)`, handed off with the
/// write-set metadata.
pub struct OldValueEntry {
    pub key: Vec<u8>,
    pub start_ts: u64,
    pub old_value: OldValue,
    pub mutation_type: MutationType,
}

impl View for OldValueEntry {
    type V = OldValueEntryModel;

    open spec fn view(&self) -> OldValueEntryModel {
        OldValueEntryModel {
            key: self.key@,
            start_ts: self.start_ts,
            old_value: self.old_value@,
            mutation_type: self.mutation_type,
        }
    }
}

/// Copies a byte vector; the copy denotes the same byte sequence.
pub fn clone_bytes(v: &Vec<u8>) -> (r: Vec<u8>)
    ensures
        r@ == v@,
{
    let r = v.clone();
    proof {
        assert(r@ =~= v@);
    }
    r
}

/// Byte-sequence equality on vectors.
pub fn bytes_eq(a: &Vec<u8>, b: &Vec<u8>) -> (r: bool)
    ensures
        r == (a@ == b@),
{
    if a.len() != b.len() {
        proof {
            assert(a@.len() != b@.len());
        }
        return false;
    }
    let n = a.len();
    let mut i: usize = 0;
    while i < n
        invariant
            n == a@.len(),
            n == b@.len(),
            0 <= i <= n,
            forall|j: int| 0 <= j < i ==> a@[j] == b@[j],
        decreases n - i,
    {
        if a[i] != b[i] {
            return false;
        }
        i = i + 1;
    }
    proof {
        assert(a@ =~= b@);
    }
    true
}

} // verus!
