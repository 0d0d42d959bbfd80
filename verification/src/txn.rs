//! The per-command transaction accumulator and the process-wide concurrency
//! manager, plus the container for captured old values.

use vstd::prelude::*;

use crate::model::{entries_view, locks_view, staged_contains};
use crate::types::{LockRecord, MutationType, OldValue, OldValueEntry, bytes_eq};

verus! {

/// Process-wide tracker of the highest timestamp observed across concurrent
/// reads and writes.
pub struct ConcurrencyManager {
    pub max_ts: u64,
}

impl ConcurrencyManager {
    /// A fresh tracker that has observed `start_ts`.
    pub fn new(start_ts: u64) -> (r: ConcurrencyManager)
        ensures
            r.max_ts == start_ts,
    {
        ConcurrencyManager { max_ts: start_ts }
    }

    /// Records that `ts` has been observed: the high-water mark never moves
    /// backwards.
    pub fn update_max_ts(&mut self, ts: u64)
        ensures
            final(self).max_ts == if ts > old(self).max_ts {
                ts
            } else {
                old(self).max_ts
            },
    {
        if ts > self.max_ts {
            self.max_ts = ts;
        }
    }
}

/// Mutable, per-command, append-only accumulator of pending key
/// modifications, scoped to one start timestamp. Each staged modification is
/// a lock record carrying the staged value, so a write never exists without
/// its lock record.
pub struct MvccTxn {
    pub start_ts: u64,
    pub modifies: Vec<LockRecord>,
}

impl MvccTxn {
    /// The staged write-set, as lock models.
    pub open spec fn staged(&self) -> Seq<crate::types::LockModel> {
        locks_view(self.modifies@)
    }

    /// A fresh, empty accumulator for one command.
    pub fn new(start_ts: u64) -> (r: MvccTxn)
        ensures
            r.start_ts == start_ts,
            r.staged() =~= Seq::empty(),
    {
        let r = MvccTxn { start_ts, modifies: Vec::new() };
        proof {
            assert(r.staged() =~= Seq::empty());
        }
        r
    }

    /// Appends one lock record to the staged write-set.
    pub fn put_lock(&mut self, lock: LockRecord)
        ensures
            final(self).start_ts == old(self).start_ts,
            final(self).staged() =~= old(self).staged().push(lock@),
    {
        let ghost before = self.staged();
        self.modifies.push(lock);
        proof {
            assert(self.staged() =~= before.push(self.modifies@.last()@));
        }
    }

    /// Whether a lock for `key` was already staged by this command.
    pub fn has_staged_lock(&self, key: &Vec<u8>) -> (r: bool)
        ensures
            r == staged_contains(self.staged(), key@),
    {
        let n = self.modifies.len();
        let mut i: usize = 0;
        while i < n
            invariant
                n == self.modifies.len(),
                0 <= i <= n,
                forall|j: int| 0 <= j < i ==> self.staged()[j].key != key@,
            decreases n - i,
        {
            if bytes_eq(&self.modifies[i].key, key) {
                proof {
                    assert(self.staged()[i as int].key == key@);
                }
                return true;
            }
            i = i + 1;
        }
        false
    }

    /// Discards everything staged so far; used when an idempotent retry is
    /// confirmed and the previously established result is answered instead.
    pub fn clear(&mut self)
        ensures
            final(self).start_ts == old(self).start_ts,
            final(self).staged() =~= Seq::<crate::types::LockModel>::empty(),
    {
        self.modifies = Vec::new();
        proof {
            assert(self.staged() =~= Seq::<crate::types::LockModel>::empty());
        }
    }

    /// Hands the staged write-set to the caller; the accumulator is consumed.
    pub fn into_modifies(self) -> (r: Vec<LockRecord>)
        ensures
            locks_view(r@) == self.staged(),
    {
        self.modifies
    }
}

/// Captured old values, keyed by `(key, start_ts)`, owned by the command for
/// the duration of processing.
pub struct OldValues {
    pub entries: Vec<OldValueEntry>,
}

impl OldValues {
    /// The captured entries, as models.
    pub open spec fn entries_model(&self) -> Seq<crate::types::OldValueEntryModel> {
        entries_view(self.entries@)
    }

    /// No old values captured yet.
    pub fn new() -> (r: OldValues)
        ensures
            r.entries_model() =~= Seq::empty(),
    {
        let r = OldValues { entries: Vec::new() };
        proof {
            assert(r.entries_model() =~= Seq::empty());
        }
        r
    }
}

/// Records an old value when the prewrite resolved one; an unresolved old
/// value (as on an idempotent duplicate) records nothing.
pub fn insert_old_value_if_resolved(
    old_values: &mut OldValues,
    key: Vec<u8>,
    start_ts: u64,
    old_value: Option<OldValue>,
    mutation_type: MutationType,
)
    ensures
        final(old_values).entries_model() =~= match old_value {
            Some(v) => old(old_values).entries_model().push(
                crate::types::OldValueEntryModel {
                    key: key@,
                    start_ts,
                    old_value: v@,
                    mutation_type,
                },
            ),
            None => old(old_values).entries_model(),
        },
{
    match old_value {
        Some(v) => {
            let ghost before = old_values.entries_model();
            old_values.entries.push(
                OldValueEntry { key, start_ts, old_value: v, mutation_type },
            );
            proof {
                assert(old_values.entries_model() =~= before.push(
                    old_values.entries@.last()@,
                ));
            }
        },
        None => {},
    }
}

} // verus!
