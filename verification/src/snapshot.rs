//! The snapshot a flush command reads: a read-only view of the locks held and
//! the committed versions as of the command's start. Each query is proved to
//! compute exactly what the model finders describe.

use vstd::prelude::*;

use crate::model::{
    SnapModel, commit_record_in, find_lock, has_committed_record, key_exists_in, latest_data_write,
    latest_write, locks_view, old_value_in, snap_wf, writes_view,
};
use crate::types::{CommitRecord, LockKind, LockRecord, OldValue, WriteKind, clone_bytes};

verus! {

/// One step of a forward scan over a prefix.
proof fn lemma_take_step<T>(s: Seq<T>, i: int)
    requires
        0 <= i < s.len(),
    ensures
        s.take(i + 1).drop_last() == s.take(i),
        s.take(i + 1).last() == s[i],
{
    assert(s.take(i + 1).drop_last() =~= s.take(i));
}

/// Read-only view of committed and locked versions as of a timestamp.
pub struct Snapshot {
    pub locks: Vec<LockRecord>,
    pub writes: Vec<CommitRecord>,
}

impl View for Snapshot {
    type V = SnapModel;

    open spec fn view(&self) -> SnapModel {
        SnapModel { locks: locks_view(self.locks@), writes: writes_view(self.writes@) }
    }
}

impl Snapshot {
    /// The store invariant this snapshot is expected to satisfy.
    pub open spec fn wf(&self) -> bool {
        snap_wf(self@)
    }

    /// The lock currently held on `key`, if any, as its timestamp and whether
    /// it is pessimistic.
    pub fn load_lock(&self, key: &Vec<u8>) -> (r: Option<(u64, bool)>)
        ensures
            match find_lock(self@.locks, key@) {
                Some(l) => r == Some((l.start_ts, l.kind is Pessimistic)),
                None => r is None,
            },
    {
        let n = self.locks.len();
        let mut found: Option<(u64, bool)> = None;
        let mut i: usize = 0;
        while i < n
            invariant
                n == self.locks.len(),
                0 <= i <= n,
                match find_lock(self@.locks.take(i as int), key@) {
                    Some(l) => found == Some((l.start_ts, l.kind is Pessimistic)),
                    None => found is None,
                },
            decreases n - i,
        {
            let rec = &self.locks[i];
            if crate::types::bytes_eq(&rec.key, key) {
                let pess = match rec.kind {
                    LockKind::Pessimistic => true,
                    _ => false,
                };
                found = Some((rec.start_ts, pess));
            }
            proof {
                lemma_take_step(self@.locks, i as int);
            }
            i = i + 1;
        }
        proof {
            assert(self@.locks.take(n as int) =~= self@.locks);
        }
        found
    }

    /// The greatest commit timestamp recorded for `key`, of any record kind,
    /// as the pair (start timestamp, commit timestamp).
    pub fn latest_commit(&self, key: &Vec<u8>) -> (r: Option<(u64, u64)>)
        ensures
            match latest_write(self@.writes, key@) {
                Some(w) => r == Some((w.start_ts, w.commit_ts)),
                None => r is None,
            },
    {
        let n = self.writes.len();
        let mut found: Option<(u64, u64)> = None;
        let mut i: usize = 0;
        while i < n
            invariant
                n == self.writes.len(),
                0 <= i <= n,
                match latest_write(self@.writes.take(i as int), key@) {
                    Some(w) => found == Some((w.start_ts, w.commit_ts)),
                    None => found is None,
                },
            decreases n - i,
        {
            let rec = &self.writes[i];
            if crate::types::bytes_eq(&rec.key, key) {
                found = match found {
                    Some((s, c)) => {
                        if rec.commit_ts > c {
                            Some((rec.start_ts, rec.commit_ts))
                        } else {
                            Some((s, c))
                        }
                    },
                    None => Some((rec.start_ts, rec.commit_ts)),
                };
            }
            proof {
                lemma_take_step(self@.writes, i as int);
            }
            i = i + 1;
        }
        proof {
            assert(self@.writes.take(n as int) =~= self@.writes);
        }
        found
    }

    /// Whether transaction `start_ts` already committed on `key`: the
    /// idempotent-retry test of a conflict or a lock.
    pub fn committed_record(&self, key: &Vec<u8>, start_ts: u64) -> (r: bool)
        ensures
            r == has_committed_record(self@.writes, key@, start_ts),
    {
        let n = self.writes.len();
        let mut found: Option<bool> = None;
        let mut i: usize = 0;
        while i < n
            invariant
                n == self.writes.len(),
                0 <= i <= n,
                match commit_record_in(self@.writes.take(i as int), key@, start_ts) {
                    Some(w) => found == Some(w.kind is Rollback),
                    None => found is None,
                },
            decreases n - i,
        {
            let rec = &self.writes[i];
            if rec.start_ts == start_ts && crate::types::bytes_eq(&rec.key, key) {
                let rb = match rec.kind {
                    WriteKind::Rollback => true,
                    _ => false,
                };
                found = Some(rb);
            }
            proof {
                lemma_take_step(self@.writes, i as int);
            }
            i = i + 1;
        }
        proof {
            assert(self@.writes.take(n as int) =~= self@.writes);
        }
        match found {
            Some(rb) => !rb,
            None => false,
        }
    }

    /// The index of the newest data record (put or delete) for `key`.
    fn latest_data_index(&self, key: &Vec<u8>) -> (r: Option<usize>)
        ensures
            match r {
                Some(i) => i < self.writes.len() && latest_data_write(self@.writes, key@)
                    == Some(self@.writes[i as int]),
                None => latest_data_write(self@.writes, key@) is None,
            },
    {
        let n = self.writes.len();
        let mut found: Option<usize> = None;
        let mut i: usize = 0;
        while i < n
            invariant
                n == self.writes.len(),
                0 <= i <= n,
                match found {
                    Some(b) => b < i && latest_data_write(self@.writes.take(i as int), key@)
                        == Some(self@.writes[b as int]),
                    None => latest_data_write(self@.writes.take(i as int), key@) is None,
                },
            decreases n - i,
        {
            let rec = &self.writes[i];
            let is_data = match rec.kind {
                WriteKind::Put { .. } => true,
                WriteKind::Delete => true,
                _ => false,
            };
            if is_data && crate::types::bytes_eq(&rec.key, key) {
                found = match found {
                    Some(b) => {
                        if rec.commit_ts > self.writes[b].commit_ts {
                            Some(i)
                        } else {
                            Some(b)
                        }
                    },
                    None => Some(i),
                };
            }
            proof {
                lemma_take_step(self@.writes, i as int);
            }
            i = i + 1;
        }
        proof {
            assert(self@.writes.take(n as int) =~= self@.writes);
        }
        found
    }

    /// Whether `key` holds a committed value.
    pub fn key_exists(&self, key: &Vec<u8>) -> (r: bool)
        ensures
            r == key_exists_in(self@.writes, key@),
    {
        match self.latest_data_index(key) {
            Some(i) => match &self.writes[i].kind {
                WriteKind::Put { .. } => true,
                _ => false,
            },
            None => false,
        }
    }

    /// The value visible at `key` before this transaction writes.
    pub fn old_value(&self, key: &Vec<u8>) -> (r: OldValue)
        ensures
            r@ == old_value_in(self@.writes, key@),
    {
        match self.latest_data_index(key) {
            Some(i) => match &self.writes[i].kind {
                WriteKind::Put { value } => OldValue::Value { value: clone_bytes(value) },
                _ => OldValue::NotExist,
            },
            None => OldValue::NotExist,
        }
    }
}

} // verus!
