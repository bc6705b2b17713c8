//! The registry as shared between the command path and the sweeper: many
//! readers or one writer at a time.

use vstd::prelude::*;
use vstd::rwlock::{RwLock, RwLockPredicate};

use crate::commands::{claim_for_restore, record_deletion, EraserError};
use crate::registry::{DeletionRecord, Registry};
use crate::retention::{is_expired, RETENTION_SECS};

verus! {

/// What every registry behind the lock satisfies.
pub struct WellFormed;

impl RwLockPredicate<Registry> for WellFormed {
    open spec fn inv(self, v: Registry) -> bool {
        v.wf()
    }
}

/// A handle on one registry, to be shared by reference between threads.
pub struct SharedRegistry {
    lock: RwLock<Registry, WellFormed>,
}

impl SharedRegistry {
    /// A shared handle on an empty registry.
    pub fn new() -> (r: SharedRegistry) {
        SharedRegistry { lock: RwLock::new(Registry::new(), Ghost(WellFormed)) }
    }

    /// The delete command's registry step, under the write lock: see
    /// `record_deletion`.
    pub fn record_deletion(&self, path: String, moved: Result<String, String>, now: u64) -> (r: Result<
        Option<DeletionRecord>,
        EraserError,
    >)
        ensures
            match moved {
                Ok(_) => r is Ok,
                Err(e) => r == Err::<Option<DeletionRecord>, _>(EraserError::Io(e)),
            },
    {
        let (mut registry, handle) = self.lock.acquire_write();
        let r = record_deletion(&mut registry, path, moved, now);
        handle.release_write(registry);
        r
    }

    /// The restore command's registry step, under the write lock: takes the
    /// record for `path` out, or fails with `NotFound`.
    pub fn claim_for_restore(&self, path: &String) -> (r: Result<DeletionRecord, EraserError>)
        ensures
            r is Err ==> r->Err_0 is NotFound,
    {
        let (mut registry, handle) = self.lock.acquire_write();
        let r = claim_for_restore(&mut registry, path);
        handle.release_write(registry);
        r
    }

    /// Number of records held now.
    pub fn len(&self) -> (r: usize) {
        let handle = self.lock.acquire_read();
        let r = handle.borrow().len();
        handle.release_read();
        r
    }

    /// One concurrent sweep pass at `now`. The keys of expired records are
    /// read under the read lock, which is then released; each is then taken
    /// under the write lock if its record is still there and still expired,
    /// so a record that a restore took, or a newer record for the same path,
    /// is left alone. The records taken are handed back for purging, each
    /// beside its key.
    pub fn sweep(&self, now: u64) -> (purged: Vec<(String, DeletionRecord)>)
        ensures
            forall|i: int| 0 <= i < purged@.len() ==> is_expired(#[trigger] purged@[i].1.created_at, now, RETENTION_SECS),
    {
        let read = self.lock.acquire_read();
        let keys = read.borrow().snapshot_expired(now, RETENTION_SECS);
        read.release_read();
        let mut purged: Vec<(String, DeletionRecord)> = Vec::new();
        let mut i: usize = 0;
        while i < keys.len()
            invariant
                i <= keys@.len(),
                forall|j: int| 0 <= j < purged@.len() ==> is_expired(#[trigger] purged@[j].1.created_at, now, RETENTION_SECS),
            decreases keys@.len() - i,
        {
            let (mut registry, handle) = self.lock.acquire_write();
            let taken = registry.remove_if_expired(&keys[i], now, RETENTION_SECS);
            handle.release_write(registry);
            match taken {
                Some(d) => {
                    purged.push((keys[i].clone(), d));
                },
                None => {},
            }
            i += 1;
        }
        purged
    }
}

} // verus!
