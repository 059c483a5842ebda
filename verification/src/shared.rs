//! The registry as process-wide shared state: one `Registry` behind a
//! verified read-write lock.
//!
//! Every operation acquires the lock, performs one registry operation
//! under it, and releases it, so concurrent claim requests, the poller and
//! the sweeper each act as one atomic step in some serialization order,
//! and the lock invariant — the registry's well-formedness — holds between
//! any two steps. In particular two concurrent claims for the same
//! identifier serialize, and by `Registry::insert`'s contract the one that
//! runs second finds the key present and is rejected: exactly one
//! succeeds, whatever the scheduling. No lock is held across a probe call
//! or any transport I/O; callers hand in the probe output and the current
//! time as plain values.

use vstd::prelude::*;

use vstd::rwlock::RwLock;

use crate::api;
use crate::api::ResponseStatus;
use crate::poller;
use crate::registry::{Registry, UserSnapshot};

verus! {

/// A device-claim registry shared between concurrent tasks.
pub struct SharedRegistry {
    lock: RwLock<Registry, spec_fn(Registry) -> bool>,
}

impl SharedRegistry {
    /// The lock stores exactly the well-formed registries.
    pub closed spec fn wf(&self) -> bool {
        forall|r: Registry| self.lock.inv(r) == r.wf()
    }

    /// A shared registry starts empty.
    pub fn new() -> (s: SharedRegistry)
        ensures
            s.wf(),
    {
        SharedRegistry { lock: RwLock::new(Registry::new(), Ghost(|r: Registry| r.wf())) }
    }

    /// Claim a device, as one atomic step against the shared registry:
    /// the claim succeeds if and only if, at this step's place in the
    /// serialization order, the identifier is unclaimed; a duplicate is
    /// reported as a normal business outcome and mutates nothing.
    pub fn claim(&self, mac_address: String, name: String, now: u64) -> (r: ResponseStatus<
        String,
    >)
        requires
            self.wf(),
        ensures
            r.status ==> r.data@ == "ok"@,
            !r.status ==> r.data@ == "Device already claimed"@,
            r.timestamp == Some(now),
    {
        let (mut reg, handle) = self.lock.acquire_write();
        let response = api::claim(&mut reg, mac_address, name, now);
        handle.release_write(reg);
        response
    }

    /// A consistent point-in-time listing of the current claims: taken
    /// under the read lock, so no partially-updated record is ever seen,
    /// and no identifier is listed twice.
    pub fn list(&self) -> (r: ResponseStatus<Vec<(String, UserSnapshot)>>)
        requires
            self.wf(),
        ensures
            r.status,
            r.timestamp is None,
            forall|i: int, j: int| 0 <= i < j < r.data@.len() ==> r.data@[i].0@ != r.data@[j].0@,
    {
        let read_handle = self.lock.acquire_read();
        let response = api::list(read_handle.borrow());
        read_handle.release_read();
        response
    }

    /// One polling step against the shared registry: mark every
    /// registered identifier that occurs in the probe output as seen at
    /// `now`. Runs under the write lock as one atomic step; `last_seen`
    /// never regresses and nothing is added or removed.
    pub fn refresh_from_probe(&self, probe_output: &str, now: u64)
        requires
            self.wf(),
    {
        let (mut reg, handle) = self.lock.acquire_write();
        poller::refresh_from_probe(&mut reg, probe_output, now);
        handle.release_write(reg);
    }

    /// One sweep against the shared registry: remove every claim stale at
    /// `now` with respect to `threshold_age` and return the identifiers
    /// removed, each exactly once. The staleness judgement and the
    /// removal run under one write-lock acquisition, so a concurrent
    /// refresh is never lost in between.
    pub fn evict_stale(&self, threshold_age: u64, now: u64) -> (removed: Vec<String>)
        requires
            self.wf(),
        ensures
            forall|i: int, j: int| 0 <= i < j < removed@.len() ==> removed@[i]@ != removed@[j]@,
    {
        let (mut reg, handle) = self.lock.acquire_write();
        let removed = reg.evict_stale(threshold_age, now);
        handle.release_write(reg);
        removed
    }
}

} // verus!
