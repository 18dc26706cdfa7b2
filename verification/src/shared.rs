//! State that the mining threads share: the current job, the stop flag and the hash counter.

use crate::mining::MiningJob;
use std::sync::atomic::Ordering;
use std::sync::atomic::{AtomicBool, AtomicU64};
use std::sync::Arc;
use vstd::prelude::*;
use vstd::rwlock::{RwLock, RwLockPredicate};

verus! {

/// `Arc::clone`: a new handle to the same value.
#[verifier::external_body]
fn arc_clone<T>(a: &Arc<T>) -> (r: Arc<T>)
    ensures
        r == *a,
{
    Arc::clone(a)
}

/// The lock of an `ArcSwap` admits any value.
pub struct AnyValue;

impl<T> RwLockPredicate<Arc<T>> for AnyValue {
    open spec fn inv(self, v: Arc<T>) -> bool {
        true
    }
}

/// A shared slot holding an `Arc<T>` that readers load and a writer replaces.
pub struct ArcSwap<T> {
    inner: RwLock<Arc<T>, AnyValue>,
}

impl<T> ArcSwap<T> {
    /// A slot holding `v`.
    pub fn new(v: Arc<T>) -> Self {
        ArcSwap { inner: RwLock::new(v, Ghost(AnyValue)) }
    }

    /// A handle to the value the slot holds now.
    pub fn load(&self) -> Arc<T> {
        let handle = self.inner.acquire_read();
        let v = arc_clone(handle.borrow());
        handle.release_read();
        v
    }

    /// Replaces the value the slot holds.
    pub fn store(&self, v: Arc<T>) {
        let (_previous, handle) = self.inner.acquire_write();
        handle.release_write(v);
    }
}

/// Shared mining state — workers swap the `Arc<MiningJob>` when the template refreshes.
pub struct MiningState {
    job: ArcSwap<MiningJob>,
    stop: AtomicBool,
    hashes: AtomicU64,
}

impl MiningState {
    /// State for a first job, not stopped, no hashes counted.
    pub fn new(job: Arc<MiningJob>) -> Self {
        MiningState { job: ArcSwap::new(job), stop: AtomicBool::new(false), hashes: AtomicU64::new(0) }
    }

    /// The current job.
    pub fn job(&self) -> Arc<MiningJob> {
        self.job.load()
    }

    /// Publishes a new job to the workers.
    pub fn replace_job(&self, job: Arc<MiningJob>) {
        self.job.store(job)
    }

    /// Asks every thread to stop.
    pub fn request_stop(&self) {
        self.stop.store(true, Ordering::Relaxed)
    }

    /// Whether a stop was requested.
    pub fn stop_requested(&self) -> bool {
        self.stop.load(Ordering::Relaxed)
    }

    /// Adds to the global hash counter.
    pub fn add_hashes(&self, n: u64) {
        self.hashes.fetch_add(n, Ordering::Relaxed);
    }

    /// Hashes counted so far.
    pub fn total_hashes(&self) -> u64 {
        self.hashes.load(Ordering::Relaxed)
    }
}

} // verus!
