//! This module provides various utilities and abstractions to aid in unit
//! testing.
//!
//! While these structs and functions are made available in release mode, it
//! is not encouraged to use them. You should instead request the
//! functionality to be better exposed in official APIs.

use vstd::prelude::*;

use std::sync::atomic::{AtomicUsize, Ordering};
use std::sync::Arc;

verus! {

/// Amount of time to sleep when synchronizing threading.
///
/// Increase if tests fail when they should succeed too much.
pub const TEST_SLEEP_TIME_MILLIS: u64 = 500;

/// Provides an abstraction for testing whether or not a code path was taken,
/// and how many times.
///
/// All state for the Tattle is done using atomics, so locks are not needed
/// for thread-safety. Because other threads may bump the counter at any
/// moment, nothing can be promised about the values read back; the methods
/// only promise not to fail.
#[derive(Debug, Clone)]
pub struct Tattle(Arc<AtomicUsize>);

impl Tattle {
    /// Constructs a new Tattle.
    pub fn new() -> Tattle {
        Tattle(Arc::new(AtomicUsize::new(0)))
    }

    /// Increment the internal value of the Tattle.
    ///
    /// This is done atomically, so locks are not needed.
    pub fn call(&self) {
        self.0.fetch_add(1, Ordering::Relaxed);
    }

    /// Gets the internal value of the Tattle.
    ///
    /// This is done atomically, so locks are not needed.
    pub fn get(&self) -> usize {
        self.0.load(Ordering::Relaxed)
    }

    /// Compares the value of the Tattle before and after running the given
    /// closure.
    ///
    /// If the value changed, true is returned, else false.
    pub fn changed<F>(&self, closure: F) -> bool where F: FnOnce()
        requires
            closure.requires(()),
    {
        let old_count = self.get();
        closure();
        let new_count = self.get();
        old_count != new_count
    }
}

} // verus!
