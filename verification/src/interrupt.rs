//! Interrupt flag shared between the JavaScript engine and its watchdogs.

use std::sync::atomic::{AtomicBool, Ordering};
use std::sync::Arc;
use vstd::prelude::*;

verus! {

/// Handle that can interrupt JavaScript execution: the engine's interrupt
/// handler polls the flag and aborts the running script while it is set.
///
/// The flag is an atomic shared with other threads (the watchdog thread sets
/// it, the engine thread reads it), so its current value is not part of any
/// contract: between two calls another thread may have changed it.
#[derive(Clone)]
pub struct InterruptHandle {
    should_stop: Arc<AtomicBool>,
}

impl InterruptHandle {
    /// A fresh handle whose flag is not set.
    pub fn new() -> (h: InterruptHandle) {
        InterruptHandle { should_stop: Arc::new(AtomicBool::new(false)) }
    }

    /// Sets (`true`) or lowers (`false`) the stop flag.
    pub fn set_should_stop(&self, v: bool) {
        self.should_stop.store(v, Ordering::SeqCst);
    }

    /// Reads the stop flag.
    pub fn is_stopped(&self) -> bool {
        self.should_stop.load(Ordering::SeqCst)
    }

    /// Lowers the stop flag.
    pub fn clear(&self) {
        self.should_stop.store(false, Ordering::SeqCst);
    }
}

} // verus!
