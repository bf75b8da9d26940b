//! Access to the flags shared between a terminal pane and the thread that
//! reads its output.

use vstd::prelude::*;

use std::sync::atomic::AtomicBool;
use std::sync::atomic::AtomicU8;
use std::sync::atomic::Ordering;

verus! {

/// Keyboard protocol flags, none set yet.
pub(crate) fn new_flags() -> AtomicU8 {
    AtomicU8::new(0)
}

/// Records the keyboard protocol flags.
pub(crate) fn store_flags(flags: &AtomicU8, v: u8) {
    flags.store(v, Ordering::SeqCst);
}

/// The keyboard protocol flags last recorded (by any thread).
pub(crate) fn load_flags(flags: &AtomicU8) -> u8 {
    flags.load(Ordering::SeqCst)
}

/// Records a mode flag.
pub(crate) fn store_bool(flag: &AtomicBool, v: bool) {
    flag.store(v, Ordering::SeqCst);
}

/// A mode flag as last recorded (by any thread).
pub(crate) fn load_bool(flag: &AtomicBool) -> bool {
    flag.load(Ordering::SeqCst)
}

} // verus!
