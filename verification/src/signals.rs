//! The flag that a signal handler raises when the process is asked to end.

use std::sync::atomic::{AtomicBool, Ordering};
use vstd::prelude::*;

verus! {

/// An answer that reading the flag can give.
pub open spec fn is_read_from(asked: bool, flag: &AtomicBool) -> bool {
    call_ensures(AtomicBool::load, (flag, Ordering::Relaxed), asked)
}

/// Whether the process has been asked to end. The answer is read from the flag;
/// what the flag holds at that moment is up to the signal handler.
pub fn requested(flag: &AtomicBool) -> (asked: bool)
    ensures
        is_read_from(asked, flag),
{
    flag.load(Ordering::Relaxed)
}

} // verus!
