//! A caller-driven rate limiter: it runs a wrapped operation at once when at
//! least one interval has passed since the last completed run. A call that
//! lands during the cooldown is dropped and only marks a replay as pending;
//! the first call made once the cooldown has passed honors that mark by
//! running the operation after an internal delay; a call that arrives while
//! a run is in flight is dropped. No background timer fires on its own, so a
//! pending replay is lost if no further call ever arrives.
//!
//! The decision core is the [`Throttle`] state machine, which works on plain
//! millisecond timestamps handed in by the caller. Reading the platform clock
//! and sleeping through a delay are left to the host around the library; the
//! [`now`] function is the thread-based host's clock.

use vstd::prelude::*;

pub mod laws;
pub mod throttle;

pub use throttle::{CallAction, Throttle, ThrottleView};

verus! {

/// Relies on `std::time::SystemTime::now`: the wall clock, read as whole
/// milliseconds since the Unix epoch and truncated to `i32`. Nothing is
/// promised of the value: the wall clock may stand still, jump, or run
/// backwards, so every user of a reading must say what holds whatever
/// value came back. A clock that reads before the epoch is a fatal
/// configuration error and aborts.
#[verifier::external_body]
pub fn now() -> i32 {
    let since_epoch = std::time::SystemTime::now()
        .duration_since(std::time::UNIX_EPOCH)
        .expect("the clock must read on or after the epoch");
    since_epoch.as_millis() as i32
}

} // verus!
