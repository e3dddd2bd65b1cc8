//! The wall clock of the desktop app, in milliseconds since the Unix epoch,
//! and the window labels made from it.

use vstd::prelude::*;
use std::time::{Duration, SystemTime};
use crate::text::{decimal, push_decimal};

verus! {

#[verifier::external_type_specification]
#[verifier::external_body]
pub struct ExSystemTime(std::time::SystemTime);

/// `SystemTime::now`. Nothing is claimed of the time it reads.
#[verifier::external_body]
fn system_now() -> SystemTime {
    SystemTime::now()
}

/// `SystemTime::duration_since` the Unix epoch; `None` where std returns an
/// error (a time before the epoch). Nothing is claimed of the duration.
#[verifier::external_body]
fn since_epoch(t: &SystemTime) -> Option<Duration> {
    t.duration_since(std::time::UNIX_EPOCH).ok()
}

/// `Duration::as_millis`. Nothing is claimed: the duration is opaque here.
#[verifier::external_body]
fn whole_millis(d: &Duration) -> u128 {
    d.as_millis()
}

/// Milliseconds as a `u64`, cut to 64 bits as `as u64` does; 0 when the
/// clock stood before the epoch.
pub open spec fn millis_or_zero(m: Option<u128>) -> u64 {
    match m {
        Some(v) => (v % 0x1_0000_0000_0000_0000) as u64,
        None => 0,
    }
}

/// Turns the milliseconds read off the clock into the app's timestamp.
pub fn epoch_millis_u64(m: Option<u128>) -> (r: u64)
    ensures
        r == millis_or_zero(m),
{
    match m {
        Some(v) => (v % 0x1_0000_0000_0000_0000) as u64,
        None => 0,
    }
}

/// Milliseconds since the Unix epoch by the system clock, or 0 when the
/// clock reads a time before it (the reading goes through
/// `epoch_millis_u64`). Nothing is stated of the value: it is the time.
pub fn js_sys_date_now_approx() -> (r: u64) {
    let now = system_now();
    let millis = match since_epoch(&now) {
        Some(d) => Some(whole_millis(&d)),
        None => None,
    };
    epoch_millis_u64(millis)
}

/// The label of a window opened for a local page at time `now_ms`.
pub fn local_page_label(now_ms: u64) -> (r: String)
    ensures
        r@ == "local-page-"@ + decimal(now_ms as nat),
{
    let mut s = "local-page-".to_owned();
    push_decimal(&mut s, now_ms);
    s
}

} // verus!
