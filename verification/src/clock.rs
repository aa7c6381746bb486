//! Wall-clock timestamps, in whole seconds since the Unix epoch, as the
//! registry and backups record them.
use vstd::prelude::*;

use crate::text::{dec, push_dec_u64, string_from_chars};

verus! {

#[verifier::external_type_specification]
#[verifier::external_body]
pub struct ExSystemTime(std::time::SystemTime);

/// `SystemTime::now`: the current wall-clock time. Nothing is claimed of
/// the value; it depends on the machine's clock.
#[verifier::external_body]
fn system_time_now() -> std::time::SystemTime {
    std::time::SystemTime::now()
}

/// `SystemTime::duration_since(UNIX_EPOCH)`: how long after the epoch `t`
/// lies, or `None` for a time before it. Nothing is claimed of the value.
#[verifier::external_body]
fn since_unix_epoch(t: &std::time::SystemTime) -> Option<std::time::Duration> {
    t.duration_since(std::time::UNIX_EPOCH).ok()
}

/// `Duration::as_secs`: the whole seconds of a duration. Nothing is claimed
/// of the value; the duration is opaque here.
#[verifier::external_body]
fn whole_seconds(d: &std::time::Duration) -> u64 {
    d.as_secs()
}

/// `Duration::as_millis`: the whole milliseconds of a duration. Nothing is
/// claimed of the value; the duration is opaque here.
#[verifier::external_body]
fn whole_millis(d: &std::time::Duration) -> u128 {
    d.as_millis()
}

/// The current time in milliseconds since the epoch, cut to 64 bits as
/// `as u64` does; `0` when the clock reads a time before the epoch.
pub fn now_unix_ms() -> u64 {
    let now = system_time_now();
    match since_unix_epoch(&now) {
        Some(d) => {
            let ms = whole_millis(&d);
            #[verifier::truncate]
            (ms as u64)
        },
        None => 0,
    }
}

/// The current time in whole seconds since the epoch, `0` when the clock
/// reads a time before it.
pub fn unix_seconds_now() -> u64 {
    let now = system_time_now();
    match since_unix_epoch(&now) {
        Some(d) => whole_seconds(&d),
        None => 0,
    }
}

/// A timestamp: the decimal rendering of `secs`.
pub fn timestamp_from(secs: u64) -> (r: String)
    ensures
        r@ == dec(secs as nat),
{
    let mut v: Vec<char> = Vec::new();
    push_dec_u64(&mut v, secs);
    assert(v@ =~= dec(secs as nat));
    string_from_chars(&v)
}

/// The current time as a timestamp: a decimal count of seconds.
pub fn timestamp_string() -> (r: String)
    ensures
        exists|secs: nat| r@ == dec(secs),
{
    timestamp_from(unix_seconds_now())
}

} // verus!
