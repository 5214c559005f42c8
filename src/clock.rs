use vstd::prelude::*;

verus! {

#[verifier::external_type_specification]
#[verifier::external_body]
pub struct ExSystemTime(std::time::SystemTime);

/// Relies on `std::time::SystemTime::now`: a reading of the system clock.
/// Nothing is promised of it.
#[verifier::external_body]
fn system_now() -> std::time::SystemTime {
    std::time::SystemTime::now()
}

/// Relies on `SystemTime::duration_since(UNIX_EPOCH)`: the whole seconds from
/// the Unix epoch to `t`, or `None` when `t` lies before the epoch. It
/// depends on the clock reading, so nothing more is promised.
#[verifier::external_body]
fn secs_since_epoch(t: &std::time::SystemTime) -> Option<u64> {
    match t.duration_since(std::time::UNIX_EPOCH) {
        Ok(d) => Some(d.as_secs()),
        Err(_) => None,
    }
}

/// The current time in whole seconds since the Unix epoch; `None` when the
/// clock reads before the epoch or past what an `i64` holds.
pub(crate) fn unix_now() -> (r: Option<i64>)
    ensures
        r matches Some(t) ==> t >= 0,
{
    let now = system_now();
    match secs_since_epoch(&now) {
        Some(s) => if s <= 9223372036854775807u64 {
            Some(s as i64)
        } else {
            None
        },
        None => None,
    }
}

} // verus!
