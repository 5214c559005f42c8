use vstd::prelude::*;

verus! {

/// Seconds that must pass between two posts.
pub const RATE_LIMIT_SECONDS: u64 = 60;

/// Seconds left before the next post is allowed, given the whole seconds
/// since the last post (`None`: no post yet); `None` when posting is allowed.
pub fn check_rate_limit(elapsed_secs: Option<u64>) -> (r: Option<u64>)
    ensures
        match elapsed_secs {
            Some(e) => if e < RATE_LIMIT_SECONDS {
                r == Some((RATE_LIMIT_SECONDS - e) as u64)
            } else {
                r is None
            },
            None => r is None,
        },
{
    match elapsed_secs {
        Some(e) => if e < RATE_LIMIT_SECONDS {
            Some(RATE_LIMIT_SECONDS - e)
        } else {
            None
        },
        None => None,
    }
}

} // verus!
