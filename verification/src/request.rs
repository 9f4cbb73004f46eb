//! When a request that failed is made again.

use vstd::prelude::*;

verus! {

/// The time to wait before a request is made again, in milliseconds.
pub const RETRY_DELAY_MS: u64 = 100;

/// What follows a failed request: the number of failures to go on with,
/// where the request is made again, or nothing where it is given up.
/// `resp_count` is the number of failures before this one. A request is
/// given up at its fourth failure.
pub fn get(resp_count: u32) -> (r: Option<u32>)
    ensures
        r == if resp_count > 2 {
            None
        } else {
            Some((resp_count + 1) as u32)
        },
{
    if resp_count > 2 {
        None
    } else {
        Some(resp_count + 1)
    }
}

} // verus!
