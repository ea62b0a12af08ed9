//! The resource fetcher's decision: a fetch succeeds only on HTTP status
//! exactly 200; any other status is a classified non-success failure, kept
//! apart from a transport failure so a caller can tell "resource missing or
//! forbidden" from "network unreachable". The transport itself is not the
//! library's business; callers hand in the status they observed.

use vstd::prelude::*;

verus! {

/// A classified failure of a single resource fetch.
pub enum FetchFailure {
    /// The network, name resolution or connection failed; the carried text
    /// describes the transport error.
    Transport(String),
    /// The server answered, but with the carried non-200 status.
    NonSuccessStatus(u16),
}

/// Classify an HTTP response status: only 200 is success, and every other
/// status is the non-success failure carrying that status.
pub fn classify_status(status: u16) -> (r: Result<(), FetchFailure>)
    ensures
        r is Ok <==> status == 200,
        r matches Err(f) ==> (f matches FetchFailure::NonSuccessStatus(s) && s == status),
{
    if status == 200 {
        Ok(())
    } else {
        Err(FetchFailure::NonSuccessStatus(status))
    }
}

} // verus!
