//! The request-level policy of the scan-and-publish front end.
//!
//! By default the front end reports success to its caller whatever happened
//! downstream: a traversal failure skips the publish, a publish failure is
//! only logged.  That swallowing is isolated here behind an explicit policy
//! flag instead of being hardcoded in the request loop, so a deployment that
//! wants failures propagated can say so.

use vstd::prelude::*;

verus! {

/// The scan-and-publish request handler's policy state.
pub struct ExifReaderService {
    /// Report downstream failures to the remote caller instead of swallowing
    /// them.  Off by default: requests are best-effort.
    pub propagate_errors: bool,
}

impl ExifReaderService {
    /// A handler with the default policy: every request reports success.
    pub fn new() -> (s: ExifReaderService)
        ensures
            !s.propagate_errors,
    {
        ExifReaderService { propagate_errors: false }
    }

    /// Whether the request reports success to its caller, given how the scan
    /// and the publish ended.  Under the default policy this is always true;
    /// with propagation on, any downstream failure is reported.
    pub fn request_succeeds(&self, scan_failed: bool, publish_failed: bool) -> (r: bool)
        ensures
            r == (!self.propagate_errors || (!scan_failed && !publish_failed)),
    {
        !self.propagate_errors || (!scan_failed && !publish_failed)
    }
}

} // verus!
