//! The eviction sweeper's notification text.
//!
//! The embedding runs the sweep itself through `Registry::evict_stale`,
//! which judges staleness and removes entries in one atomic step; for every
//! identifier removed it emits one human-readable notification on its
//! outbound channel, best-effort. This module fixes the wording of that
//! notification.

use vstd::prelude::*;

use vstd::string::StringExecFns;

verus! {

/// The notification emitted when a device's claim is removed.
pub fn removal_message(identifier: &String) -> (r: String)
    ensures
        r@ == "user "@ + identifier@ + ", has been removed"@,
{
    let mut m = String::from_str("user ");
    m.append(identifier.as_str());
    m.concat(", has been removed")
}

} // verus!
