//! Protocol versioning and hard wire limits.
//!
//! Three independent version axes (a missing epoch decodes as `0` everywhere):
//! the registration schema version of the discovery record, the wire protocol
//! range, and the compatibility epoch, which lets a client retire a stale
//! same-protocol host whose closed schema has drifted.

use vstd::prelude::*;

verus! {

/// Discovery-record schema version.
pub const REGISTRATION_SCHEMA_VERSION: u32 = 1;

/// Lowest wire protocol this peer speaks.
pub const PROTOCOL_MIN: u32 = 0;

/// Highest wire protocol this peer speaks.
pub const PROTOCOL_MAX: u32 = 0;

/// Closed-schema compatibility epoch.
pub const COMPATIBILITY_EPOCH: u32 = 10;

/// Maximum bytes in one frame, delimiter included. An oversized frame is fatal.
pub const MAX_FRAME_BYTES: usize = 98304;

/// Maximum simultaneously in-flight domain (non-`host.status`) requests.
pub const MAX_IN_FLIGHT_DOMAIN_REQUESTS: usize = 64;

/// The limits that both sides of a connection keep to.
pub proof fn law_limits()
    ensures
        MAX_FRAME_BYTES == 96 * 1024,
        MAX_IN_FLIGHT_DOMAIN_REQUESTS == 64,
        REGISTRATION_SCHEMA_VERSION == 1,
{
}

} // verus!
