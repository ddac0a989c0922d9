//! Header names used on the internal gateway-to-profile-service hop.
//!
//! Constants rather than literals at each call site: a typo in a literal is a
//! silent authorization bypass, a typo in a constant is a compile error.

use vstd::prelude::*;

verus! {

/// Shared secret proving a request originated from the gateway rather than
/// from a client that discovered the profile service's port.
pub const INTERNAL_TOKEN: &'static str = "x-internal-token";

/// The authenticated user id, established by the gateway from a verified
/// token. The profile service treats it as ground truth only because it is
/// read after [`INTERNAL_TOKEN`] has been checked.
pub const USER_ID: &'static str = "x-user-id";

/// Correlates the log lines both services emit for one client request.
///
/// Accepted from the caller when present so a trace can span the client too,
/// and minted by the gateway otherwise.
pub const REQUEST_ID: &'static str = "x-request-id";

} // verus!
