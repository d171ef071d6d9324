//! Roles of the request/reply management session.
use vstd::prelude::*;

verus! {

/// Role of the controller that issues management requests.
pub const ROLE_CONTROLLER: u8 = 0;

/// Role of the cluster that executes them and replies.
pub const ROLE_CLUSTER: u8 = 1;

} // verus!
