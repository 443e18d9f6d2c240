//! Messages exchanged with the controller's REST surface.

pub mod client;
pub mod operator;

use vstd::prelude::*;

verus! {

/// Outcome of a call that returns no data.
#[derive(Clone, Debug)]
pub struct StandardResponse {
    pub success: bool,
    pub message: Option<String>,
}

} // verus!
