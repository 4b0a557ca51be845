//! The answer to a health check.
use vstd::prelude::*;

verus! {

/// What the service says of itself when asked whether it is alive.
#[derive(Debug, Clone)]
pub struct Healthcheck {
    pub status: String,
    pub version: String,
    pub build_time: Option<String>,
    pub server_time: String,
}

} // verus!
