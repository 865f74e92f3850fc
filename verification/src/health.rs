//! The health service.
use vstd::prelude::*;

verus! {

/// The version that the health service reports.
pub const VERSION: &'static str = "0.1.0";

/// The health service.
#[derive(Debug, Clone, Copy, PartialEq, Eq)]
pub struct HealthSvc;

/// What a health check is answered.
#[derive(Debug, PartialEq, Eq)]
pub struct HealthCheckResponse {
    pub healthy: bool,
    pub version: String,
}

impl Default for HealthSvc {
    fn default() -> (r: HealthSvc)
        ensures
            r == HealthSvc,
    {
        HealthSvc
    }
}

impl HealthSvc {
    /// Answers a health check.
    pub fn check(&self) -> (r: HealthCheckResponse)
        ensures
            r.healthy,
            r.version@ == VERSION@,
    {
        HealthCheckResponse { healthy: true, version: VERSION.to_owned() }
    }
}

} // verus!
