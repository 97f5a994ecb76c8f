//! The system identity the API reports.
use vstd::prelude::*;

use crate::config::Settings;

verus! {

/// Liveness answer.
#[derive(Debug, Clone, Copy)]
pub struct HealthResponse {
    pub status: &'static str,
}

/// Product, release and API identity.
#[derive(Debug, Clone)]
pub struct InfoResponse {
    pub product: &'static str,
    pub version: String,
    pub status: &'static str,
    pub api: &'static str,
}

/// The liveness answer.
pub fn health_response() -> (r: HealthResponse)
    ensures
        r.status@ == "healthy"@,
{
    HealthResponse { status: "healthy" }
}

/// The identity answer: the PhotoOS product with the configured release.
pub fn info_response(settings: &Settings) -> (r: InfoResponse)
    ensures
        r.product@ == "PhotoOS Server"@,
        r.version@ == settings.release.version@,
        r.status@ == "running"@,
        r.api@ == "v1"@,
{
    InfoResponse {
        product: "PhotoOS Server",
        version: settings.release.version.clone(),
        status: "running",
        api: "v1",
    }
}

} // verus!
