//! Configuration records.  Reading them from a file is the caller's concern.

use vstd::prelude::*;

verus! {

/// Where the server listens.
#[derive(Debug, Clone)]
pub struct ServerConfig {
    pub address: String,
    pub port: u16,
}

/// Where the endpoint catalog lives by default.
#[derive(Debug, Clone)]
pub struct EndpointClientConfig {
    pub default_address: String,
}

/// How the orchestrator retries and falls back.
#[derive(Debug, Clone)]
pub struct AnalysisConfig {
    pub retry_attempts: u32,
    pub fallback_to_general: bool,
}

impl Default for AnalysisConfig {
    /// Three attempts, with the general-conversation fallback enabled.
    fn default() -> (r: AnalysisConfig)
        ensures
            r.retry_attempts == 3,
            r.fallback_to_general == true,
    {
        AnalysisConfig { retry_attempts: 3, fallback_to_general: true }
    }
}

} // verus!
