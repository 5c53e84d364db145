//! The settings of the process, as plain values.

use vstd::prelude::*;

verus! {

/// How the server listens.
#[derive(Debug, Clone)]
pub struct Server {
    pub port: u16,
    pub body_limit: u64,
    pub timeout: u64,
}

/// Where the stores are kept.
#[derive(Debug, Clone)]
pub struct Database {
    pub url: String,
}

/// Everything the process reads once, at its start.
#[derive(Debug, Clone)]
pub struct DotEnvyConfig {
    pub server: Server,
    pub database: Database,
    pub secret: String,
    /// The most actors that may crew one mission.
    pub max_crew_per_mission: u32,
}

/// How tokens are signed and how long they live.
#[derive(Debug, Clone)]
pub struct JwtEnv {
    pub secret: String,
    pub lift_time_days: i64,
}

/// The account that avatars are uploaded to.
#[derive(Debug, Clone)]
pub struct CloudinaryEnv {
    pub cloud_name: String,
    pub api_key: String,
    pub api_secret: String,
}

} // verus!
