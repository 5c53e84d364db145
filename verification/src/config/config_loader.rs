//! Settings from the text that the environment gives.
//!
//! Reading the environment is the caller's part. What is here turns the text
//! that was read into settings, or says which text is not a number.

use vstd::prelude::*;
use crate::config::config_model::{CloudinaryEnv, Database, DotEnvyConfig, JwtEnv, Server};
use crate::config::stage::Stage;
use crate::decimal::{decimal_within, parse_i64, parse_u16, parse_u32, parse_u64};
use crate::domain::entities::crew_memberships::MAX_CREW_MEMBERSHIPS_PER_MISSION;

verus! {

/// Which setting is not the text of a number in its range.
#[derive(Clone, Copy, Debug, PartialEq, Eq, Structural)]
pub enum ConfigError {
    InvalidPort,
    InvalidBodyLimit,
    InvalidTimeout,
    InvalidCrewLimit,
    InvalidLifetime,
}

/// The numbers that the three server settings write, or the first of them that writes none.
pub open spec fn server_values(port: Seq<char>, body_limit: Seq<char>, timeout: Seq<char>) -> Result<
    (int, int, int),
    ConfigError,
> {
    if decimal_within(port, 0, u16::MAX as int) is None {
        Err(ConfigError::InvalidPort)
    } else if decimal_within(body_limit, 0, u64::MAX as int) is None {
        Err(ConfigError::InvalidBodyLimit)
    } else if decimal_within(timeout, 0, u64::MAX as int) is None {
        Err(ConfigError::InvalidTimeout)
    } else {
        Ok(
            (
                decimal_within(port, 0, u16::MAX as int)->0,
                decimal_within(body_limit, 0, u64::MAX as int)->0,
                decimal_within(timeout, 0, u64::MAX as int)->0,
            ),
        )
    }
}

/// The crew limit that the setting writes: ten where there is no setting.
pub open spec fn crew_limit(setting: Option<Seq<char>>) -> Option<int> {
    match setting {
        None => Some(MAX_CREW_MEMBERSHIPS_PER_MISSION as int),
        Some(text) => decimal_within(text, 0, u32::MAX as int),
    }
}

/// The text behind an optional setting.
pub open spec fn setting_text(setting: Option<&str>) -> Option<Seq<char>> {
    match setting {
        Some(text) => Some(text@),
        None => None,
    }
}

/// The server settings from their text.
pub fn server_from(port: &str, body_limit: &str, timeout: &str) -> (server: Result<
    Server,
    ConfigError,
>)
    ensures
        server matches Ok(found) ==> server_values(port@, body_limit@, timeout@) == Ok::<
            (int, int, int),
            ConfigError,
        >((found.port as int, found.body_limit as int, found.timeout as int)),
        server matches Err(refusal) ==> server_values(port@, body_limit@, timeout@) == Err::<
            (int, int, int),
            ConfigError,
        >(refusal),
{
    let port = match parse_u16(port) {
        Some(port) => port,
        None => {
            return Err(ConfigError::InvalidPort);
        },
    };
    let body_limit = match parse_u64(body_limit) {
        Some(body_limit) => body_limit,
        None => {
            return Err(ConfigError::InvalidBodyLimit);
        },
    };
    let timeout = match parse_u64(timeout) {
        Some(timeout) => timeout,
        None => {
            return Err(ConfigError::InvalidTimeout);
        },
    };
    Ok(Server { port, body_limit, timeout })
}

/// Everything the process is started with, from the text of its settings.
///
/// The crew limit is ten unless `max_crew_per_mission` sets another.
pub fn load(
    port: &str,
    body_limit: &str,
    timeout: &str,
    database_url: String,
    secret: String,
    max_crew_per_mission: Option<&str>,
) -> (config: Result<DotEnvyConfig, ConfigError>)
    ensures
        config is Ok <==> server_values(port@, body_limit@, timeout@) is Ok && crew_limit(
            setting_text(max_crew_per_mission),
        ) is Some,
        config matches Ok(found) ==> {
            &&& server_values(port@, body_limit@, timeout@) == Ok::<(int, int, int), ConfigError>(
                (
                    found.server.port as int,
                    found.server.body_limit as int,
                    found.server.timeout as int,
                ),
            )
            &&& found.database.url == database_url
            &&& found.secret == secret
            &&& crew_limit(setting_text(max_crew_per_mission)) == Some(
                found.max_crew_per_mission as int,
            )
        },
        config matches Err(refusal) ==> (if server_values(port@, body_limit@, timeout@) is Err {
            server_values(port@, body_limit@, timeout@) == Err::<(int, int, int), ConfigError>(
                refusal,
            )
        } else {
            refusal == ConfigError::InvalidCrewLimit
        }),
{
    let server = match server_from(port, body_limit, timeout) {
        Ok(server) => server,
        Err(refusal) => {
            return Err(refusal);
        },
    };
    let limit = match max_crew_per_mission {
        None => MAX_CREW_MEMBERSHIPS_PER_MISSION,
        Some(text) => match parse_u32(text) {
            Some(limit) => limit,
            None => {
                return Err(ConfigError::InvalidCrewLimit);
            },
        },
    };
    Ok(
        DotEnvyConfig {
            server,
            database: Database { url: database_url },
            secret,
            max_crew_per_mission: limit,
        },
    )
}

/// The stage that `stage` names, or the default stage where it names none.
pub fn get_stage(stage: &str) -> (found: Stage)
    ensures
        found == (match Stage::named(stage@) {
            Some(named) => named,
            None => Stage::Development,
        }),
{
    match Stage::from_str(stage) {
        Ok(found) => found,
        Err(_) => Stage::default(),
    }
}

/// The token settings from their text.
pub fn get_jwt_env(secret: String, lift_time_days: &str) -> (env: Result<JwtEnv, ConfigError>)
    ensures
        env is Ok <==> decimal_within(lift_time_days@, i64::MIN as int, i64::MAX as int) is Some,
        env matches Ok(found) ==> found.secret == secret && decimal_within(
            lift_time_days@,
            i64::MIN as int,
            i64::MAX as int,
        ) == Some(found.lift_time_days as int),
        env matches Err(refusal) ==> refusal == ConfigError::InvalidLifetime,
{
    match parse_i64(lift_time_days) {
        Some(days) => Ok(JwtEnv { secret, lift_time_days: days }),
        None => Err(ConfigError::InvalidLifetime),
    }
}

/// The upload account from its three settings.
pub fn get_cloudinary_env(cloud_name: String, api_key: String, api_secret: String) -> (env:
    CloudinaryEnv)
    ensures
        env.cloud_name == cloud_name,
        env.api_key == api_key,
        env.api_secret == api_secret,
{
    CloudinaryEnv { cloud_name, api_key, api_secret }
}

} // verus!
