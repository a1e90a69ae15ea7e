//! The service health report.
use vstd::prelude::*;

use crate::config::{AppConfig, Environment};
use crate::storage::writer::StorageWriterSnapshot;
use crate::text::string_of;

verus! {

/// The service's name in health reports.
pub const SERVICE_NAME: &'static str = "polymarket-backend";

/// The build that runs.
#[derive(Debug, Clone, PartialEq, Eq)]
pub struct BuildInfo {
    pub version: String,
}

/// How the runtime is configured.
#[derive(Debug, Clone, PartialEq, Eq)]
pub struct RuntimeInfo {
    pub environment: &'static str,
    pub database_configured: bool,
    pub supported_markets: Vec<String>,
}

/// What `/healthz` answers.
#[derive(Debug)]
pub struct HealthResponse {
    pub status: &'static str,
    pub service: &'static str,
    pub version: String,
    pub build: BuildInfo,
    pub environment: &'static str,
    pub database_configured: bool,
    pub supported_markets: Vec<String>,
    pub storage_writer: Option<StorageWriterSnapshot>,
    pub runtime: RuntimeInfo,
}

/// The environment's name.
pub open spec fn environment_name(e: Environment) -> Seq<char> {
    match e {
        Environment::Local => "local"@,
        Environment::Production => "production"@,
    }
}

fn copy_strings(v: &Vec<String>) -> (r: Vec<String>)
    ensures
        r@ == v@,
{
    let mut out: Vec<String> = Vec::new();
    let mut i: usize = 0;
    while i < v.len()
        invariant
            i <= v.len(),
            out@ == v@.subrange(0, i as int),
        decreases v.len() - i,
    {
        out.push(v[i].clone());
        i = i + 1;
        assert(out@ =~= v@.subrange(0, i as int));
    }
    assert(v@.subrange(0, i as int) =~= v@);
    out
}

impl HealthResponse {
    /// The health report of a configuration and, when one runs, the storage
    /// writer's snapshot.
    pub fn from_config(config: &AppConfig, storage_writer: Option<StorageWriterSnapshot>) -> (r: HealthResponse)
        ensures
            r.status@ == "ok"@,
            r.service@ == SERVICE_NAME@,
            r.version@ == config.app_version@,
            r.build.version@ == config.app_version@,
            r.environment@ == environment_name(config.environment),
            r.database_configured == config.database_url.is_some(),
            r.supported_markets@ == config.supported_markets@,
            r.storage_writer == storage_writer,
            r.runtime.environment@ == environment_name(config.environment),
            r.runtime.database_configured == config.database_url.is_some(),
            r.runtime.supported_markets@ == config.supported_markets@,
    {
        let environment = config.environment.as_str();
        let database_configured = config.database_configured();
        HealthResponse {
            status: "ok",
            service: SERVICE_NAME,
            version: config.app_version.clone(),
            build: BuildInfo { version: config.app_version.clone() },
            environment,
            database_configured,
            supported_markets: copy_strings(&config.supported_markets),
            storage_writer,
            runtime: RuntimeInfo {
                environment,
                database_configured,
                supported_markets: copy_strings(&config.supported_markets),
            },
        }
    }
}

} // verus!
