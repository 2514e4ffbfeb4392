//! The server's own settings.

use vstd::prelude::*;

use crate::text;

verus! {

/// How requests are served.
#[derive(Clone, Copy, Debug, PartialEq, Eq, Structural)]
pub enum Mode {
    /// By a pool of workers, each with a session of its own.
    Pool,
    /// Over one session, which is there to measure the pool against.
    Single,
}

/// The mode that the value of `PROXY_MODE` asks for, or what is wrong with it.
pub fn proxy_mode(value: Option<String>) -> (result: Result<Mode, String>)
    ensures
        match value {
            None => result == Ok::<Mode, String>(Mode::Pool),
            Some(given) => if given@ == "pool"@ {
                result == Ok::<Mode, String>(Mode::Pool)
            } else if given@ == "single"@ {
                result == Ok::<Mode, String>(Mode::Single)
            } else {
                result matches Err(message) && message@
                    == "PROXY_MODE must be 'pool' or 'single', got '"@ + given@ + "'"@
            },
        },
{
    let given = match value {
        Some(given) => given,
        None => return Ok(Mode::Pool),
    };
    if text::same_text(given.as_str(), "pool") {
        Ok(Mode::Pool)
    } else if text::same_text(given.as_str(), "single") {
        proof {
            reveal_strlit("pool");
            reveal_strlit("single");
        }
        Ok(Mode::Single)
    } else {
        Err(
            text::joined("PROXY_MODE must be 'pool' or 'single', got '", given.as_str(), "'"),
        )
    }
}

/// Is mutual TLS on? It is, unless the value of `PROXY_TLS` turns it off by name.
///
/// A server that silently accepts anonymous callers must be asked for.
pub fn tls_enabled(value: &Option<String>) -> (enabled: bool)
    ensures
        enabled == !(value matches Some(given) && given@ == "off"@),
{
    match value {
        Some(given) => !text::same_text(given.as_str(), "off"),
        None => true,
    }
}

/// The value of a setting, or its default.
pub fn or_default(value: Option<String>, default: &str) -> (setting: String)
    ensures
        setting@ == (match value {
            Some(given) => given@,
            None => default@,
        }),
{
    match value {
        Some(given) => given,
        None => default.to_owned(),
    }
}

/// Where the server listens where nothing else is configured.
pub const LISTEN_ADDR: &'static str = "0.0.0.0:50051";

/// Where the metrics are served where nothing else is configured.
pub const METRICS_ADDR: &'static str = "0.0.0.0:9090";

/// Where the certificates lie where nothing else is configured.
pub const CERT_DIR: &'static str = "certs";

/// Where the policy lies where nothing else is configured.
pub const AUTHZ_POLICY: &'static str = "policy/authz.toml";

/// The limits that are applied at the transport, before a request becomes a task.
#[derive(Clone, Copy, Debug, PartialEq, Eq, Structural)]
pub struct AdmissionConfig {
    /// How many requests a connection may have open at once.
    pub max_concurrent_streams: Option<u32>,
    /// How many requests of a connection may be worked on at once.
    pub concurrency_limit_per_connection: Option<usize>,
    /// How long a request may take, in milliseconds.
    pub request_timeout_ms: Option<u64>,
}

impl AdmissionConfig {
    /// The limits from the values of `MAX_CONCURRENT_STREAMS`, `CONCURRENCY_LIMIT_PER_CONNECTION`
    /// and `REQUEST_TIMEOUT_MS`. A value that is missing or is no number sets no limit.
    pub fn from_env(
        max_concurrent_streams: Option<String>,
        concurrency_limit_per_connection: Option<String>,
        request_timeout_ms: Option<String>,
    ) -> (config: AdmissionConfig)
        ensures
            config.max_concurrent_streams == (match text::setting(
                max_concurrent_streams,
                u32::MAX as u64,
            ) {
                Some(streams) => Some(streams as u32),
                None => None::<u32>,
            }),
            config.concurrency_limit_per_connection == (match text::setting(
                concurrency_limit_per_connection,
                usize::MAX as u64,
            ) {
                Some(limit) => Some(limit as usize),
                None => None::<usize>,
            }),
            config.request_timeout_ms == text::setting(request_timeout_ms, u64::MAX),
    {
        AdmissionConfig {
            max_concurrent_streams: match text::read_setting(
                &max_concurrent_streams,
                u32::MAX as u64,
            ) {
                Some(streams) => Some(streams as u32),
                None => None,
            },
            concurrency_limit_per_connection: match text::read_setting(
                &concurrency_limit_per_connection,
                usize::MAX as u64,
            ) {
                Some(limit) => Some(limit as usize),
                None => None,
            },
            request_timeout_ms: text::read_setting(&request_timeout_ms, u64::MAX),
        }
    }
}

} // verus!
