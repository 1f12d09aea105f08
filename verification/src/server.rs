//! The remote-command surface of the server: its configuration and
//! health records, and the validation of command parameters, which
//! produces the exact error strings the clients match on.

use vstd::prelude::*;

use crate::router::Topic;

verus! {

/// Health check record.
pub struct HealthResponse {
    pub status: String,
    pub version: String,
    pub uptime_seconds: u64,
}

/// A healthy server's health record.
pub fn health_response(version: String, uptime_seconds: u64) -> (r: HealthResponse)
    ensures
        r.status@ == "ok"@,
        r.version == version,
        r.uptime_seconds == uptime_seconds,
{
    HealthResponse { status: String::from_str("ok"), version, uptime_seconds }
}

/// Server configuration.
pub struct ServerConfig {
    /// Host to bind to.
    pub host: String,
    /// Port to listen on.
    pub port: u16,
    /// Whether cross-origin requests from web clients are allowed.
    pub cors_enabled: bool,
    /// The origins allowed when they are.
    pub cors_origins: Vec<String>,
}

impl Default for ServerConfig {
    /// Listen on every interface on port 3000, allowing the local web
    /// origins.
    fn default() -> (r: ServerConfig)
        ensures
            r.host@ == "0.0.0.0"@,
            r.port == 3000,
            r.cors_enabled,
            r.cors_origins@.len() == 2,
            r.cors_origins@[0]@ == "http://localhost:3000"@,
            r.cors_origins@[1]@ == "http://127.0.0.1:3000"@,
    {
        let mut origins: Vec<String> = Vec::new();
        origins.push(String::from_str("http://localhost:3000"));
        origins.push(String::from_str("http://127.0.0.1:3000"));
        ServerConfig {
            host: String::from_str("0.0.0.0"),
            port: 3000,
            cors_enabled: true,
            cors_origins: origins,
        }
    }
}

/// The error reported for an absent command parameter.
pub open spec fn missing_param_msg(name: Seq<char>) -> Seq<char> {
    "Missing '"@ + name + "' parameter"@
}

/// Take a required command parameter, or report it missing by name.
pub fn require_param(value: Option<String>, name: &str) -> (r: Result<String, String>)
    ensures
        value matches Some(v) ==> r == Result::<String, String>::Ok(v),
        value is None ==> (r matches Err(e) && e@ == missing_param_msg(name@)),
{
    match value {
        Some(v) => Ok(v),
        None => {
            let mut m = String::from_str("Missing '");
            m.append(name);
            m.append("' parameter");
            Err(m)
        },
    }
}

/// The validated parameters of a provider-only command (connect,
/// disconnect, reconnect, metrics).
pub fn ws_provider_request(provider: Option<String>) -> (r: Result<String, String>)
    ensures
        provider matches Some(p) ==> r == Result::<String, String>::Ok(p),
        provider is None ==> (r matches Err(e) && e@ == missing_param_msg("provider"@)),
{
    require_param(provider, "provider")
}

/// The validated parameters of a subscribe or unsubscribe command; the
/// first missing parameter, in the order provider, symbol, channel, is
/// the one reported.
pub fn ws_subscription_request(
    provider: Option<String>,
    symbol: Option<String>,
    channel: Option<String>,
) -> (r: Result<Topic, String>)
    ensures
        provider is None ==> (r matches Err(e) && e@ == missing_param_msg("provider"@)),
        provider is Some && symbol is None ==> (r matches Err(e) && e@ == missing_param_msg(
            "symbol"@,
        )),
        provider is Some && symbol is Some && channel is None ==> (r matches Err(e) && e@
            == missing_param_msg("channel"@)),
        (provider is Some && symbol is Some && channel is Some) ==> (r matches Ok(t) && t.provider
            == provider->0 && t.symbol == symbol->0 && t.channel == channel->0),
{
    let p = match require_param(provider, "provider") {
        Ok(p) => p,
        Err(e) => {
            return Err(e);
        },
    };
    let s = match require_param(symbol, "symbol") {
        Ok(s) => s,
        Err(e) => {
            return Err(e);
        },
    };
    let c = match require_param(channel, "channel") {
        Ok(c) => c,
        Err(e) => {
            return Err(e);
        },
    };
    Ok(Topic { provider: p, channel: c, symbol: s })
}

} // verus!
