//! The configuration the gateway runs with. It is made once, before the
//! admission pipeline, and never changes.

use crate::text::{decimal, decimal_text, given_or, or_default, parse_port, port_of};
use vstd::prelude::*;
use vstd::string::StringExecFns;

verus! {

/// The credentials of the metrics provider.
#[derive(Debug, Clone)]
pub struct NewrelicConfig {
    api_key: String,
    account_id: i32,
}

impl NewrelicConfig {
    pub closed spec fn api_key(&self) -> Seq<char> {
        self.api_key@
    }

    pub closed spec fn account_id(&self) -> i32 {
        self.account_id
    }

    pub fn new(api_key: String, account_id: i32) -> (config: Self)
        ensures
            config.api_key() == api_key@,
            config.account_id() == account_id,
    {
        NewrelicConfig { api_key, account_id }
    }

    pub fn get_api_key(&self) -> (key: &str)
        ensures
            key@ == self.api_key(),
    {
        self.api_key.as_str()
    }

    pub fn get_account_id(&self) -> (id: i32)
        ensures
            id == self.account_id(),
    {
        self.account_id
    }
}

/// The mathematical content of a [`ServerConfig`]. The two timeouts are in
/// milliseconds.
pub ghost struct ServerConfigView {
    pub port: u16,
    pub buffer: usize,
    pub concurrency_limit: usize,
    pub rate_limit: u64,
    pub limiter_timeout: u64,
    pub timeout: u64,
    pub metrics: bool,
}

impl ServerConfigView {
    /// The five limits are all positive.
    pub open spec fn valid(self) -> bool {
        &&& self.buffer > 0
        &&& self.concurrency_limit > 0
        &&& self.rate_limit > 0
        &&& self.limiter_timeout > 0
        &&& self.timeout > 0
    }
}

/// The limits of the admission pipeline and the port to listen on.
///
/// `buffer` is the depth of the queue of pending requests,
/// `concurrency_limit` the number of requests that may be inside a handler at
/// once, `rate_limit` the number of requests admitted per window,
/// `limiter_timeout` the length of that window and the longest wait for a
/// token, `timeout` the longest a request may take. The two timeouts are in
/// milliseconds. `metrics` switches the metrics instrumentation on.
#[derive(Debug, Clone, Copy)]
pub struct ServerConfig {
    port: u16,
    buffer: usize,
    concurrency_limit: usize,
    rate_limit: u64,
    limiter_timeout: u64,
    timeout: u64,
    metrics: bool,
}

/// The configuration in effect where none is given.
pub open spec fn default_server_view() -> ServerConfigView {
    ServerConfigView {
        port: 8080,
        buffer: 10,
        concurrency_limit: 5,
        rate_limit: 5,
        limiter_timeout: 10_000,
        timeout: 10_000,
        metrics: false,
    }
}

/// The one-line description of the limits, with the timeouts in whole
/// seconds.
pub open spec fn describe_text(config: ServerConfigView) -> Seq<char> {
    "buffer: "@ + decimal_text(config.buffer as nat) + " | concurrency limit: "@ + decimal_text(
        config.concurrency_limit as nat,
    ) + " | rate limit: "@ + decimal_text(config.rate_limit as nat) + " | limiter timeout: "@
        + decimal_text((config.limiter_timeout / 1000) as nat) + "s | timeout: "@ + decimal_text(
        (config.timeout / 1000) as nat,
    ) + "s"@
}

impl View for ServerConfig {
    type V = ServerConfigView;

    closed spec fn view(&self) -> ServerConfigView {
        ServerConfigView {
            port: self.port,
            buffer: self.buffer,
            concurrency_limit: self.concurrency_limit,
            rate_limit: self.rate_limit,
            limiter_timeout: self.limiter_timeout,
            timeout: self.timeout,
            metrics: self.metrics,
        }
    }
}

impl ServerConfig {
    /// Every configuration that exists has five positive limits.
    #[verifier::type_invariant]
    pub open spec fn limits_are_positive(self) -> bool {
        self@.valid()
    }

    /// A configuration with the given values, or `None` where one of the
    /// five limits is zero.
    pub fn new(
        port: u16,
        buffer: usize,
        concurrency_limit: usize,
        rate_limit: u64,
        limiter_timeout: u64,
        timeout: u64,
        metrics: bool,
    ) -> (config: Option<Self>)
        ensures
            config is Some <==> (ServerConfigView {
                port,
                buffer,
                concurrency_limit,
                rate_limit,
                limiter_timeout,
                timeout,
                metrics,
            }).valid(),
            config matches Some(made) ==> made@ == (ServerConfigView {
                port,
                buffer,
                concurrency_limit,
                rate_limit,
                limiter_timeout,
                timeout,
                metrics,
            }),
    {
        if buffer == 0 || concurrency_limit == 0 || rate_limit == 0 || limiter_timeout == 0
            || timeout == 0 {
            None
        } else {
            Some(
                ServerConfig {
                    port,
                    buffer,
                    concurrency_limit,
                    rate_limit,
                    limiter_timeout,
                    timeout,
                    metrics,
                },
            )
        }
    }

    pub fn get_port(&self) -> (port: &u16)
        ensures
            *port == self@.port,
    {
        &self.port
    }

    pub fn get_buffer(&self) -> (buffer: &usize)
        ensures
            *buffer == self@.buffer,
    {
        &self.buffer
    }

    pub fn get_concurrency_limit(&self) -> (limit: &usize)
        ensures
            *limit == self@.concurrency_limit,
    {
        &self.concurrency_limit
    }

    pub fn get_rate_limit(&self) -> (limit: &u64)
        ensures
            *limit == self@.rate_limit,
    {
        &self.rate_limit
    }

    /// The limiter timeout in milliseconds.
    pub fn get_limiter_timeout(&self) -> (millis: &u64)
        ensures
            *millis == self@.limiter_timeout,
    {
        &self.limiter_timeout
    }

    /// The request timeout in milliseconds.
    pub fn get_timeout(&self) -> (millis: &u64)
        ensures
            *millis == self@.timeout,
    {
        &self.timeout
    }

    pub fn get_metrics(&self) -> (metrics: &bool)
        ensures
            *metrics == self@.metrics,
    {
        &self.metrics
    }

    /// The limits on one line, as they are logged at startup.
    pub fn to_string(&self) -> (text: String)
        ensures
            text@ == describe_text(self@),
    {
        let mut text = String::from_str("buffer: ");
        text.append(decimal(self.buffer as u64).as_str());
        text.append(" | concurrency limit: ");
        text.append(decimal(self.concurrency_limit as u64).as_str());
        text.append(" | rate limit: ");
        text.append(decimal(self.rate_limit).as_str());
        text.append(" | limiter timeout: ");
        text.append(decimal(self.limiter_timeout / 1000).as_str());
        text.append("s | timeout: ");
        text.append(decimal(self.timeout / 1000).as_str());
        text.append("s");
        text
    }
}

/// The server configuration in effect where none is given.
pub fn default_server_config() -> (config: ServerConfig)
    ensures
        config@ == default_server_view(),
        config@.valid(),
{
    ServerConfig {
        port: 8080,
        buffer: 10,
        concurrency_limit: 5,
        rate_limit: 5,
        limiter_timeout: 10_000,
        timeout: 10_000,
        metrics: false,
    }
}

/// The whole configuration: the provider's credentials and the server's
/// limits.
#[derive(Debug)]
pub struct Config {
    pub newrelic: NewrelicConfig,
    pub server: ServerConfig,
}

impl Config {
    /// The configuration for the given credentials, with the default server
    /// configuration where none is given.
    pub fn new(newrelic: NewrelicConfig, server: Option<ServerConfig>) -> (config: Self)
        ensures
            config.newrelic == newrelic,
            config.server@ == (match server {
                Some(given) => given@,
                None => default_server_view(),
            }),
    {
        let server = match server {
            Some(given) => given,
            None => default_server_config(),
        };
        Config { newrelic, server }
    }
}

/// Where the secret store is and how it is asked.
#[derive(Debug)]
pub struct VaultSettings {
    pub protocol: String,
    pub address: String,
    pub port: u16,
    pub path: String,
    pub token: String,
}

/// Why the settings of the secret store could not be made.
#[derive(Debug, Clone, Copy, PartialEq, Eq, Structural)]
pub enum SettingsError {
    /// The port is not a number up to 65535.
    BadPort,
    /// No token was given.
    MissingToken,
}

/// The port of the secret store: the one given, or 8200.
pub open spec fn vault_port_of(port: Option<String>) -> Option<u16> {
    port_of(given_or(port, "8200"@))
}

/// Whether settings can be made of what is given, and if not, why. A port
/// that cannot be read counts before a missing token.
pub open spec fn vault_settings_fault(port: Option<String>, token: Option<String>) -> Option<
    SettingsError,
> {
    if vault_port_of(port) is None {
        Some(SettingsError::BadPort)
    } else if token is None {
        Some(SettingsError::MissingToken)
    } else {
        None
    }
}

/// The settings of the secret store for what the environment gives: each
/// value as given, or its default where it is not.
pub fn vault_settings(
    protocol: Option<String>,
    address: Option<String>,
    port: Option<String>,
    path: Option<String>,
    token: Option<String>,
) -> (settings: Result<VaultSettings, SettingsError>)
    ensures
        match settings {
            Ok(made) => {
                &&& vault_settings_fault(port, token) is None
                &&& made.protocol@ == given_or(protocol, "http"@)
                &&& made.address@ == given_or(address, "127.0.0.1"@)
                &&& Some(made.port) == vault_port_of(port)
                &&& made.path@ == given_or(path, "secret/config/enma"@)
                &&& Some(made.token) == token
            },
            Err(fault) => vault_settings_fault(port, token) == Some(fault),
        },
{
    let protocol = or_default(protocol, "http");
    let address = or_default(address, "127.0.0.1");
    let port_text = or_default(port, "8200");
    let port = match parse_port(port_text.as_str()) {
        Some(number) => number,
        None => {
            return Err(SettingsError::BadPort);
        },
    };
    let path = or_default(path, "secret/config/enma");
    match token {
        Some(token) => Ok(VaultSettings { protocol, address, port, path, token }),
        None => Err(SettingsError::MissingToken),
    }
}

/// The default port of the secret store is read as 8200.
pub proof fn lemma_default_vault_port()
    ensures
        vault_port_of(None) == Some(8200u16),
{
    reveal_strlit("8200");
    reveal_with_fuel(crate::text::digits_value, 5);
    let text = "8200"@;
    assert(text.drop_last() =~= seq!['8', '2', '0']);
    assert(text.drop_last().drop_last() =~= seq!['8', '2']);
    assert(text.drop_last().drop_last().drop_last() =~= seq!['8']);
    assert(text.drop_last().drop_last().drop_last().drop_last() =~= Seq::<char>::empty());
}

} // verus!
