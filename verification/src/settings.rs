//! The server's settings, read from the values of its environment
//! variables, each with a default.
use vstd::prelude::*;

use crate::text;

verus! {

/// The name under which the service registers when none is given.
pub const DEFAULT_SERVICE_NAME: &'static str = "tectonic-api";

/// The cache's capacity in bytes when none is given: 12 GiB.
pub const DEFAULT_MAX_CACHE_MEMORY: u64 = 12884901888;

/// How long an unused PDF stays cached, in seconds, when nothing is given.
pub const DEFAULT_CACHE_EXPIRY_SECS: u64 = 3600;

/// The port that Consul is told the service listens on when none is given.
pub const DEFAULT_CONSUL_SERVICE_PORT: u16 = 443;

/// The scheme under which Consul reaches the service when none is given.
pub const DEFAULT_CONSUL_SERVICE_SCHEME: &'static str = "https";

/// The port that the server listens on when none is given.
pub const DEFAULT_SERVER_PORT: &'static str = "5555";

/// The values of the server's environment variables (`None` where a
/// variable is unset or not Unicode).
pub struct Environment {
    /// `SERVICE_NAME`
    pub service_name: Option<String>,
    /// `MAX_CACHE_MEMORY`
    pub max_cache_memory: Option<String>,
    /// `CACHE_EXPIRY`
    pub cache_expiry: Option<String>,
    /// `CONSUL_SERVICE_PORT`
    pub consul_service_port: Option<String>,
    /// `CONSUL_HTTP_ADDR`
    pub consul_http_addr: Option<String>,
    /// `CONSUL_AUTH_TOKEN`
    pub consul_auth_token: Option<String>,
    /// `CONSUL_SERVICE_ADDRESS`
    pub consul_service_address: Option<String>,
    /// `CONSUL_SERVICE_SCHEME`
    pub consul_service_scheme: Option<String>,
    /// `SERVER_PORT`
    pub server_port: Option<String>,
}

/// The settings that the server runs with.
pub struct Settings {
    pub service_name: String,
    pub max_cache_memory: u64,
    pub cache_expiry_secs: u64,
    pub consul_service_port: u16,
    pub consul_http_addr: Option<String>,
    pub consul_auth_token: Option<String>,
    pub consul_service_address: Option<String>,
    pub consul_service_scheme: String,
    pub server_port: String,
}

/// A number read from an optional value: the value parsed as an unsigned
/// integer no larger than `max`, or `default` when the value is missing or
/// does not parse.
pub open spec fn number_or(value: Option<Seq<char>>, max: int, default: int) -> int {
    match value {
        Some(t) => match text::parse_unsigned(t, max) {
            Some(n) => n,
            None => default,
        },
        None => default,
    }
}

/// A text read from an optional value, or `default` when it is missing.
pub open spec fn text_or(value: Option<Seq<char>>, default: Seq<char>) -> Seq<char> {
    match value {
        Some(t) => t,
        None => default,
    }
}

fn u64_or(value: &Option<String>, default: u64) -> (r: u64)
    ensures
        r == number_or(text::opt_string_text(*value), u64::MAX as int, default as int),
{
    match value {
        Some(t) => match text::parse_u64(t.as_str()) {
            Some(n) => n,
            None => default,
        },
        None => default,
    }
}

fn u16_or(value: &Option<String>, default: u16) -> (r: u16)
    ensures
        r == number_or(text::opt_string_text(*value), u16::MAX as int, default as int),
{
    match value {
        Some(t) => match text::parse_u16(t.as_str()) {
            Some(n) => n,
            None => default,
        },
        None => default,
    }
}

fn string_or(value: Option<String>, default: &str) -> (r: String)
    ensures
        r@ == text_or(text::opt_string_text(value), default@),
{
    match value {
        Some(t) => t,
        None => default.to_owned(),
    }
}

impl Settings {
    /// The settings for these environment values: each number is the
    /// variable parsed as an unsigned integer of its type, or the default
    /// when the variable is unset or does not parse; each text is the
    /// variable, or the default when it is unset.
    pub fn from_environment(env: Environment) -> (r: Settings)
        ensures
            r.service_name@ == text_or(
                text::opt_string_text(env.service_name),
                DEFAULT_SERVICE_NAME@,
            ),
            r.max_cache_memory == number_or(
                text::opt_string_text(env.max_cache_memory),
                u64::MAX as int,
                DEFAULT_MAX_CACHE_MEMORY as int,
            ),
            r.cache_expiry_secs == number_or(
                text::opt_string_text(env.cache_expiry),
                u64::MAX as int,
                DEFAULT_CACHE_EXPIRY_SECS as int,
            ),
            r.consul_service_port == number_or(
                text::opt_string_text(env.consul_service_port),
                u16::MAX as int,
                DEFAULT_CONSUL_SERVICE_PORT as int,
            ),
            r.consul_http_addr == env.consul_http_addr,
            r.consul_auth_token == env.consul_auth_token,
            r.consul_service_address == env.consul_service_address,
            r.consul_service_scheme@ == text_or(
                text::opt_string_text(env.consul_service_scheme),
                DEFAULT_CONSUL_SERVICE_SCHEME@,
            ),
            r.server_port@ == text_or(text::opt_string_text(env.server_port), DEFAULT_SERVER_PORT@),
    {
        let max_cache_memory = u64_or(&env.max_cache_memory, DEFAULT_MAX_CACHE_MEMORY);
        let cache_expiry_secs = u64_or(&env.cache_expiry, DEFAULT_CACHE_EXPIRY_SECS);
        let consul_service_port = u16_or(&env.consul_service_port, DEFAULT_CONSUL_SERVICE_PORT);
        Settings {
            service_name: string_or(env.service_name, DEFAULT_SERVICE_NAME),
            max_cache_memory,
            cache_expiry_secs,
            consul_service_port,
            consul_http_addr: env.consul_http_addr,
            consul_auth_token: env.consul_auth_token,
            consul_service_address: env.consul_service_address,
            consul_service_scheme: string_or(
                env.consul_service_scheme,
                DEFAULT_CONSUL_SERVICE_SCHEME,
            ),
            server_port: string_or(env.server_port, DEFAULT_SERVER_PORT),
        }
    }

    /// The address that the server listens on: every interface, at the
    /// server port.
    pub fn listen_address(&self) -> (r: String)
        ensures
            r@ == "0.0.0.0:"@ + self.server_port@,
    {
        "0.0.0.0:".to_owned().concat(self.server_port.as_str())
    }
}

/// A value that parses as an unsigned integer within the type's range is
/// taken as it is, however large; only a missing or unparsable value gives
/// the default.
pub proof fn lemma_number_or_takes_parsed_value(t: Seq<char>, max: int, default: int)
    ensures
        text::parse_unsigned(t, max) is Some ==> number_or(Some(t), max, default)
            == text::parse_unsigned(t, max)->0,
        text::parse_unsigned(t, max) is None ==> number_or(Some(t), max, default) == default,
        number_or(None, max, default) == default,
{
}

/// Any number that fits in 64 bits, written in decimal, is taken as the
/// cache's capacity or expiry; one that fits in 16 bits as the port.
pub proof fn lemma_written_numbers_are_taken(n: u64, p: u16, default: int)
    ensures
        number_or(Some(text::decimal_text(n as nat)), u64::MAX as int, default) == n,
        number_or(Some(text::decimal_text(p as nat)), u16::MAX as int, default) == p,
{
    text::lemma_decimal_text_parses_back(n as nat, u64::MAX as int);
    text::lemma_decimal_text_parses_back(p as nat, u16::MAX as int);
}

} // verus!
