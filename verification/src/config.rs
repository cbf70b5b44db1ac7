use vstd::prelude::*;
use std::time::Duration;
use crate::numeric::{parse_u16_range, parse_u16_spec, parse_u64_range, parse_u64_spec};
use crate::text::{chars_of, lowercase, split_on, split_trimmed, str_eq, strs_view, to_lowercase, trim};

verus! {

/// The settings the server runs with.
#[derive(Debug)]
pub struct Config {
    pub database_url: String,
    pub server_host: String,
    pub server_port: u16,
    pub cors_allowed_origins: Vec<String>,
    pub auth_secret: String,
    pub auth_token_expires_in: Duration,
    pub environment: Environment,
}

/// The environment the server runs in.
#[derive(Debug, Clone, PartialEq, Eq, Structural)]
pub enum Environment {
    Development,
    Testing,
    Production,
}

/// What `Duration::from_secs` returns for a number of seconds.
pub uninterp spec fn duration_of_secs(secs: u64) -> Duration;

/// `Duration::from_secs`; its result is named [`duration_of_secs`] of the
/// argument.
#[verifier::external_body]
fn duration_from_secs(secs: u64) -> (d: Duration)
    ensures
        d == duration_of_secs(secs),
{
    Duration::from_secs(secs)
}

impl Environment {
    /// The environment a lowercase name stands for: "production",
    /// "testing", and development for any other name.
    pub open spec fn named(lower: Seq<char>) -> Environment {
        if lower == "production"@ {
            Environment::Production
        } else if lower == "testing"@ {
            Environment::Testing
        } else {
            Environment::Development
        }
    }

    /// The environment a name stands for, whatever its case.
    pub fn from_str(s: &str) -> (e: Self)
        ensures
            e == Self::named(lowercase(s@)),
    {
        let lower = to_lowercase(s);
        Self::from_lowercase(lower.as_str())
    }

    /// The environment a name already in lowercase stands for.
    pub fn from_lowercase(lower: &str) -> (e: Self)
        ensures
            e == Self::named(lower@),
    {
        if str_eq(lower, "production") {
            Environment::Production
        } else if str_eq(lower, "testing") {
            Environment::Testing
        } else {
            Environment::Development
        }
    }

    pub fn is_dev(&self) -> (b: bool)
        ensures
            b == (*self == Environment::Development),
    {
        *self == Environment::Development
    }

    pub fn is_prod(&self) -> (b: bool)
        ensures
            b == (*self == Environment::Production),
    {
        *self == Environment::Production
    }

    pub fn is_test(&self) -> (b: bool)
        ensures
            b == (*self == Environment::Testing),
    {
        *self == Environment::Testing
    }
}

/// Why the settings could not be built.
#[derive(Debug, PartialEq, Eq, Structural)]
pub enum ConfigError {
    /// `DATABASE_URL` is not set.
    MissingDatabaseUrl,
    /// `SERVER_PORT` is not a port number.
    InvalidServerPort,
    /// `AUTH_SECRET` is not set.
    MissingAuthSecret,
    /// `AUTH_TOKEN_EXPIRES_IN` is not a number of seconds.
    InvalidTokenLifetime,
}

impl ConfigError {
    /// The message the server stops with.
    pub fn message(&self) -> (s: &'static str)
        ensures
            s@ == match self {
                ConfigError::MissingDatabaseUrl => "DATABASE_URL must be set"@,
                ConfigError::InvalidServerPort => "SERVER_PORT must be a valid number"@,
                ConfigError::MissingAuthSecret => "AUTH_SECRET must be set"@,
                ConfigError::InvalidTokenLifetime => "AUTH_TOKEN_EXPIRES_IN must be a valid number"@,
            },
    {
        match self {
            ConfigError::MissingDatabaseUrl => "DATABASE_URL must be set",
            ConfigError::InvalidServerPort => "SERVER_PORT must be a valid number",
            ConfigError::MissingAuthSecret => "AUTH_SECRET must be set",
            ConfigError::InvalidTokenLifetime => "AUTH_TOKEN_EXPIRES_IN must be a valid number",
        }
    }
}

/// The value of a setting, or its default when it is not set.
pub open spec fn or_default(v: Option<String>, d: Seq<char>) -> Seq<char> {
    match v {
        Some(s) => s@,
        None => d,
    }
}

/// The text of a setting, or its default.
fn setting_or(v: Option<String>, d: &str) -> (r: String)
    ensures
        r@ == or_default(v, d@),
{
    match v {
        Some(s) => s,
        None => String::from_str(d),
    }
}

impl Config {
    /// The settings built from the values of the variables `ENVIRONMENT`,
    /// `DATABASE_URL`, `SERVER_HOST`, `SERVER_PORT`, `CORS_ALLOWED_ORIGINS`,
    /// `AUTH_SECRET` and `AUTH_TOKEN_EXPIRES_IN` (none where a variable is
    /// not set). Defaults: "development", "127.0.0.1", "3030",
    /// "http://localhost:3000" and "86400". The allowed origins are the
    /// comma-separated pieces, trimmed. The first missing or malformed
    /// setting, in the order of the fields, is the error.
    pub fn from_vars(
        environment: Option<String>,
        database_url: Option<String>,
        server_host: Option<String>,
        server_port: Option<String>,
        cors_allowed_origins: Option<String>,
        auth_secret: Option<String>,
        auth_token_expires_in: Option<String>,
    ) -> (r: Result<Config, ConfigError>)
        ensures
            database_url is None ==> r == Err::<Config, ConfigError>(ConfigError::MissingDatabaseUrl),
            database_url is Some && parse_u16_spec(or_default(server_port, "3030"@)) is None
                ==> r == Err::<Config, ConfigError>(ConfigError::InvalidServerPort),
            database_url is Some && parse_u16_spec(or_default(server_port, "3030"@)) is Some
                && auth_secret is None ==> r == Err::<Config, ConfigError>(ConfigError::MissingAuthSecret),
            database_url is Some && parse_u16_spec(or_default(server_port, "3030"@)) is Some
                && auth_secret is Some && parse_u64_spec(or_default(auth_token_expires_in, "86400"@)) is None
                ==> r == Err::<Config, ConfigError>(ConfigError::InvalidTokenLifetime),
            r is Ok <==> (database_url is Some && auth_secret is Some
                && parse_u16_spec(or_default(server_port, "3030"@)) is Some
                && parse_u64_spec(or_default(auth_token_expires_in, "86400"@)) is Some),
            r matches Ok(c) ==> {
                &&& c.environment == Environment::named(lowercase(or_default(environment, "development"@)))
                &&& c.database_url@ == database_url->0@
                &&& c.server_host@ == or_default(server_host, "127.0.0.1"@)
                &&& Some(c.server_port) == parse_u16_spec(or_default(server_port, "3030"@))
                &&& strs_view(c.cors_allowed_origins@) == split_on(
                    or_default(cors_allowed_origins, "http://localhost:3000"@), ',').map_values(
                    |p: Seq<char>| trim(p))
                &&& c.auth_secret@ == auth_secret->0@
                &&& c.auth_token_expires_in == duration_of_secs(
                    parse_u64_spec(or_default(auth_token_expires_in, "86400"@))->0)
            },
    {
        let env_name = setting_or(environment, "development");
        let env = Environment::from_str(env_name.as_str());
        let db = match database_url {
            Some(s) => s,
            None => return Err(ConfigError::MissingDatabaseUrl),
        };
        let host = setting_or(server_host, "127.0.0.1");
        let port_text = setting_or(server_port, "3030");
        let pc = chars_of(port_text.as_str());
        let port = match parse_u16_range(pc.as_slice(), 0, pc.len()) {
            Some(p) => p,
            None => {
                assert(pc@.subrange(0, pc@.len() as int) =~= pc@);
                return Err(ConfigError::InvalidServerPort);
            },
        };
        assert(pc@.subrange(0, pc@.len() as int) =~= pc@);
        let origins_text = setting_or(cors_allowed_origins, "http://localhost:3000");
        let origins = split_trimmed(origins_text.as_str(), ',');
        let secret = match auth_secret {
            Some(s) => s,
            None => return Err(ConfigError::MissingAuthSecret),
        };
        let exp_text = setting_or(auth_token_expires_in, "86400");
        let ec = chars_of(exp_text.as_str());
        assert(ec@.subrange(0, ec@.len() as int) =~= ec@);
        let secs = match parse_u64_range(ec.as_slice(), 0, ec.len()) {
            Some(v) => v,
            None => return Err(ConfigError::InvalidTokenLifetime),
        };
        Ok(Config {
            database_url: db,
            server_host: host,
            server_port: port,
            cors_allowed_origins: origins,
            auth_secret: secret,
            auth_token_expires_in: duration_from_secs(secs),
            environment: env,
        })
    }
}

/// A `KEY=VALUE` program parameter: the text before the first `=` and the
/// text after it; none when there is no `=`.
pub open spec fn parameter_of(s: Seq<char>) -> Option<(Seq<char>, Seq<char>)> {
    let k = crate::text::find_from(s, '=', 0);
    if k < s.len() {
        Some((s.take(k), s.skip(k + 1)))
    } else {
        None
    }
}

/// Splits a `KEY=VALUE` program parameter at its first `=`.
pub fn parse_parameter(param: &str) -> (r: Option<(String, String)>)
    ensures
        match r {
            Some((k, v)) => parameter_of(param@) == Some((k@, v@)),
            None => parameter_of(param@) is None,
        },
{
    let cs = chars_of(param);
    let s = cs.as_slice();
    proof {
        crate::text::lemma_find_from_bounds(s@, '=', 0);
    }
    let k = crate::text::find_char_from(s, '=', 0);
    if k >= s.len() {
        return None;
    }
    let key = crate::text::string_of_range(s, 0, k);
    let value = crate::text::string_of_range(s, k + 1, s.len());
    assert(key@ =~= s@.take(k as int));
    assert(value@ =~= s@.skip(k + 1));
    Some((key, value))
}

} // verus!
