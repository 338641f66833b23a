//! Credential precedence for opening a connection to the relational store.
//!
//! Each of the three settings comes from the explicit argument when one is
//! given, otherwise from the environment value the caller read; when both
//! are absent the connection step aborts with a `ConfigError`.  Reading the
//! environment itself, and opening the pooled connection, is front-end work;
//! this module only decides and assembles.

use crate::errors::ConfigError;
use vstd::prelude::*;

verus! {

/// The maximum number of concurrent pooled connections a front end opens.
pub const MAX_POOL_CONNECTIONS: u32 = 5;

/// The pool-acquire timeout, in seconds.
pub const ACQUIRE_TIMEOUT_SECS: u64 = 5;

/// The settings a connection is opened with.
#[derive(Debug, Clone)]
pub struct DbConfig {
    /// The username for the database connection.
    pub username: String,
    /// The password for the database connection.
    pub password: String,
    /// The host address of the database server.
    pub host: String,
}

/// The chosen value of one setting: the explicit argument wins over the
/// environment fallback.
pub open spec fn pick(explicit: Option<Seq<char>>, env: Option<Seq<char>>) -> Option<Seq<char>> {
    match explicit {
        Some(v) => Some(v),
        None => env,
    }
}

/// What credential resolution yields: the three chosen settings, or the
/// first setting found missing, checked in the order username, password,
/// host.
pub open spec fn credentials_model(
    un: Option<Seq<char>>,
    pw: Option<Seq<char>>,
    host: Option<Seq<char>>,
    env_un: Option<Seq<char>>,
    env_pw: Option<Seq<char>>,
    env_host: Option<Seq<char>>,
) -> Result<(Seq<char>, Seq<char>, Seq<char>), ConfigError> {
    match pick(un, env_un) {
        None => Err(ConfigError::MissingUsername),
        Some(u) => match pick(pw, env_pw) {
            None => Err(ConfigError::MissingPassword),
            Some(p) => match pick(host, env_host) {
                None => Err(ConfigError::MissingHost),
                Some(h) => Ok((u, p, h)),
            },
        },
    }
}

/// The view of an optional owned string.
pub open spec fn opt_view(o: Option<String>) -> Option<Seq<char>> {
    match o {
        Some(s) => Some(s@),
        None => None,
    }
}

/// Chooses each connection setting, explicit argument first, environment
/// value second, and fails with the first missing setting.
pub fn resolve_credentials(
    un: Option<String>,
    pw: Option<String>,
    host: Option<String>,
    env_un: Option<String>,
    env_pw: Option<String>,
    env_host: Option<String>,
) -> (r: Result<DbConfig, ConfigError>)
    ensures
        match r {
            Ok(c) => credentials_model(
                opt_view(un),
                opt_view(pw),
                opt_view(host),
                opt_view(env_un),
                opt_view(env_pw),
                opt_view(env_host),
            ) == Ok::<(Seq<char>, Seq<char>, Seq<char>), ConfigError>(
                (c.username@, c.password@, c.host@),
            ),
            Err(e) => credentials_model(
                opt_view(un),
                opt_view(pw),
                opt_view(host),
                opt_view(env_un),
                opt_view(env_pw),
                opt_view(env_host),
            ) == Err::<(Seq<char>, Seq<char>, Seq<char>), ConfigError>(e),
        },
{
    let username = match un {
        Some(u) => u,
        None => match env_un {
            Some(u) => u,
            None => {
                return Err(ConfigError::MissingUsername);
            },
        },
    };
    let password = match pw {
        Some(p) => p,
        None => match env_pw {
            Some(p) => p,
            None => {
                return Err(ConfigError::MissingPassword);
            },
        },
    };
    let host_address = match host {
        Some(h) => h,
        None => match env_host {
            Some(h) => h,
            None => {
                return Err(ConfigError::MissingHost);
            },
        },
    };
    Ok(DbConfig { username, password, host: host_address })
}

/// With all three settings given explicitly, the outcome never depends on
/// the environment: any two environments yield the same configuration.
pub proof fn lemma_explicit_overrides_env(
    u: Seq<char>,
    p: Seq<char>,
    h: Seq<char>,
    env_a: (Option<Seq<char>>, Option<Seq<char>>, Option<Seq<char>>),
    env_b: (Option<Seq<char>>, Option<Seq<char>>, Option<Seq<char>>),
)
    ensures
        credentials_model(Some(u), Some(p), Some(h), env_a.0, env_a.1, env_a.2)
            == credentials_model(Some(u), Some(p), Some(h), env_b.0, env_b.1, env_b.2),
        credentials_model(Some(u), Some(p), Some(h), env_a.0, env_a.1, env_a.2)
            == Ok::<(Seq<char>, Seq<char>, Seq<char>), ConfigError>((u, p, h)),
{
}

/// The connection URL for the chosen settings: a fixed scheme, database
/// name and network port around the credentials and host.
pub open spec fn url_model(user: Seq<char>, pass: Seq<char>, host: Seq<char>) -> Seq<char> {
    "mysql://"@ + user + ":"@ + pass + "@"@ + host + ":3306/dcim"@
}

/// Assembles the connection URL a front end hands to its database driver.
pub fn connection_url(cfg: &DbConfig) -> (r: String)
    ensures
        r@ == url_model(cfg.username@, cfg.password@, cfg.host@),
{
    let mut url = String::from_str("mysql://");
    url.append(cfg.username.as_str());
    url.append(":");
    url.append(cfg.password.as_str());
    url.append("@");
    url.append(cfg.host.as_str());
    url.append(":3306/dcim");
    proof {
        assert(url@ =~= url_model(cfg.username@, cfg.password@, cfg.host@));
    }
    url
}

} // verus!
