//! Application configuration read from environment variables.
use vstd::prelude::*;

use crate::text::{
    ascii_lowercase, chars_eq, chars_of, parse_u16, parse_u16_str, push_str, split, split_chars,
    string_of, to_ascii_lowercase, trim, trim_string,
};

verus! {

/// The package version reported when `APP_VERSION` is not set.
pub const PACKAGE_VERSION: &'static str = "0.1.0";

/// Runtime configuration of the backend.
#[derive(Debug, Clone, PartialEq, Eq)]
pub struct AppConfig {
    pub database_url: Option<String>,
    pub environment: Environment,
    pub rust_log: String,
    pub app_version: String,
    pub host: String,
    pub port: u16,
    pub supported_markets: Vec<String>,
    /// The token that write requests must present; writes are refused
    /// while it is unset.
    pub admin_api_token: Option<String>,
}

/// Deployment environment.
#[derive(Debug, Clone, Copy, PartialEq, Eq, Structural)]
pub enum Environment {
    Local,
    Production,
}

/// Configuration errors.
#[derive(Debug, Clone, PartialEq, Eq)]
pub enum ConfigError {
    MissingDatabaseUrl,
    InvalidEnvironment(String),
    InvalidPort(String),
}

/// The value of the last variable named `key` (later entries replace earlier ones).
pub open spec fn lookup(vars: Seq<(String, String)>, key: Seq<char>) -> Option<Seq<char>>
    decreases vars.len(),
{
    if vars.len() == 0 {
        None
    } else if vars.last().0@ == key {
        Some(vars.last().1@)
    } else {
        lookup(vars.drop_last(), key)
    }
}

/// The trimmed value of `key` when it is set and not blank.
pub open spec fn non_empty_value(vars: Seq<(String, String)>, key: Seq<char>) -> Option<
    Seq<char>,
> {
    match lookup(vars, key) {
        Some(v) => if trim(v).len() > 0 {
            Some(trim(v))
        } else {
            None
        },
        None => None,
    }
}

/// How an environment name is read: trimmed, lower-cased, then matched.
pub open spec fn parse_environment(s: Seq<char>) -> Result<Environment, Seq<char>> {
    let l = ascii_lowercase(trim(s));
    if l == "local"@ {
        Ok(Environment::Local)
    } else if l == "production"@ {
        Ok(Environment::Production)
    } else {
        Err(l)
    }
}

/// The environment named by `POLY_ENV`, `local` by default.
pub open spec fn config_environment(vars: Seq<(String, String)>) -> Result<Environment, Seq<char>> {
    match non_empty_value(vars, "POLY_ENV"@) {
        Some(v) => parse_environment(v),
        None => parse_environment("local"@),
    }
}

/// The port from `APP_PORT`: 8080 when unset, else a number in `1..=65535`.
pub open spec fn config_port(value: Option<Seq<char>>) -> Result<u16, Seq<char>> {
    match value {
        None => Ok(8080),
        Some(p) => match parse_u16(p) {
            Some(n) => if n > 0 {
                Ok(n)
            } else {
                Err(p)
            },
            None => Err(p),
        },
    }
}

/// The non-blank trimmed pieces, in order.
pub open spec fn non_blank(pieces: Seq<Seq<char>>) -> Seq<Seq<char>>
    decreases pieces.len(),
{
    if pieces.len() == 0 {
        Seq::empty()
    } else {
        let rest = non_blank(pieces.drop_last());
        if trim(pieces.last()).len() > 0 {
            rest.push(trim(pieces.last()))
        } else {
            rest
        }
    }
}

/// Markets from a comma-separated list; `btc5m` and `eth15m` when none is named.
pub open spec fn supported_markets_of(value: Option<Seq<char>>) -> Seq<Seq<char>> {
    let text = match value {
        Some(v) => v,
        None => Seq::empty(),
    };
    let markets = non_blank(split(text, ','));
    if markets.len() == 0 {
        seq!["btc5m"@, "eth15m"@]
    } else {
        markets
    }
}

/// The value of the last variable named `key`.
fn find_var(vars: &Vec<(String, String)>, key: &str) -> (r: Option<usize>)
    ensures
        r.is_some() == lookup(vars@, key@).is_some(),
        r.is_some() ==> r.unwrap() < vars.len() && lookup(vars@, key@) == Some(
            vars@[r.unwrap() as int].1@,
        ),
{
    let k = chars_of(key);
    let mut i = vars.len();
    assert(vars@.subrange(0, vars@.len() as int) =~= vars@);
    while i > 0
        invariant
            i <= vars.len(),
            k@ == key@,
            lookup(vars@, key@) == lookup(vars@.subrange(0, i as int), key@),
        decreases i,
    {
        let name = chars_of(vars[i - 1].0.as_str());
        let ghost pre = vars@.subrange(0, i as int);
        assert(pre.last() == vars@[i - 1]);
        if chars_eq(&name, &k) {
            return Some(i - 1);
        }
        assert(pre.drop_last() =~= vars@.subrange(0, i - 1));
        i = i - 1;
    }
    assert(vars@.subrange(0, 0) =~= Seq::<(String, String)>::empty());
    None
}

/// The trimmed value of `key` when it is set and not blank.
pub fn get_non_empty(vars: &Vec<(String, String)>, key: &str) -> (r: Option<String>)
    ensures
        r.is_some() == non_empty_value(vars@, key@).is_some(),
        r.is_some() ==> r.unwrap()@ == non_empty_value(vars@, key@).unwrap(),
{
    assert(vars@.subrange(0, vars@.len() as int) =~= vars@);
    match find_var(vars, key) {
        Some(i) => {
            let v = trim_string(vars[i].1.as_str());
            if v.as_str().unicode_len() > 0 {
                Some(v)
            } else {
                None
            }
        },
        None => None,
    }
}

impl Environment {
    /// The environment's name.
    pub fn as_str(&self) -> (r: &'static str)
        ensures
            r@ == (match self {
                Environment::Local => "local"@,
                Environment::Production => "production"@,
            }),
    {
        match self {
            Environment::Local => "local",
            Environment::Production => "production",
        }
    }

    /// Reads an environment name (`FromStr`): trimmed and case-insensitive.
    pub fn parse(value: &str) -> (r: Result<Environment, ConfigError>)
        ensures
            parse_environment(value@) is Ok ==> r == Ok::<Environment, ConfigError>(
                parse_environment(value@)->Ok_0,
            ),
            parse_environment(value@) is Err ==> r is Err && r->Err_0 is InvalidEnvironment
                && r->Err_0->InvalidEnvironment_0@ == parse_environment(value@)->Err_0,
    {
        let t = trim_string(value);
        let l = to_ascii_lowercase(t.as_str());
        let lc = chars_of(l.as_str());
        let local = chars_of("local");
        let production = chars_of("production");
        if chars_eq(&lc, &local) {
            Ok(Environment::Local)
        } else if chars_eq(&lc, &production) {
            Ok(Environment::Production)
        } else {
            Err(ConfigError::InvalidEnvironment(l))
        }
    }
}

/// Reads the port: 8080 when unset, else a number in `1..=65535`.
pub fn parse_port(value: Option<String>) -> (r: Result<u16, ConfigError>)
    ensures
        match value {
            None => r == Ok::<u16, ConfigError>(8080),
            Some(p) => match config_port(Some(p@)) {
                Ok(n) => r == Ok::<u16, ConfigError>(n),
                Err(_) => r is Err && r->Err_0 is InvalidPort && r->Err_0->InvalidPort_0@ == p@,
            },
        },
{
    match value {
        Some(port) => {
            match parse_u16_str(port.as_str()) {
                Some(n) => if n > 0 {
                    Ok(n)
                } else {
                    Err(ConfigError::InvalidPort(port))
                },
                None => Err(ConfigError::InvalidPort(port)),
            }
        },
        None => Ok(8080),
    }
}

/// The supported markets from a comma-separated list, with defaults.
pub fn parse_supported_markets(value: Option<String>) -> (r: Vec<String>)
    ensures
        r@.len() == supported_markets_of(
            match value {
                Some(v) => Some(v@),
                None => None,
            },
        ).len(),
        forall|k: int|
            0 <= k < r@.len() ==> #[trigger] r@[k]@ == supported_markets_of(
                match value {
                    Some(v) => Some(v@),
                    None => None,
                },
            )[k],
{
    let text = match &value {
        Some(v) => string_of(v.as_str()),
        None => String::new(),
    };
    let pieces = split_chars(text.as_str(), ',');
    let ghost ps = split(text@, ',');
    let mut markets: Vec<String> = Vec::new();
    let mut i: usize = 0;
    while i < pieces.len()
        invariant
            i <= pieces.len(),
            pieces@.len() == ps.len(),
            forall|k: int| 0 <= k < pieces@.len() ==> #[trigger] pieces@[k]@ == ps[k],
            markets@.len() == non_blank(ps.subrange(0, i as int)).len(),
            forall|k: int|
                0 <= k < markets@.len() ==> #[trigger] markets@[k]@ == non_blank(
                    ps.subrange(0, i as int),
                )[k],
        decreases pieces.len() - i,
    {
        let t = trim_string(pieces[i].as_str());
        let ghost pre = ps.subrange(0, i as int);
        let ghost post = ps.subrange(0, i + 1);
        assert(post.drop_last() =~= pre);
        assert(post.last() == ps[i as int]);
        if t.as_str().unicode_len() > 0 {
            markets.push(t);
        }
        i = i + 1;
    }
    assert(ps.subrange(0, ps.len() as int) =~= ps);
    if markets.len() == 0 {
        let mut d: Vec<String> = Vec::new();
        d.push(string_of("btc5m"));
        d.push(string_of("eth15m"));
        d
    } else {
        markets
    }
}

impl AppConfig {
    /// Builds the configuration from environment variables, given as name and
    /// value pairs (a later pair replaces an earlier one with the same name).
    pub fn from_env_map(vars: &Vec<(String, String)>) -> (r: Result<AppConfig, ConfigError>)
        ensures
            ({
                let env = config_environment(vars@);
                let db = non_empty_value(vars@, "DATABASE_URL"@);
                let port = config_port(non_empty_value(vars@, "APP_PORT"@));
                &&& env is Err ==> r is Err && r->Err_0 is InvalidEnvironment
                    && r->Err_0->InvalidEnvironment_0@ == env->Err_0
                &&& env == Ok::<Environment, Seq<char>>(Environment::Production) && db is None
                    ==> r == Err::<AppConfig, ConfigError>(ConfigError::MissingDatabaseUrl)
                &&& env is Ok && !(env->Ok_0 == Environment::Production && db is None)
                    && port is Err ==> r is Err && r->Err_0 is InvalidPort
                    && r->Err_0->InvalidPort_0@ == port->Err_0
                &&& env is Ok && !(env->Ok_0 == Environment::Production && db is None)
                    && port is Ok ==> r is Ok && r->Ok_0.environment == env->Ok_0
                    && r->Ok_0.port == port->Ok_0
                    && r->Ok_0.database_url.is_some() == db.is_some()
                    && (db.is_some() ==> r->Ok_0.database_url.unwrap()@ == db.unwrap())
                    && r->Ok_0.admin_api_token.is_some() == non_empty_value(vars@, "ADMIN_API_TOKEN"@).is_some()
                    && (r->Ok_0.admin_api_token.is_some() ==> r->Ok_0.admin_api_token.unwrap()@
                        == non_empty_value(vars@, "ADMIN_API_TOKEN"@).unwrap())
                    && r->Ok_0.rust_log@ == (match non_empty_value(vars@, "RUST_LOG"@) {
                    Some(v) => v,
                    None => "info"@,
                }) && r->Ok_0.app_version@ == (match non_empty_value(vars@, "APP_VERSION"@) {
                    Some(v) => v,
                    None => "0.1.0"@,
                }) && r->Ok_0.host@ == (match non_empty_value(vars@, "APP_HOST"@) {
                    Some(v) => v,
                    None => "127.0.0.1"@,
                }) && r->Ok_0.supported_markets@.len() == supported_markets_of(
                    non_empty_value(vars@, "SUPPORTED_MARKETS"@),
                ).len() && (forall|k: int|
                    0 <= k < r->Ok_0.supported_markets@.len()
                        ==> #[trigger] r->Ok_0.supported_markets@[k]@ == supported_markets_of(
                        non_empty_value(vars@, "SUPPORTED_MARKETS"@),
                    )[k])
            }),
    {
        let env_text = match get_non_empty(vars, "POLY_ENV") {
            Some(v) => v,
            None => string_of("local"),
        };
        let environment = match Environment::parse(env_text.as_str()) {
            Ok(e) => e,
            Err(e) => return Err(e),
        };
        let database_url = get_non_empty(vars, "DATABASE_URL");
        if environment == Environment::Production && database_url.is_none() {
            return Err(ConfigError::MissingDatabaseUrl);
        }
        let rust_log = match get_non_empty(vars, "RUST_LOG") {
            Some(v) => v,
            None => string_of("info"),
        };
        let app_version = match get_non_empty(vars, "APP_VERSION") {
            Some(v) => v,
            None => string_of(PACKAGE_VERSION),
        };
        let host = match get_non_empty(vars, "APP_HOST") {
            Some(v) => v,
            None => string_of("127.0.0.1"),
        };
        let port_text = get_non_empty(vars, "APP_PORT");
        let ghost port_view = match &port_text {
            Some(p) => Some(p@),
            None => None,
        };
        assert(port_view == non_empty_value(vars@, "APP_PORT"@));
        let port = match parse_port(port_text) {
            Ok(p) => p,
            Err(e) => return Err(e),
        };
        let markets_text = get_non_empty(vars, "SUPPORTED_MARKETS");
        let supported_markets = parse_supported_markets(markets_text);
        let admin_api_token = get_non_empty(vars, "ADMIN_API_TOKEN");
        Ok(AppConfig {
            database_url,
            environment,
            rust_log,
            app_version,
            host,
            port,
            supported_markets,
            admin_api_token,
        })
    }

    /// Whether a database URL is configured.
    pub fn database_configured(&self) -> (r: bool)
        ensures
            r == self.database_url.is_some(),
    {
        self.database_url.is_some()
    }
}

impl ConfigError {
    /// The error message, as `Display` writes it.
    pub open spec fn message_spec(self) -> Seq<char> {
        match self {
            ConfigError::MissingDatabaseUrl => "DATABASE_URL is required when POLY_ENV=production"@,
            ConfigError::InvalidEnvironment(v) => "POLY_ENV must be either local or production, got "@
                + v@,
            ConfigError::InvalidPort(v) => "APP_PORT must be a TCP port number between 1 and 65535, got "@
                + v@,
        }
    }

    /// The error message.
    pub fn message(&self) -> (r: String)
        ensures
            r@ == self.message_spec(),
    {
        let mut s = String::new();
        match self {
            ConfigError::MissingDatabaseUrl => push_str(
                &mut s,
                "DATABASE_URL is required when POLY_ENV=production",
            ),
            ConfigError::InvalidEnvironment(v) => {
                push_str(&mut s, "POLY_ENV must be either local or production, got ");
                push_str(&mut s, v.as_str());
            },
            ConfigError::InvalidPort(v) => {
                push_str(&mut s, "APP_PORT must be a TCP port number between 1 and 65535, got ");
                push_str(&mut s, v.as_str());
            },
        }
        assert(s@ =~= self.message_spec());
        s
    }
}

} // verus!
