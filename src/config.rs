//! Service configuration records and the connection strings built from them.
use vstd::prelude::*;
use crate::text::{append_chars, owned, push_char, str_eq};

verus! {

/// Connection settings of the cache service.
#[derive(Debug, Clone)]
pub struct RedisConfig {
    pub addr: String,
    pub username: Option<String>,
    pub password: Option<String>,
    pub db: String,
}

/// Connection settings of the message broker.
#[derive(Debug, Clone)]
pub struct KafkaConfig {
    pub brokers: Vec<String>,
    pub username: Option<String>,
    pub password: Option<String>,
    pub traffic_topic: String,
    pub ealry_stop_topic: String,
}

/// Connection settings of the database.
#[derive(Debug, Clone)]
pub struct DatabaseConfig {
    pub addr: String,
    pub username: String,
    pub password: String,
    pub database: String,
}

/// The service configuration.
#[derive(Debug, Clone)]
pub struct Config {
    pub redis_config: RedisConfig,
    pub kafka_config: KafkaConfig,
    pub database_config: DatabaseConfig,
}

/// The credentials part of a cache URL: the username (if any) followed by
/// `:password@` (if a password is set).
pub open spec fn redis_auth(username: Option<String>, password: Option<String>) -> Seq<char> {
    let u = match username {
        Some(s) => s@,
        None => Seq::empty(),
    };
    let p = match password {
        Some(s) => seq![':'] + s@ + seq!['@'],
        None => Seq::empty(),
    };
    u + p
}

impl RedisConfig {
    /// `redis://{auth}{addr}/{db}`.
    pub fn connection_string(&self) -> (r: String)
        ensures
            r@ == "redis://"@ + redis_auth(self.username, self.password) + self.addr@ + seq!['/'] + self.db@,
    {
        let mut out = owned("redis://");
        let ghost start = out@;
        match &self.username {
            Some(u) => append_chars(&mut out, u.as_str()),
            None => {},
        }
        match &self.password {
            Some(p) => {
                push_char(&mut out, ':');
                append_chars(&mut out, p.as_str());
                push_char(&mut out, '@');
            },
            None => {},
        }
        assert(out@ =~= start + redis_auth(self.username, self.password));
        append_chars(&mut out, self.addr.as_str());
        push_char(&mut out, '/');
        append_chars(&mut out, self.db.as_str());
        out
    }
}

impl DatabaseConfig {
    /// `mysql://{username}:{password}@{addr}/{database}`.
    pub fn connection_string(&self) -> (r: String)
        ensures
            r@ == "mysql://"@ + self.username@ + seq![':'] + self.password@ + seq!['@'] + self.addr@ + seq!['/']
                + self.database@,
    {
        let mut out = owned("mysql://");
        append_chars(&mut out, self.username.as_str());
        push_char(&mut out, ':');
        append_chars(&mut out, self.password.as_str());
        push_char(&mut out, '@');
        append_chars(&mut out, self.addr.as_str());
        push_char(&mut out, '/');
        append_chars(&mut out, self.database.as_str());
        out
    }
}

/// The deployment environment named on the command line: the first
/// argument after the program name, or empty.
pub fn init_env_arg(args: &Vec<String>) -> (r: String)
    ensures
        r@ == (if args@.len() > 1 { args@[1]@ } else { Seq::empty() }),
{
    if args.len() > 1 {
        args[1].clone()
    } else {
        String::new()
    }
}

/// The file that describes this host's IP layout in an environment.
pub fn local_ip_config_file(env: &str) -> (r: &'static str)
    ensures
        r@ == (if env@ == "dev"@ {
            "/etc/dev_gre_tunnel_config"@
        } else if env@ == "beta"@ {
            "/etc/beta_gre_tunnel_config"@
        } else {
            "/etc/gre_tunnel_config"@
        }),
{
    if str_eq(env, "dev") {
        "/etc/dev_gre_tunnel_config"
    } else if str_eq(env, "beta") {
        "/etc/beta_gre_tunnel_config"
    } else {
        "/etc/gre_tunnel_config"
    }
}

/// The central server's address in an environment.
pub fn server_addr(env: &str) -> (r: &'static str)
    ensures
        r@ == (if env@ == "dev"@ {
            "ws://127.0.0.1:8080/ws"@
        } else if env@ == "beta"@ {
            "wss://dcserver.ipoasis.cn/ws"@
        } else {
            "wss://dcserverws.ipoasis.com/ws"@
        }),
{
    if str_eq(env, "dev") {
        "ws://127.0.0.1:8080/ws"
    } else if str_eq(env, "beta") {
        "wss://dcserver.ipoasis.cn/ws"
    } else {
        "wss://dcserverws.ipoasis.com/ws"
    }
}

/// First listening port when the layout file names none.
pub const DEFAULT_PORT_START: u32 = 40000;
/// Offset when the layout file names none.
pub const DEFAULT_OFFSET: u32 = 2;

/// The port range and offset with their defaults: the start defaults to
/// 40000, the end to the start plus 10000, the offset to 2.
pub fn port_settings(port_start: Option<u32>, port_end: Option<u32>, offset: Option<u32>) -> (r: (u32, u32, u32))
    requires
        port_end is None ==> port_start.unwrap_or(40000) + 10000 <= 0xFFFF_FFFF,
    ensures
        r.0 == port_start.unwrap_or(40000),
        r.1 == (match port_end {
            Some(e) => e,
            None => (r.0 + 10000) as u32,
        }),
        r.2 == offset.unwrap_or(2),
{
    let start = match port_start {
        Some(s) => s,
        None => DEFAULT_PORT_START,
    };
    let end = match port_end {
        Some(e) => e,
        None => start + 10000,
    };
    let off = match offset {
        Some(o) => o,
        None => DEFAULT_OFFSET,
    };
    (start, end, off)
}

} // verus!
