//! The configuration of the service, as plain values, and what is derived
//! from it: the address a server listens on, the settings of the pool.

use vstd::prelude::*;
use crate::decimal::{decimal, push_decimal};

verus! {

/// The whole configuration.
#[derive(Debug, Clone)]
pub struct Config {
    pub server: Server,
    pub logging: Logging,
    pub database: Database,
    pub oauth2: Oauth2,
}

/// The servers to start: each is optional.
#[derive(Debug, Clone)]
pub struct Server {
    pub rest: Option<Rest>,
    pub grpc: Option<Grpc>,
}

/// Where the management plane listens.
#[derive(Debug, Clone)]
pub struct Rest {
    pub address: String,
    pub port: u16,
}

/// Where the authorization service listens.
#[derive(Debug, Clone)]
pub struct Grpc {
    pub address: String,
    pub port: u16,
}

/// The log level.
#[derive(Debug, Clone)]
pub struct Logging {
    pub level: String,
}

/// The database and the size of its connection pool.
#[derive(Debug, Clone)]
pub struct Database {
    pub url: String,
    pub pool_size: Option<u32>,
}

/// Where the keys that sign bearer tokens are published.
#[derive(Debug, Clone)]
pub struct Oauth2 {
    pub jwks_url: String,
}

/// The settings of the connection pool.
#[derive(Clone, Copy, Debug, PartialEq, Eq, Structural)]
pub struct PoolSettings {
    /// The most connections held at once.
    pub max_size: u32,
    /// The fewest idle connections kept.
    pub min_idle: u32,
    /// How long to wait for a connection, in seconds.
    pub connection_timeout_secs: u64,
}

/// The pool size where the configuration gives none.
pub const DEFAULT_POOL_SIZE: u32 = 10;

/// The idle connections that the pool keeps.
pub const MIN_IDLE: u32 = 5;

/// The seconds to wait for a connection before giving up.
pub const CONNECTION_TIMEOUT_SECS: u64 = 30;

/// The text `address:port`.
pub open spec fn socket_text(address: Seq<char>, port: u16) -> Seq<char> {
    address + ":"@ + decimal(port as nat)
}

/// The pool that a database section asks for.
pub open spec fn pool_of(pool_size: Option<u32>) -> PoolSettings {
    PoolSettings {
        max_size: match pool_size {
            Some(n) => n,
            None => DEFAULT_POOL_SIZE,
        },
        min_idle: MIN_IDLE,
        connection_timeout_secs: CONNECTION_TIMEOUT_SECS,
    }
}

/// The text `address:port`.
pub fn socket_address(address: &str, port: u16) -> (r: String)
    ensures
        r@ == socket_text(address@, port),
{
    let mut out = address.to_owned();
    out.append(":");
    push_decimal(&mut out, port as u64);
    out
}

impl Rest {
    /// The address to listen on, as `address:port`.
    pub fn socket_address(&self) -> (r: String)
        ensures
            r@ == socket_text(self.address@, self.port),
    {
        socket_address(self.address.as_str(), self.port)
    }
}

impl Grpc {
    /// The address to listen on, as `address:port`.
    pub fn socket_address(&self) -> (r: String)
        ensures
            r@ == socket_text(self.address@, self.port),
    {
        socket_address(self.address.as_str(), self.port)
    }
}

impl Database {
    /// The settings of the pool: the configured size or ten connections,
    /// five kept idle, thirty seconds to wait for one.
    pub fn pool_settings(&self) -> (r: PoolSettings)
        ensures
            r == pool_of(self.pool_size),
    {
        PoolSettings {
            max_size: match self.pool_size {
                Some(n) => n,
                None => DEFAULT_POOL_SIZE,
            },
            min_idle: MIN_IDLE,
            connection_timeout_secs: CONNECTION_TIMEOUT_SECS,
        }
    }
}

} // verus!
