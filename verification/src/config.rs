//! The configuration shapes the service is wired from: the signing secret
//! and token validity window, the cache and store connection strings, and
//! the listing page size. Loading them from disk is the host program's
//! business; the core only consumes the plain values.

use vstd::prelude::*;

verus! {

/// The whole configuration.
pub struct Config {
    pub app: ApplicationConfig,
    pub cache: CacheConfig,
    pub db: DBConfig,
}

/// Where the stores live.
pub struct DBConfig {
    pub file_name: String,
    pub dsn: String,
    pub mongo_uri: String,
    pub mongo_db_name: String,
}

/// Where the cache lives.
pub struct CacheConfig {
    pub redis_uri: String,
}

/// How the application itself is served and how tokens are issued.
pub struct ApplicationConfig {
    pub address: String,
    pub port: i32,
    pub page_size: u32,
    pub token_secret: String,
    pub token_hours: u32,
}

} // verus!
