//! How the service connects to its database.
use vstd::prelude::*;

verus! {

/// The settings of a database.
#[derive(Debug, Clone, PartialEq, Eq)]
pub struct DatabaseSettings {
    pub connect: DatabaseConnectSettings,
    pub connect_options: DatabaseConnectOptionsSettings,
    pub create_database: bool,
    pub run_migrations: bool,
}

/// Where a database is found.
#[derive(Debug, Clone, PartialEq, Eq)]
pub enum DatabaseConnectSettings {
    /// By its URL.
    Url(String),
    /// By the parts of its URL.
    Kv(DatabaseKvConnection),
}

/// The parts of the URL of a database.
#[derive(Debug, Clone, PartialEq, Eq)]
pub struct DatabaseKvConnection {
    pub host: String,
    pub port: u16,
    pub user: String,
    pub password: String,
    pub dbname: Option<String>,
    pub options: Option<String>,
}

/// How verbose a log is.
#[derive(Debug, Clone, Copy, PartialEq, Eq)]
pub enum LevelFilter {
    Off,
    Error,
    Warn,
    Info,
    Debug,
    Trace,
}

/// The options of the connections to a database. Times are in seconds.
#[derive(Debug, Clone, Copy, PartialEq, Eq)]
pub struct DatabaseConnectOptionsSettings {
    pub max_connections: Option<u32>,
    pub min_connections: Option<u32>,
    pub connect_timeout: Option<u64>,
    pub idle_timeout: Option<u64>,
    pub acquire_timeout: Option<u64>,
    pub max_lifetime: Option<u64>,
    pub sqlx_logging: bool,
    pub sqlx_logging_level: LevelFilter,
    pub sqlx_slow_statements_logging_level: LevelFilter,
    pub sqlx_slow_statements_logging_threshold: u64,
}

impl DatabaseConnectOptionsSettings {
    /// The default options: no limits of their own, statements logged for debugging, and slow
    /// statements, which take a second or more, not logged.
    pub open spec fn defaults() -> DatabaseConnectOptionsSettings {
        DatabaseConnectOptionsSettings {
            max_connections: None,
            min_connections: None,
            connect_timeout: None,
            idle_timeout: None,
            acquire_timeout: None,
            max_lifetime: None,
            sqlx_logging: true,
            sqlx_logging_level: LevelFilter::Debug,
            sqlx_slow_statements_logging_level: LevelFilter::Off,
            sqlx_slow_statements_logging_threshold: 1,
        }
    }
}

impl Default for DatabaseConnectOptionsSettings {
    fn default() -> (options: DatabaseConnectOptionsSettings)
        ensures
            options == DatabaseConnectOptionsSettings::defaults(),
    {
        DatabaseConnectOptionsSettings {
            max_connections: None,
            min_connections: None,
            connect_timeout: None,
            idle_timeout: None,
            acquire_timeout: None,
            max_lifetime: None,
            sqlx_logging: true,
            sqlx_logging_level: LevelFilter::Debug,
            sqlx_slow_statements_logging_level: LevelFilter::Off,
            sqlx_slow_statements_logging_threshold: 1,
        }
    }
}

/// By default a connection has no limit of its own, and only slow statements go unlogged.
pub proof fn law_default_options_set_no_limits()
    ensures
        ({
            let options = DatabaseConnectOptionsSettings::defaults();
            &&& options.max_connections is None
            &&& options.min_connections is None
            &&& options.connect_timeout is None
            &&& options.idle_timeout is None
            &&& options.acquire_timeout is None
            &&& options.max_lifetime is None
            &&& options.sqlx_logging
            &&& options.sqlx_logging_level is Debug
            &&& options.sqlx_slow_statements_logging_level is Off
            &&& options.sqlx_slow_statements_logging_threshold == 1
        }),
{
}

} // verus!
