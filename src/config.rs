use vstd::prelude::*;

verus! {

/// Where the datastore lives and how to log in to it.
#[derive(Debug)]
pub struct MysqlConfig {
    pub host: String,
    pub db: String,
    pub user: String,
    pub password: String,
}

/// Where the server keeps its files.
#[derive(Debug)]
pub struct FsConfig {
    pub data_dir: String,
}

/// Security policy switches.
#[derive(Debug)]
pub struct SecurityConfig {
    pub allow_registration: bool,
}

/// The server's configuration file.
#[derive(Debug)]
pub struct Config {
    pub mysql: MysqlConfig,
    pub fs: FsConfig,
    pub security: SecurityConfig,
}

impl Default for Config {
    /// Empty connection settings, no data directory, registration closed.
    fn default() -> (r: Config)
        ensures
            r.mysql.host@.len() == 0,
            r.mysql.db@.len() == 0,
            r.mysql.user@.len() == 0,
            r.mysql.password@.len() == 0,
            r.fs.data_dir@.len() == 0,
            !r.security.allow_registration,
    {
        Config {
            mysql: MysqlConfig { host: String::new(), db: String::new(), user: String::new(), password: String::new() },
            fs: FsConfig { data_dir: String::new() },
            security: SecurityConfig { allow_registration: false },
        }
    }
}

} // verus!
