//! The runtime configuration the surrounding program loads at startup,
//! and the defaults the server applies to its optional entries.

use vstd::prelude::*;
use vstd::string::StringExecFns;

verus! {

/// Logging options of the configuration file.
pub struct Logging {
    pub level: Option<String>,
    pub directory: Option<String>,
}

/// Connection settings of the relational store.
pub struct DbConfig {
    pub username: String,
    pub password: String,
    pub host: String,
    pub port: u16,
    pub database: String,
}

/// The whole runtime configuration.
pub struct Config {
    pub inverters_dir: Option<String>,
    pub database: DbConfig,
    pub listen_port: Option<u16>,
    pub remote_address: Option<String>,
    pub logging: Option<Logging>,
}

impl Config {
    /// The port the listener binds: the configured one, or 5279.
    pub fn effective_listen_port(&self) -> (r: u16)
        ensures
            self.listen_port matches Some(p) ==> r == p,
            self.listen_port is None ==> r == 5279,
    {
        match self.listen_port {
            Some(p) => p,
            None => 5279,
        }
    }

    /// The upstream endpoint a session dials: the configured address,
    /// or the vendor cloud.
    pub fn effective_remote_address(&self) -> (r: String)
        ensures
            self.remote_address matches Some(a) ==> r@ == a@,
            self.remote_address is None ==> r@ == "server.growatt.com:5279"@,
    {
        match &self.remote_address {
            Some(a) => a.clone(),
            None => String::from_str("server.growatt.com:5279"),
        }
    }

    /// The schema file the decoder is driven by: the configured path,
    /// or the bundled default.
    pub fn effective_inverters_dir(&self) -> (r: String)
        ensures
            self.inverters_dir matches Some(d) ==> r@ == d@,
            self.inverters_dir is None ==> r@ == "./inverters/Growatt v6.yaml"@,
    {
        match &self.inverters_dir {
            Some(d) => d.clone(),
            None => String::from_str("./inverters/Growatt v6.yaml"),
        }
    }
}

} // verus!
