use vstd::prelude::*;

verus! {

/// Where the store is kept unless the environment says otherwise.
pub const DEFAULT_DATABASE_URL: &'static str = "trade_copier.db";

/// Where the server listens unless the environment says otherwise.
pub const DEFAULT_SERVER_ADDR: &'static str = "127.0.0.1:8080";

/// Where the store is kept and where the server listens.
#[derive(Debug)]
pub struct Config {
    pub database_url: String,
    pub server_addr: String,
}

impl Config {
    /// The configuration that the two settings give, each as it was found in
    /// the environment or `None` where it was not set: a setting that is not
    /// there takes its default.
    pub fn from_vars(database_url: Option<String>, server_addr: Option<String>) -> (r: Config)
        ensures
            r.database_url@ == match database_url {
                Some(url) => url@,
                None => DEFAULT_DATABASE_URL@,
            },
            r.server_addr@ == match server_addr {
                Some(addr) => addr@,
                None => DEFAULT_SERVER_ADDR@,
            },
    {
        Config {
            database_url: match database_url {
                Some(url) => url,
                None => DEFAULT_DATABASE_URL.to_owned(),
            },
            server_addr: match server_addr {
                Some(addr) => addr,
                None => DEFAULT_SERVER_ADDR.to_owned(),
            },
        }
    }
}

} // verus!
