//! The settings of a node: where the store is, and under which client name
//! the node works.

use vstd::prelude::*;

verus! {

/// The address of the store that is used where none is configured.
pub open spec fn standard_db_url() -> Seq<char> {
    "mongodb://localhost:27107"@
}

/// The name of the database that is used where none is configured.
pub open spec fn standard_db_name() -> Seq<char> {
    "DefaultDB"@
}

/// The settings of a node.
#[derive(Debug)]
pub struct Config {
    pub db_url: String,
    pub db_name: String,
    pub default_client: String,
}

/// Calls `gethostname::gethostname` and turns the name into a `String`, which
/// fails where the name is not valid Unicode. The name is whatever the
/// operating system reports: nothing is claimed of it.
#[verifier::external_body]
fn host_name() -> (name: Option<String>) {
    gethostname::gethostname().into_string().ok()
}

impl Config {
    /// The settings of a node that works as `default_client` and is
    /// configured no further.
    pub fn for_client(default_client: String) -> (cfg: Config)
        ensures
            cfg.db_url@ == standard_db_url(),
            cfg.db_name@ == standard_db_name(),
            cfg.default_client == default_client,
    {
        Config { db_url: db_url_default(), db_name: db_name_default(), default_client }
    }

    /// The settings of this machine where nothing is configured: it works
    /// under its own host name. There are none where that name is not valid
    /// Unicode.
    pub fn standard() -> (cfg: Option<Config>)
        ensures
            cfg matches Some(cfg) ==> cfg.db_url@ == standard_db_url() && cfg.db_name@
                == standard_db_name(),
    {
        // The host name decides; what follows from it is said by `for_host`.
        let host = default_client_default();
        let cfg = Config::for_host(host);
        cfg
    }
}

/// The address of the store where none is configured.
pub fn db_url_default() -> (url: String)
    ensures
        url@ == standard_db_url(),
{
    "mongodb://localhost:27107".to_owned()
}

/// The name of the database where none is configured.
pub fn db_name_default() -> (name: String)
    ensures
        name@ == standard_db_name(),
{
    "DefaultDB".to_owned()
}

/// The client name where none is configured: the host name of this machine,
/// if it is valid Unicode.
pub fn default_client_default() -> (name: Option<String>) {
    host_name()
}

impl Config {
    /// The settings of a machine where nothing is configured, given its host
    /// name: it works under that name. There are none where the machine has
    /// no host name that is valid Unicode.
    pub fn for_host(host: Option<String>) -> (cfg: Option<Config>)
        ensures
            match host {
                Some(name) => cfg matches Some(made) && made.db_url@ == standard_db_url()
                    && made.db_name@ == standard_db_name() && made.default_client == name,
                None => cfg is None,
            },
    {
        match host {
            Some(name) => Some(Config::for_client(name)),
            None => None,
        }
    }
}

} // verus!
