//! The settings that the service starts with.

use vstd::prelude::*;

verus! {

/// Where the service listens and where its store is.
#[derive(Clone, Debug, PartialEq, Eq)]
pub struct AppConfig {
    pub port: u16,
    pub url: String,
}

/// The port used where none is configured.
pub open spec fn default_port() -> u16 {
    8080
}

/// The store used where none is configured: a database in memory.
pub open spec fn default_url() -> Seq<char> {
    "sqlite::memory:"@
}

/// The settings, given what the configuration source holds: a value that
/// is configured stands, and one that is not falls back to its default,
/// port 8080 and the store `sqlite::memory:`.
pub fn config(port: Option<u16>, url: Option<String>) -> (settings: AppConfig)
    ensures
        settings.port == (match port {
            Some(p) => p,
            None => default_port(),
        }),
        settings.url@ == (match url {
            Some(u) => u@,
            None => default_url(),
        }),
{
    let port = match port {
        Some(p) => p,
        None => 8080,
    };
    let url = match url {
        Some(u) => u,
        None => String::from_str("sqlite::memory:"),
    };
    AppConfig { port, url }
}

} // verus!
