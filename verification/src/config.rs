//! Plain configuration values the core works with.
//!
//! How these are read from disk, merged with defaults and (de)serialized is
//! the surrounding binary's business; the core only consumes the resulting
//! values.

use vstd::prelude::*;

verus! {

/// The application's effective configuration.
#[derive(Clone, Debug)]
pub struct AppConfig {
    /// Address the local relay listens on.
    pub api_listen_address: String,
    /// Base URL assets are fetched from.
    pub url_network: String,
    /// Address the launched service is told to listen on.
    pub walletshield_listen_address: String,
}

/// The static client configuration the desktop shell ships with.
#[derive(Clone, Debug)]
pub struct ZKNetClientCfg {
    /// Address the local relay listens on.
    pub api_listen_address: String,
    /// Default listen address handed to the launched service.
    pub default_walletshield_listen_address: String,
    /// Base URL assets are fetched from.
    pub url_network: String,
}

} // verus!
