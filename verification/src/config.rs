//! Settings of the node: where it listens and the password that it asks of
//! its controllers.

use vstd::prelude::*;
use vstd::string::StringExecFns;

verus! {

/// The port on which the node listens unless told otherwise.
pub const DEFAULT_PORT: u16 = 2333;

#[derive(Debug, Clone, PartialEq, Eq)]
pub struct Configuration {
    pub server: ServerConfiguration,
    pub media: MediaConfiguration,
}

#[derive(Debug, Clone, PartialEq, Eq)]
pub struct ServerConfiguration {
    pub port: u16,
    pub address: String,
}

#[derive(Debug, Clone, PartialEq, Eq)]
pub struct MediaConfiguration {
    pub server: MediaServerConfiguration,
}

#[derive(Debug, Clone, PartialEq, Eq)]
pub struct MediaServerConfiguration {
    pub password: String,
}

impl Configuration {
    /// Whether every setting has its default value.
    pub open spec fn is_default(&self) -> bool {
        &&& self.server.port == DEFAULT_PORT
        &&& self.server.address@ == "0.0.0.0"@
        &&& self.media.server.password@ == "youshallnotpass"@
    }
}

impl Default for Configuration {
    fn default() -> (configuration: Configuration)
        ensures
            configuration.is_default(),
    {
        Configuration {
            server: ServerConfiguration::default(),
            media: MediaConfiguration::default(),
        }
    }
}

impl Default for ServerConfiguration {
    fn default() -> (server: ServerConfiguration)
        ensures
            server.port == DEFAULT_PORT,
            server.address@ == "0.0.0.0"@,
    {
        ServerConfiguration { port: DEFAULT_PORT, address: String::from_str("0.0.0.0") }
    }
}

impl Default for MediaConfiguration {
    fn default() -> (media: MediaConfiguration)
        ensures
            media.server.password@ == "youshallnotpass"@,
    {
        MediaConfiguration { server: MediaServerConfiguration::default() }
    }
}

impl Default for MediaServerConfiguration {
    fn default() -> (server: MediaServerConfiguration)
        ensures
            server.password@ == "youshallnotpass"@,
    {
        MediaServerConfiguration { password: String::from_str("youshallnotpass") }
    }
}

} // verus!
