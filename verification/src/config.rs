//! Process configuration.
//!
//! A server reads two settings from its environment: the TCP port the
//! carrier listens on, and the URL of the broker that doubles as the state
//! store.  The environment reading happens in the shell; this type carries
//! the values and owns their defaults.

use vstd::prelude::*;
use vstd::string::StringExecFns;

verus! {

/// The settings one server process runs with.
#[derive(Debug)]
pub struct Config {
    /// The port the carrier listens on.
    pub listen_port: u16,
    /// The URL of the pub/sub broker and state store.
    pub redis_addr: String,
}

impl Config {
    /// A configuration with explicit values.
    pub fn new(listen_port: u16, redis_addr: String) -> (c: Config)
        ensures
            c.listen_port == listen_port,
            c.redis_addr@ == redis_addr@,
    {
        Config { listen_port, redis_addr }
    }
}

impl Default for Config {
    /// The defaults: port 8080, a broker on the local host.
    fn default() -> (c: Config)
        ensures
            c.listen_port == 8080,
            c.redis_addr@ == "redis://127.0.0.1"@,
    {
        Config { listen_port: 8080, redis_addr: String::from_str("redis://127.0.0.1") }
    }
}

} // verus!
