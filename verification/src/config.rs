//! How the service is set up.

use vstd::prelude::*;
use crate::number::{parse_unsigned, unsigned_of, within};

verus! {

/// The port to listen on where what is set is no port.
pub const DEFAULT_PORT: u16 = 8080;

/// The settings of the service.
#[derive(Debug, Clone, Copy, PartialEq, Eq, Structural)]
pub struct Config {
    pub port: u16,
}

/// The port that the setting `text` asks for: the number it writes, where it writes
/// one that a port can be, else the default.
pub open spec fn port_of(text: Seq<char>) -> u16 {
    match within(unsigned_of(text), 0xffff) {
        Some(p) => p as u16,
        None => DEFAULT_PORT,
    }
}

impl Config {
    /// The settings of a service whose port is set to `port`. A service whose port is
    /// not set does not start: there are no settings for it.
    pub fn new(port: Option<&str>) -> (r: Config)
        requires
            port is Some,
        ensures
            r.port == port_of(port->0@),
    {
        let port: u16 = match parse_unsigned(port.unwrap(), 0xffff) {
            Some(p) => p as u16,
            None => DEFAULT_PORT,
        };
        Config { port }
    }
}

} // verus!
