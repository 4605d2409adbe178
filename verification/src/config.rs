//! The settings of a server.

use crate::text::{decimal_digits, decimal_string};
use vstd::prelude::*;

verus! {

/// Where the server listens, and how.
#[derive(Debug)]
pub struct Config {
    pub host: String,
    pub port: u16,
    pub workers: usize,
    pub static_dir: Option<String>,
    pub log_level: String,
}

impl Default for Config {
    /// The settings of a server that was given none: it listens on
    /// 127.0.0.1, port 7878, with four workers, and logs at level `info`.
    fn default() -> (c: Config)
        ensures
            c.host@ == "127.0.0.1"@,
            c.port == 7878,
            c.workers == 4,
            c.static_dir is None,
            c.log_level@ == "info"@,
    {
        Config {
            host: String::from_str("127.0.0.1"),
            port: 7878,
            workers: 4,
            static_dir: None,
            log_level: String::from_str("info"),
        }
    }
}

impl Config {
    /// The address to listen on: the host, a colon, the port in decimal.
    pub fn address(&self) -> (s: String)
        ensures
            s@ == self.host@ + ":"@ + decimal_digits(self.port as nat),
    {
        let mut s = String::from_str(self.host.as_str());
        s.append(":");
        s.append(decimal_string(self.port as u128).as_str());
        s
    }
}

} // verus!
