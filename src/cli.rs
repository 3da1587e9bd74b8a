//! The inputs of one certificate lookup.

use vstd::prelude::*;

verus! {

/// What the user asked for: where to connect, which name to expect, and how
/// much to print.
pub struct Command {
    /// Server hostname or IP address.
    pub host: String,
    /// Destination port.
    pub port: u16,
    /// Domain name expected in the certificate; the host when absent.
    pub domain: Option<String>,
    /// Summarize every certificate of the chain, not only the first.
    pub all: bool,
    /// Print every Subject Alternative Name, not only the first ten.
    pub print_all_sans: bool,
}

impl Command {
    /// The name presented for SNI and hostname verification.
    pub fn domain(&self) -> (r: &String)
        ensures
            *r == (match self.domain {
                Some(d) => d,
                None => self.host,
            }),
    {
        match &self.domain {
            Some(d) => d,
            None => &self.host,
        }
    }
}

} // verus!
