//! Decoding of X.509 certificates into display-ready summaries, and the
//! decisions around a TLS certificate lookup.

pub mod ip;
pub mod cert;
pub mod cli;
pub mod lookup;
pub mod display;
