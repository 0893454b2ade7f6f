//! The way to the upstream resolver: directly, or through a SOCKS proxy that
//! must first be shown to lead into the Tor network.

pub mod client;
pub mod tor;
