//! The settings of the proxy.

use crate::text::{chars_of, same_chars};
use vstd::prelude::*;

verus! {

/// Which of the upstream resolver's three endpoints is asked: they differ in
/// what the resolver itself filters.
#[derive(Debug, Clone, Copy, PartialEq, Eq, Structural)]
pub enum Mode {
    /// No filtering.
    Standard,
    /// Malware is blocked.
    Safe,
    /// Malware and adult content are blocked.
    Clean,
}

impl Mode {
    /// The address of the endpoint.
    pub open spec fn address(self) -> Seq<char> {
        match self {
            Mode::Standard => "1.1.1.1"@,
            Mode::Safe => "1.1.1.2"@,
            Mode::Clean => "1.1.1.3"@,
        }
    }

    /// The address of the endpoint.
    pub fn ip_address(&self) -> (r: &'static str)
        ensures
            r@ == self.address(),
    {
        match self {
            Mode::Standard => "1.1.1.1",
            Mode::Safe => "1.1.1.2",
            Mode::Clean => "1.1.1.3",
        }
    }

    /// The mode whose endpoint has the address `input`.
    pub fn from_ip_address(input: &str) -> (r: Option<Mode>)
        ensures
            match r {
                Some(mode) => mode.address() == input@,
                None => forall|mode: Mode| mode.address() != input@,
            },
    {
        let text = chars_of(input);
        if same_chars(&text, &chars_of(Mode::Standard.ip_address())) {
            Some(Mode::Standard)
        } else if same_chars(&text, &chars_of(Mode::Safe.ip_address())) {
            Some(Mode::Safe)
        } else if same_chars(&text, &chars_of(Mode::Clean.ip_address())) {
            Some(Mode::Clean)
        } else {
            assert forall|mode: Mode| mode.address() != input@ by {
                match mode {
                    Mode::Standard => {},
                    Mode::Safe => {},
                    Mode::Clean => {},
                }
            }
            None
        }
    }
}

/// No two modes share an endpoint, so an address names at most one mode.
pub proof fn lemma_mode_addresses_differ(a: Mode, b: Mode)
    ensures
        a.address() == b.address() ==> a == b,
{
    reveal_strlit("1.1.1.1");
    reveal_strlit("1.1.1.2");
    reveal_strlit("1.1.1.3");
    assert("1.1.1.1"@[6] == '1');
    assert("1.1.1.2"@[6] == '2');
    assert("1.1.1.3"@[6] == '3');
}

/// The address of the SOCKS endpoint where the settings name none.
pub open spec fn default_proxy_address() -> Seq<char> {
    "127.0.0.1:9050"@
}

/// Whether, and through which SOCKS endpoint, the proxy reaches the resolver
/// over Tor.
#[derive(Debug)]
pub struct TorConfig {
    pub enabled: bool,
    pub address: Option<String>,
}

impl TorConfig {
    /// The address of the SOCKS endpoint in these settings.
    pub open spec fn proxy_address(&self) -> Seq<char> {
        match self.address {
            Some(address) => address@,
            None => default_proxy_address(),
        }
    }

    /// The address of the SOCKS endpoint where the settings name none.
    pub fn default_address() -> (r: String)
        ensures
            r@ == default_proxy_address(),
    {
        "127.0.0.1:9050".to_owned()
    }

    /// The address of the SOCKS endpoint.
    pub fn get_address(&self) -> (r: String)
        ensures
            r@ == self.proxy_address(),
    {
        match &self.address {
            Some(address) => address.clone(),
            None => TorConfig::default_address(),
        }
    }
}

/// The settings of the proxy.
#[derive(Debug)]
pub struct SwiftConfig {
    /// The endpoint of the upstream resolver.
    pub mode: Mode,
    /// The address and port on which the proxy listens.
    pub address: String,
    pub tor: TorConfig,
}

impl Default for SwiftConfig {
    fn default() -> (r: Self)
        ensures
            r.mode == Mode::Standard,
            r.address@ == "127.0.0.1:53"@,
            !r.tor.enabled,
            r.tor.address matches Some(address) && address@ == default_proxy_address(),
    {
        SwiftConfig {
            mode: Mode::Standard,
            address: "127.0.0.1:53".to_owned(),
            tor: TorConfig { enabled: false, address: Some(TorConfig::default_address()) },
        }
    }
}

} // verus!
