//! The state of the HTTP client: which proxy it goes through, and whether
//! that proxy has been validated.
//!
//! With a proxy, the first request waits for the validation of `tor`; once
//! that has succeeded it is never repeated.

use crate::config::SwiftConfig;
use crate::http::tor::{
    proxy, proxy_url, validate_client_proxy, verdict, Check, ProxyValidationError,
};
use vstd::prelude::*;

verus! {

/// What has to happen before a request goes out.
#[derive(Debug, Clone, Copy, PartialEq, Eq, Structural)]
pub enum Permit {
    /// The request may go out.
    Proceed,
    /// The proxy has to be validated first.
    Validate,
}

/// The state of the HTTP client.
#[derive(Debug)]
pub struct Client {
    proxy: Option<String>,
    validated: bool,
}

impl Client {
    /// The URL of the proxy that all requests go through, if any.
    pub closed spec fn spec_proxy(&self) -> Option<Seq<char>> {
        match self.proxy {
            Some(url) => Some(url@),
            None => None,
        }
    }

    /// Whether requests may go out.
    pub closed spec fn is_validated(&self) -> bool {
        self.validated
    }

    /// The client for these settings: with Tor enabled it goes through the
    /// SOCKS proxy of the settings and is not validated yet; without, it
    /// goes out directly and needs no validation.
    pub fn new(config: &SwiftConfig) -> (r: Client)
        ensures
            r.is_validated() == !config.tor.enabled,
            r.spec_proxy() == if config.tor.enabled {
                Some(proxy_url(config.tor.proxy_address()))
            } else {
                None
            },
    {
        if config.tor.enabled {
            let address = config.tor.get_address();
            Client { proxy: Some(proxy(address.as_str())), validated: false }
        } else {
            Client { proxy: None, validated: true }
        }
    }

    /// The URL of the proxy that all requests go through, if any.
    pub fn proxy_url(&self) -> (r: Option<&str>)
        ensures
            match r {
                Some(url) => self.spec_proxy() == Some(url@),
                None => self.spec_proxy() is None,
            },
    {
        match &self.proxy {
            Some(url) => Some(url.as_str()),
            None => None,
        }
    }

    /// What has to happen before the next request goes out.
    pub fn get(&self) -> (r: Permit)
        ensures
            r == if self.is_validated() {
                Permit::Proceed
            } else {
                Permit::Validate
            },
    {
        if self.validated {
            Permit::Proceed
        } else {
            Permit::Validate
        }
    }

    /// Takes note of what came of the GET of the check page. A validated
    /// client stays validated; one that is not becomes so exactly when the
    /// check confirms the proxy.
    pub fn validate(&mut self, check: &Check) -> (r: Result<(), ProxyValidationError>)
        ensures
            r == verdict(check@),
            final(self).is_validated() == (old(self).is_validated() || verdict(check@) is Ok),
            final(self).spec_proxy() == old(self).spec_proxy(),
    {
        let result = validate_client_proxy(check);
        if result.is_ok() {
            self.validated = true;
        }
        result
    }
}

} // verus!
