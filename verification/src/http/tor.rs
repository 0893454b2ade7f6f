//! The proxy into the Tor network and the check that it works.
//!
//! The check is one GET of `CHECK_URL` through the proxy; the page that
//! comes back must hold the sentence `SUCCESS`.

use crate::text::{append_str, chars_of, contains, find_in, string_of};
use vstd::prelude::*;

verus! {

/// The page that tells whether a connection runs through Tor.
pub const CHECK_URL: &'static str = "https://check.torproject.org";

/// The sentence on that page that confirms it.
pub const SUCCESS: &'static str = "Congratulations. This browser is configured to use Tor.";

/// The address of the proxy as a URL: SOCKS 5, names resolved by the proxy.
pub open spec fn proxy_url(address: Seq<char>) -> Seq<char> {
    "socks5h://"@ + address
}

/// The URL of the SOCKS proxy at `address`.
pub fn proxy(address: &str) -> (r: String)
    ensures
        r@ == proxy_url(address@),
{
    let mut out: Vec<char> = Vec::new();
    append_str(&mut out, "socks5h://");
    append_str(&mut out, address);
    string_of(&out)
}

/// What came of the GET of the check page.
#[derive(Debug)]
pub enum Check {
    /// The page could not be reached.
    Unreachable,
    /// An answer came, but its body could not be read.
    Unreadable,
    /// The body of the page.
    Page(String),
}

/// `Check` over plain values.
pub enum CheckView {
    Unreachable,
    Unreadable,
    Page(Seq<char>),
}

impl View for Check {
    type V = CheckView;

    open spec fn view(&self) -> CheckView {
        match self {
            Check::Unreachable => CheckView::Unreachable,
            Check::Unreadable => CheckView::Unreadable,
            Check::Page(body) => CheckView::Page(body@),
        }
    }
}

/// Why the proxy may not be used.
#[derive(Debug, Clone, Copy, PartialEq, Eq, Structural)]
pub enum ProxyValidationError {
    /// The check page could not be reached through the proxy.
    Unreachable,
    /// The check page could not be read.
    Unreadable,
    /// The check page does not confirm a connection through Tor.
    NotConnected,
}

impl ProxyValidationError {
    /// The error as text.
    pub fn message(&self) -> (r: &'static str)
        ensures
            r@ == match self {
                ProxyValidationError::Unreachable => "Could not connect to https://check.torproject.org"@,
                ProxyValidationError::Unreadable => "Could not read response from https://check.torproject.org"@,
                ProxyValidationError::NotConnected => "Unsuccessful connection to Tor. Integrity and correctness assertion failed, exiting."@,
            },
    {
        match self {
            ProxyValidationError::Unreachable => {
                "Could not connect to https://check.torproject.org"
            },
            ProxyValidationError::Unreadable => {
                "Could not read response from https://check.torproject.org"
            },
            ProxyValidationError::NotConnected => {
                "Unsuccessful connection to Tor. Integrity and correctness assertion failed, exiting."
            },
        }
    }
}

/// Whether the check confirms the proxy, or why it does not: the page must
/// have been read and hold the sentence `SUCCESS`.
pub open spec fn verdict(check: CheckView) -> Result<(), ProxyValidationError> {
    match check {
        CheckView::Unreachable => Err(ProxyValidationError::Unreachable),
        CheckView::Unreadable => Err(ProxyValidationError::Unreadable),
        CheckView::Page(body) => if contains(body, SUCCESS@) {
            Ok(())
        } else {
            Err(ProxyValidationError::NotConnected)
        },
    }
}

/// Whether a page confirms a connection through Tor.
pub fn is_connected(body: &str) -> (r: bool)
    ensures
        r == contains(body@, SUCCESS@),
{
    find_in(&chars_of(body), &chars_of(SUCCESS))
}

/// Judges what came of the GET of the check page.
pub fn validate_client_proxy(check: &Check) -> (r: Result<(), ProxyValidationError>)
    ensures
        r == verdict(check@),
{
    match check {
        Check::Unreachable => Err(ProxyValidationError::Unreachable),
        Check::Unreadable => Err(ProxyValidationError::Unreadable),
        Check::Page(body) => {
            if is_connected(body.as_str()) {
                Ok(())
            } else {
                Err(ProxyValidationError::NotConnected)
            }
        },
    }
}

} // verus!
