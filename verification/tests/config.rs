use swiftdns::config::{Mode, SwiftConfig, TorConfig};
use swiftdns::http::client::{Client, Permit};
use swiftdns::http::tor::{
    is_connected, proxy, validate_client_proxy, Check, ProxyValidationError, CHECK_URL, SUCCESS,
};

#[test]
fn endpoints_of_the_modes() {
    assert_eq!(Mode::Standard.ip_address(), "1.1.1.1");
    assert_eq!(Mode::Safe.ip_address(), "1.1.1.2");
    assert_eq!(Mode::Clean.ip_address(), "1.1.1.3");
}

#[test]
fn mode_of_an_endpoint() {
    assert_eq!(Mode::from_ip_address("1.1.1.1"), Some(Mode::Standard));
    assert_eq!(Mode::from_ip_address("1.1.1.2"), Some(Mode::Safe));
    assert_eq!(Mode::from_ip_address("1.1.1.3"), Some(Mode::Clean));
    assert_eq!(Mode::from_ip_address("1.1.1.4"), None);
    assert_eq!(Mode::from_ip_address(""), None);
    assert_eq!(Mode::from_ip_address("standard"), None);
    assert_eq!(Mode::from_ip_address(" 1.1.1.1"), None);
}

#[test]
fn proxy_address_of_the_settings() {
    assert_eq!(TorConfig::default_address(), "127.0.0.1:9050");
    let named = TorConfig { enabled: true, address: Some("10.0.0.7:9150".to_string()) };
    assert_eq!(named.get_address(), "10.0.0.7:9150");
    let unnamed = TorConfig { enabled: true, address: None };
    assert_eq!(unnamed.get_address(), "127.0.0.1:9050");
}

#[test]
fn default_settings() {
    let config = SwiftConfig::default();
    assert_eq!(config.mode, Mode::Standard);
    assert_eq!(config.address, "127.0.0.1:53");
    assert!(!config.tor.enabled);
    assert_eq!(config.tor.address.as_deref(), Some("127.0.0.1:9050"));
}

#[test]
fn url_of_the_proxy() {
    assert_eq!(proxy("127.0.0.1:9050"), "socks5h://127.0.0.1:9050");
    assert_eq!(proxy(""), "socks5h://");
}

#[test]
fn check_page_and_sentence() {
    assert_eq!(CHECK_URL, "https://check.torproject.org");
    assert_eq!(SUCCESS, "Congratulations. This browser is configured to use Tor.");
}

#[test]
fn page_confirms_tor_only_with_the_whole_sentence() {
    assert!(is_connected("Congratulations. This browser is configured to use Tor."));
    assert!(is_connected(
        "<h1 class=\"on\">\n  Congratulations. This browser is configured to use Tor.\n</h1>"
    ));
    assert!(!is_connected("Sorry. You are not using Tor."));
    assert!(!is_connected("Congratulations. This browser is configured to use Tor"));
    assert!(!is_connected("congratulations. this browser is configured to use tor."));
    assert!(!is_connected(""));
}

#[test]
fn verdict_on_the_check() {
    assert_eq!(
        validate_client_proxy(&Check::Unreachable),
        Err(ProxyValidationError::Unreachable)
    );
    assert_eq!(validate_client_proxy(&Check::Unreadable), Err(ProxyValidationError::Unreadable));
    assert_eq!(
        validate_client_proxy(&Check::Page("Sorry. You are not using Tor.".to_string())),
        Err(ProxyValidationError::NotConnected)
    );
    assert_eq!(validate_client_proxy(&Check::Page(format!("<p>{SUCCESS}</p>"))), Ok(()));
}

#[test]
fn validation_error_messages() {
    assert_eq!(
        ProxyValidationError::Unreachable.message(),
        "Could not connect to https://check.torproject.org"
    );
    assert_eq!(
        ProxyValidationError::Unreadable.message(),
        "Could not read response from https://check.torproject.org"
    );
    assert_eq!(
        ProxyValidationError::NotConnected.message(),
        "Unsuccessful connection to Tor. Integrity and correctness assertion failed, exiting."
    );
}

#[test]
fn client_without_tor_needs_no_validation() {
    let client = Client::new(&SwiftConfig::default());
    assert_eq!(client.get(), Permit::Proceed);
    assert_eq!(client.proxy_url(), None);
}

#[test]
fn client_with_tor_is_validated_once() {
    let mut config = SwiftConfig::default();
    config.tor.enabled = true;
    let mut client = Client::new(&config);
    assert_eq!(client.proxy_url(), Some("socks5h://127.0.0.1:9050"));
    assert_eq!(client.get(), Permit::Validate);

    // a failed check leaves the client where it was
    assert_eq!(client.validate(&Check::Unreachable), Err(ProxyValidationError::Unreachable));
    assert_eq!(client.get(), Permit::Validate);
    assert_eq!(
        client.validate(&Check::Page("Sorry. You are not using Tor.".to_string())),
        Err(ProxyValidationError::NotConnected)
    );
    assert_eq!(client.get(), Permit::Validate);

    assert_eq!(client.validate(&Check::Page(SUCCESS.to_string())), Ok(()));
    assert_eq!(client.get(), Permit::Proceed);
    assert_eq!(client.get(), Permit::Proceed);

    // once validated, always validated
    assert_eq!(client.validate(&Check::Unreachable), Err(ProxyValidationError::Unreachable));
    assert_eq!(client.get(), Permit::Proceed);
    assert_eq!(client.proxy_url(), Some("socks5h://127.0.0.1:9050"));
}

#[test]
fn client_uses_the_proxy_address_of_the_settings() {
    let config = SwiftConfig {
        mode: Mode::Clean,
        address: "0.0.0.0:5353".to_string(),
        tor: TorConfig { enabled: true, address: Some("tor.internal:9150".to_string()) },
    };
    assert_eq!(Client::new(&config).proxy_url(), Some("socks5h://tor.internal:9150"));
    let unnamed = SwiftConfig {
        mode: Mode::Clean,
        address: "0.0.0.0:5353".to_string(),
        tor: TorConfig { enabled: true, address: None },
    };
    assert_eq!(Client::new(&unnamed).proxy_url(), Some("socks5h://127.0.0.1:9050"));
    let disabled = SwiftConfig {
        mode: Mode::Clean,
        address: "0.0.0.0:5353".to_string(),
        tor: TorConfig { enabled: false, address: Some("tor.internal:9150".to_string()) },
    };
    assert_eq!(Client::new(&disabled).proxy_url(), None);
}
