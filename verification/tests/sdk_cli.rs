use xlm_ns::cli::config::Network;
use xlm_ns::sdk::client::XlmNsClient;
use xlm_ns::sdk::errors::SdkError;
use xlm_ns::sdk::types::{RegistrationRequest, RenewalRequest};

#[test]
fn client_checks_requests() {
    let client = XlmNsClient::new("https://soroban-testnet.example");
    assert_eq!(client.rpc_url, "https://soroban-testnet.example");
    let resolved = client.resolve("timmy.xlm").unwrap();
    assert_eq!(resolved.name, "timmy.xlm");
    assert_eq!(resolved.address, None);
    assert!(client
        .register(RegistrationRequest { label: "timmy".into(), owner: "GABC".into() })
        .is_ok());
    match client.register(RegistrationRequest { label: "  ".into(), owner: "GABC".into() }) {
        Err(e) => assert_eq!(e.message(), "invalid request: label must not be empty"),
        Ok(()) => panic!("blank label accepted"),
    }
    assert!(client
        .renew(RenewalRequest { name: "timmy.xlm".into(), additional_years: 1 })
        .is_ok());
    match client.renew(RenewalRequest { name: "timmy.xlm".into(), additional_years: 0 }) {
        Err(SdkError::InvalidRequest(m)) => assert_eq!(m, "additional_years must be greater than zero"),
        _ => panic!("zero-year renewal accepted"),
    }
    assert_eq!(SdkError::Transport("down".into()).message(), "transport error: down");
}

#[test]
fn parses_networks() {
    assert_eq!(Network::parse("testnet"), Some(Network::Testnet));
    assert_eq!(Network::parse("mainnet"), Some(Network::Mainnet));
    assert_eq!(Network::parse("Mainnet"), None);
    assert_eq!(Network::parse(""), None);
}
