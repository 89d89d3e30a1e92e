use xlm_ns::bridge::axelar::build_gmp_message;
use xlm_ns::bridge::routes::target_for_chain;

#[test]
fn builds_axelar_payloads() {
    let payload = build_gmp_message("timmy.xlm", "base", "0xbaseResolver");
    assert!(payload.contains("timmy.xlm"));
    assert_eq!(target_for_chain("base"), Some("0xbaseResolver"));
}

#[test]
fn payload_has_exact_shape() {
    let payload = build_gmp_message("timmy.xlm", "base", "0xbaseResolver");
    assert_eq!(
        payload,
        "{\"type\":\"xlm-ns-resolution\",\"name\":\"timmy.xlm\",\"destination_chain\":\"base\",\"resolver\":\"0xbaseResolver\"}"
    );
}

#[test]
fn unknown_chains_have_no_target() {
    assert_eq!(target_for_chain("ethereum"), None);
    assert_eq!(target_for_chain("Base"), None);
}
