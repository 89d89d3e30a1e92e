use xlm_ns::common::constants::{
    MAX_NAME_LENGTH, MAX_REGISTRATION_YEARS, MIN_NAME_LENGTH, MIN_REGISTRATION_YEARS,
};
use xlm_ns::common::errors::CommonError;
use xlm_ns::common::types::{NameRecord, Tld};
use xlm_ns::common::validation::{
    build_xlm_name, extract_label, parse_fqdn, validate_chain_name, validate_fqdn, validate_label,
    validate_owner, validate_registration_years,
};

#[test]
fn rejects_short_labels() {
    let short_label = "a".repeat(MIN_NAME_LENGTH - 1);

    assert_eq!(
        validate_label(&short_label),
        Err(CommonError::NameTooShort)
    );
}

#[test]
fn rejects_long_labels() {
    let long_label = "a".repeat(MAX_NAME_LENGTH + 1);

    assert_eq!(validate_label(&long_label), Err(CommonError::NameTooLong));
}

#[test]
fn rejects_unsupported_tlds() {
    assert_eq!(
        parse_fqdn("valid.eth"),
        Err(CommonError::UnsupportedTld)
    );
}

#[test]
fn rejects_invalid_characters() {
    assert_eq!(
        validate_label("ab_"),
        Err(CommonError::InvalidCharacters)
    );
    assert_eq!(
        parse_fqdn("ab_.xlm"),
        Err(CommonError::InvalidCharacters)
    );
}

#[test]
fn rejects_labels_with_invalid_hyphen_boundaries() {
    assert_eq!(
        validate_label("-abc"),
        Err(CommonError::InvalidLabelBoundary)
    );
    assert_eq!(
        validate_label("abc-"),
        Err(CommonError::InvalidLabelBoundary)
    );
}

#[test]
fn accepts_valid_fqdn() {
    assert_eq!(parse_fqdn("abc-123.xlm"), Ok(("abc-123".to_string(), Tld::Xlm)));
}

#[test]
fn enforces_registration_year_bounds() {
    assert_eq!(
        validate_registration_years(MIN_REGISTRATION_YEARS),
        Ok(())
    );
    assert_eq!(
        validate_registration_years(MAX_REGISTRATION_YEARS),
        Ok(())
    );
    assert_eq!(
        validate_registration_years(MIN_REGISTRATION_YEARS - 1),
        Err(CommonError::InvalidRegistrationPeriod)
    );
    assert_eq!(
        validate_registration_years(MAX_REGISTRATION_YEARS + 1),
        Err(CommonError::InvalidRegistrationPeriod)
    );
}

#[test]
fn validates_chain_name_presence() {
    assert_eq!(validate_chain_name("stellar"), Ok(()));
    assert_eq!(
        validate_chain_name("   "),
        Err(CommonError::EmptyChainName)
    );
}

#[test]
fn label_length_counts_bytes() {
    // Two characters but four bytes: long enough, yet not allowed characters.
    assert_eq!(validate_label("éé"), Err(CommonError::InvalidCharacters));
    // One character of two bytes is still too short.
    assert_eq!(validate_label("é"), Err(CommonError::NameTooShort));
    assert_eq!(validate_label(&"a".repeat(MAX_NAME_LENGTH)), Ok(()));
    assert_eq!(validate_label(&"a".repeat(MIN_NAME_LENGTH)), Ok(()));
}

#[test]
fn rejects_uppercase_labels() {
    assert_eq!(validate_label("Timmy"), Err(CommonError::InvalidCharacters));
}

#[test]
fn parse_fqdn_error_cases() {
    assert_eq!(parse_fqdn("timmy"), Err(CommonError::MissingTld));
    assert_eq!(parse_fqdn("a.b.xlm"), Err(CommonError::InvalidName));
    assert_eq!(parse_fqdn("pay.timmy.xlm"), Err(CommonError::InvalidName));
    assert_eq!(parse_fqdn("ab.xlm"), Err(CommonError::NameTooShort));
    assert_eq!(parse_fqdn("timmy.XLM"), Err(CommonError::UnsupportedTld));
    assert_eq!(parse_fqdn(".xlm"), Err(CommonError::NameTooShort));
    assert_eq!(parse_fqdn("timmy."), Err(CommonError::UnsupportedTld));
}

#[test]
fn validate_fqdn_and_extract_label() {
    assert_eq!(validate_fqdn("timmy.xlm"), Ok(()));
    assert_eq!(validate_fqdn("timmy"), Err(CommonError::MissingTld));
    assert_eq!(extract_label("timmy.xlm"), Ok("timmy".to_string()));
    assert_eq!(extract_label("-ab.xlm"), Err(CommonError::InvalidLabelBoundary));
}

#[test]
fn builds_xlm_names() {
    assert_eq!(build_xlm_name("timmy"), Ok("timmy.xlm".to_string()));
    assert_eq!(build_xlm_name("t"), Err(CommonError::NameTooShort));
}

#[test]
fn fqdn_round_trips_through_parse() {
    let record = NameRecord {
        label: "abc-123".to_string(),
        tld: Tld::Xlm,
        owner: "GABC".to_string(),
        resolver: None,
        ttl_seconds: 60,
    };
    let name = record.fqdn();
    assert_eq!(name, "abc-123.xlm");
    assert_eq!(parse_fqdn(&name), Ok((record.label.clone(), record.tld.clone())));
    assert_eq!(Tld::Xlm.as_str(), "xlm");
    assert_eq!(Tld::parse("xlm"), Some(Tld::Xlm));
    assert_eq!(Tld::parse("eth"), None);
}

#[test]
fn owners_must_not_be_blank() {
    assert_eq!(validate_owner("GABC"), Ok(()));
    assert_eq!(validate_owner(""), Err(CommonError::EmptyOwner));
    assert_eq!(validate_owner(" \t\n\u{3000}"), Err(CommonError::EmptyOwner));
    assert_eq!(validate_owner(" x "), Ok(()));
}

#[test]
fn error_messages() {
    assert_eq!(CommonError::NameTooShort.message(), "name is too short");
    assert_eq!(
        CommonError::InvalidRegistrationPeriod.message(),
        "registration period is outside the supported range"
    );
    assert_eq!(CommonError::EmptyChainName.message(), "chain name must not be empty");
}
