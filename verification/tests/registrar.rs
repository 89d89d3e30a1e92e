use xlm_ns::common::constants::{GRACE_PERIOD_SECONDS, SECONDS_PER_YEAR};
use xlm_ns::registrar::contract::{can_renew, RegistrarContract, RegistrarError, RegistrationQuote};
use xlm_ns::registrar::expiry::expiry_from_now;
use xlm_ns::registrar::pricing::price_for_label_length;

#[test]
fn quotes_by_length_and_years() {
    let registrar = RegistrarContract::new();
    assert_eq!(
        registrar.quote_registration("timmy", 2, 100),
        Ok(RegistrationQuote {
            fee_stroops: 200_000_000,
            expiry_unix: 63_072_100,
            grace_period_ends_at: 65_664_100,
        })
    );
    assert_eq!(
        registrar.quote_registration("abc", 1, 0).map(|q| q.fee_stroops),
        Ok(1_000_000_000)
    );
    assert_eq!(
        registrar.quote_registration("abcd", 1, 0).map(|q| q.fee_stroops),
        Ok(500_000_000)
    );
    assert_eq!(registrar.quote_registration("ab", 1, 0), Err(RegistrarError::Validation));
    assert_eq!(registrar.quote_registration("timmy", 0, 0), Err(RegistrarError::Validation));
}

#[test]
fn pricing_and_expiry_arithmetic() {
    assert_eq!(price_for_label_length(3), 1_000_000_000);
    assert_eq!(price_for_label_length(4), 500_000_000);
    assert_eq!(price_for_label_length(12), 100_000_000);
    assert_eq!(expiry_from_now(10, 1), 10 + SECONDS_PER_YEAR);
    assert_eq!(expiry_from_now(u64::MAX - 5, 1), u64::MAX);
}

#[test]
fn registers_and_collects_fees() {
    let mut registrar = RegistrarContract::new();
    assert!(registrar.is_available("timmy", 100));
    assert_eq!(registrar.register("timmy", "GABC", 1, 100_000_000, 100), Ok(()));
    assert_eq!(registrar.treasury_balance(), 100_000_000);
    assert!(!registrar.is_available("timmy", 100));
    let record = registrar.registration("timmy.xlm").unwrap();
    assert_eq!(record.owner, "GABC");
    assert_eq!(record.registered_at, 100);
    assert_eq!(record.expires_at, 100 + SECONDS_PER_YEAR);
    assert_eq!(record.grace_period_ends_at, 100 + SECONDS_PER_YEAR + GRACE_PERIOD_SECONDS);
    assert_eq!(record.fee_paid, 100_000_000);
    assert_eq!(
        registrar.register("timmy", "GDEF", 1, 100_000_000, 200),
        Err(RegistrarError::AlreadyRegistered)
    );
    assert_eq!(registrar.treasury_balance(), 100_000_000);
}

#[test]
fn register_error_order() {
    let mut registrar = RegistrarContract::new();
    assert_eq!(registrar.register("t", "GABC", 1, 0, 0), Err(RegistrarError::Validation));
    assert_eq!(registrar.register("timmy", "GABC", 11, 0, 0), Err(RegistrarError::Validation));
    assert_eq!(registrar.reserve_label("admin"), Ok(()));
    assert_eq!(registrar.reserve_label("a_b"), Err(RegistrarError::Validation));
    assert_eq!(
        registrar.register("admin", "GABC", 1, u64::MAX, 0),
        Err(RegistrarError::Reserved)
    );
    assert_eq!(
        registrar.register("timmy", "GABC", 1, 99_999_999, 0),
        Err(RegistrarError::InsufficientFee)
    );
    assert_eq!(registrar.treasury_balance(), 0);
    assert!(!registrar.is_available("bad_label", 0));
}

#[test]
fn names_become_available_after_grace() {
    let mut registrar = RegistrarContract::new();
    registrar.register("timmy", "GABC", 1, 100_000_000, 0).unwrap();
    let grace_end = SECONDS_PER_YEAR + GRACE_PERIOD_SECONDS;
    assert!(!registrar.is_available("timmy", grace_end));
    assert!(registrar.is_available("timmy", grace_end + 1));
    assert_eq!(registrar.register("timmy", "GDEF", 1, 100_000_000, grace_end + 1), Ok(()));
    assert_eq!(registrar.registration("timmy.xlm").unwrap().owner, "GDEF");
    assert_eq!(registrar.treasury_balance(), 200_000_000);
}

#[test]
fn renews_from_later_of_expiry_and_now() {
    let mut registrar = RegistrarContract::new();
    registrar.register("timmy", "GABC", 1, 100_000_000, 0).unwrap();
    assert_eq!(
        registrar.renew("timmy.xlm", "GDEF", 1, 100_000_000, 10),
        Err(RegistrarError::Unauthorized)
    );
    assert_eq!(
        registrar.renew("other.xlm", "GABC", 1, 100_000_000, 10),
        Err(RegistrarError::NotFound)
    );
    assert_eq!(registrar.renew("timmy", "GABC", 1, 100_000_000, 10), Err(RegistrarError::Validation));
    assert_eq!(
        registrar.renew("timmy.xlm", "GABC", 1, 1, 10),
        Err(RegistrarError::InsufficientFee)
    );
    assert_eq!(registrar.renew("timmy.xlm", "GABC", 1, 100_000_000, 10), Ok(()));
    let record = registrar.registration("timmy.xlm").unwrap();
    assert_eq!(record.expires_at, 2 * SECONDS_PER_YEAR);
    assert_eq!(record.grace_period_ends_at, 2 * SECONDS_PER_YEAR + GRACE_PERIOD_SECONDS);
    assert_eq!(record.renewed_at, 10);
    assert_eq!(record.fee_paid, 200_000_000);
    assert_eq!(registrar.treasury_balance(), 200_000_000);

    // Renewing in the grace period counts from now.
    let now = 2 * SECONDS_PER_YEAR + 5;
    assert_eq!(registrar.renew("timmy.xlm", "GABC", 1, 100_000_000, now), Ok(()));
    assert_eq!(registrar.registration("timmy.xlm").unwrap().expires_at, now + SECONDS_PER_YEAR);

    // Past the grace period the name is claimable.
    let late = 3 * SECONDS_PER_YEAR + 5 + GRACE_PERIOD_SECONDS + 1;
    assert_eq!(
        registrar.renew("timmy.xlm", "GABC", 1, 100_000_000, late),
        Err(RegistrarError::RegistrationClaimable)
    );
}

#[test]
fn can_renew_until_grace_ends() {
    assert_eq!(can_renew(100, 100), Ok(true));
    assert_eq!(can_renew(100, 100 + GRACE_PERIOD_SECONDS), Ok(true));
    assert_eq!(
        can_renew(100, 101 + GRACE_PERIOD_SECONDS),
        Err(RegistrarError::RegistrationClaimable)
    );
    assert_eq!(can_renew(u64::MAX, u64::MAX), Ok(true));
}
