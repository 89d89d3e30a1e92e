use xlm_ns::common::errors::CommonError;
use xlm_ns::subdomain::contract::{SubdomainContract, SubdomainError};
use xlm_ns::subdomain::manager::build_subdomain;

#[test]
fn creates_and_transfers_subdomains() {
    let mut contract = SubdomainContract::default();
    contract.register_parent("timmy.xlm", "GABC").unwrap();
    assert_eq!(
        contract.create("pay", "timmy.xlm", "GABC", "GPAY", 10),
        Ok("pay.timmy.xlm".to_string())
    );
    assert!(contract.subdomain_exists("pay.timmy.xlm"));
    let record = contract.record("pay.timmy.xlm").unwrap();
    assert_eq!(record.parent, "timmy.xlm");
    assert_eq!(record.owner, "GPAY");
    assert_eq!(record.created_at, 10);
    assert_eq!(
        contract.create("pay", "timmy.xlm", "GABC", "GOTHER", 11),
        Err(SubdomainError::AlreadyExists)
    );
    assert_eq!(
        contract.transfer("pay.timmy.xlm", "GABC", "GNEW"),
        Err(SubdomainError::Unauthorized)
    );
    assert_eq!(contract.transfer("pay.timmy.xlm", "GPAY", "GNEW"), Ok(()));
    assert_eq!(contract.record("pay.timmy.xlm").unwrap().owner, "GNEW");
    assert_eq!(
        contract.transfer("nope.timmy.xlm", "GPAY", "GNEW"),
        Err(SubdomainError::NotFound)
    );
    assert_eq!(
        contract.transfer("pay.timmy.xlm", "GNEW", " "),
        Err(SubdomainError::Validation(CommonError::EmptyOwner))
    );
}

#[test]
fn controllers_may_issue() {
    let mut contract = SubdomainContract::new();
    contract.register_parent("timmy.xlm", "GABC").unwrap();
    assert_eq!(
        contract.create("app", "timmy.xlm", "GCTL", "GAPP", 0),
        Err(SubdomainError::Unauthorized)
    );
    assert_eq!(
        contract.add_controller("timmy.xlm", "GCTL", "GCTL"),
        Err(SubdomainError::Unauthorized)
    );
    assert_eq!(contract.add_controller("timmy.xlm", "GABC", "GCTL"), Ok(()));
    assert_eq!(contract.add_controller("timmy.xlm", "GABC", "GCTL"), Ok(()));
    assert_eq!(
        contract.add_controller("other.xlm", "GABC", "GCTL"),
        Err(SubdomainError::ParentNotFound)
    );
    assert_eq!(
        contract.add_controller("timmy.xlm", "GABC", ""),
        Err(SubdomainError::Validation(CommonError::EmptyOwner))
    );
    assert_eq!(
        contract.create("app", "timmy.xlm", "GCTL", "GAPP", 0),
        Ok("app.timmy.xlm".to_string())
    );
}

#[test]
fn create_checks_in_order() {
    let mut contract = SubdomainContract::new();
    assert_eq!(
        contract.register_parent("timmy", "GABC"),
        Err(SubdomainError::Validation(CommonError::MissingTld))
    );
    assert_eq!(
        contract.register_parent("timmy.xlm", ""),
        Err(SubdomainError::Validation(CommonError::EmptyOwner))
    );
    contract.register_parent("timmy.xlm", "GABC").unwrap();
    assert_eq!(
        contract.create("pay", "timmy.xlm", "GABC", " ", 0),
        Err(SubdomainError::Validation(CommonError::EmptyOwner))
    );
    assert_eq!(
        contract.create("pay", "other.xlm", "GABC", "GPAY", 0),
        Err(SubdomainError::ParentNotFound)
    );
    assert_eq!(
        contract.create("p_y", "timmy.xlm", "GABC", "GPAY", 0),
        Err(SubdomainError::Validation(CommonError::InvalidCharacters))
    );
    assert!(!contract.subdomain_exists("p_y.timmy.xlm"));
    assert!(contract.record("p_y.timmy.xlm").is_none());
}

#[test]
fn builds_subdomain_names() {
    assert_eq!(build_subdomain("pay", "timmy.xlm"), Ok("pay.timmy.xlm".to_string()));
    assert_eq!(build_subdomain("-pay", "timmy.xlm"), Err(CommonError::InvalidLabelBoundary));
}

#[test]
fn subdomain_errors_convert_and_describe() {
    let e: SubdomainError = CommonError::NameTooLong.into();
    assert_eq!(e, SubdomainError::Validation(CommonError::NameTooLong));
    assert_eq!(e.message(), "name is too long");
    assert_eq!(SubdomainError::AlreadyExists.message(), "subdomain already exists");
}
