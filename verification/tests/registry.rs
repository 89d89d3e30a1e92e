use xlm_ns::common::constants::{DEFAULT_TTL_SECONDS, MAX_METADATA_URI_LENGTH};
use xlm_ns::common::errors::CommonError;
use xlm_ns::common::types::{NameRecord, Tld};
use xlm_ns::registry::contract::{RegistryContract, RegistryError};
use xlm_ns::registry::errors::RegistryError as StorageError;
use xlm_ns::registry::storage::{RegistryEntry, RegistryStorage};

fn registry_with_timmy() -> RegistryContract {
    let mut registry = RegistryContract::default();
    registry
        .register("timmy.xlm", "GABC", Some("GABC".to_string()), None, 100, 1_000, 2_000)
        .unwrap();
    registry
}

#[test]
fn registers_and_transfers_name() {
    let mut registry = registry_with_timmy();
    registry.transfer("timmy.xlm", "GABC", "GDEF", 101).unwrap();
    let stored = registry.resolve("timmy.xlm", 101).unwrap();
    assert_eq!(stored.owner, "GDEF");
    assert_eq!(stored.transfer_count, 1);
    assert_eq!(stored.target_address, Some("GABC".to_string()));
    assert_eq!(stored.ttl_seconds, DEFAULT_TTL_SECONDS);
    assert_eq!(stored.registered_at, 100);
    assert_eq!(registry.names_for_owner("GDEF"), vec!["timmy.xlm".to_string()]);
    assert!(registry.names_for_owner("GABC").is_empty());
}

#[test]
fn lifecycle_of_a_registration() {
    let mut registry = registry_with_timmy();
    assert_eq!(
        registry.register("timmy.xlm", "GDEF", None, None, 1_000, 5_000, 6_000),
        Err(RegistryError::AlreadyRegistered)
    );
    assert_eq!(
        registry.register("timmy.xlm", "GDEF", None, None, 1_500, 5_000, 6_000),
        Err(RegistryError::NotYetClaimable)
    );
    assert_eq!(registry.resolve("timmy.xlm", 1_001).map(|e| e.owner), Err(RegistryError::NotActive));
    assert_eq!(registry.register("timmy.xlm", "GDEF", None, None, 2_001, 5_000, 6_000), Ok(()));
    assert_eq!(registry.resolve("timmy.xlm", 2_001).unwrap().owner, "GDEF");
    assert!(registry.names_for_owner("GABC").is_empty());
    assert_eq!(registry.names_for_owner("GDEF"), vec!["timmy.xlm".to_string()]);
}

#[test]
fn only_active_owner_mutates() {
    let mut registry = registry_with_timmy();
    assert_eq!(
        registry.set_resolver("timmy.xlm", "GDEF", Some("r".to_string()), 200),
        Err(RegistryError::Unauthorized)
    );
    assert_eq!(
        registry.set_resolver("timmy.xlm", "GABC", Some("r".to_string()), 1_001),
        Err(RegistryError::NotActive)
    );
    assert_eq!(
        registry.set_resolver("other.xlm", "GABC", None, 200),
        Err(RegistryError::NotFound)
    );
    assert_eq!(registry.set_resolver("timmy.xlm", "GABC", Some("r".to_string()), 200), Ok(()));
    assert_eq!(registry.set_target_address("timmy.xlm", "GABC", None, 200), Ok(()));
    assert_eq!(registry.set_metadata("timmy.xlm", "GABC", Some("ipfs://x".to_string()), 200), Ok(()));
    assert_eq!(registry.renew("timmy.xlm", "GABC", 3_000, 4_000, 200), Ok(()));
    let entry = registry.resolve("timmy.xlm", 2_500).unwrap();
    assert_eq!(entry.resolver, Some("r".to_string()));
    assert_eq!(entry.target_address, None);
    assert_eq!(entry.metadata_uri, Some("ipfs://x".to_string()));
    assert_eq!(entry.expires_at, 3_000);
    assert_eq!(entry.grace_period_ends_at, 4_000);
    registry.transfer("timmy.xlm", "GABC", "GDEF", 300).unwrap();
    assert_eq!(
        registry.set_resolver("timmy.xlm", "GABC", None, 300),
        Err(RegistryError::Unauthorized)
    );
}

#[test]
fn rejects_invalid_names_and_metadata() {
    let mut registry = RegistryContract::new();
    assert_eq!(
        registry.register("timmy", "GABC", None, None, 0, 10, 20),
        Err(RegistryError::Validation)
    );
    let long = "m".repeat(MAX_METADATA_URI_LENGTH + 1);
    assert_eq!(
        registry.register("timmy.xlm", "GABC", None, Some(long.clone()), 0, 10, 20),
        Err(RegistryError::MetadataTooLong)
    );
    assert_eq!(
        registry.register("timmy.xlm", "GABC", None, Some("m".repeat(MAX_METADATA_URI_LENGTH)), 0, 10, 20),
        Ok(())
    );
    assert_eq!(
        registry.set_metadata("timmy.xlm", "GDEF", Some(long), 0),
        Err(RegistryError::MetadataTooLong)
    );
    assert_eq!(registry.resolve("timmy", 0).map(|e| e.owner), Err(RegistryError::Validation));
    assert_eq!(registry.resolve("other.xlm", 0).map(|e| e.owner), Err(RegistryError::NotFound));
}

#[test]
fn owner_index_tracks_several_names() {
    let mut registry = RegistryContract::new();
    registry.register("alpha.xlm", "GABC", None, None, 0, 10, 20).unwrap();
    registry.register("beta.xlm", "GABC", None, None, 0, 10, 20).unwrap();
    registry.register("gamma.xlm", "GDEF", None, None, 0, 10, 20).unwrap();
    assert_eq!(
        registry.names_for_owner("GABC"),
        vec!["alpha.xlm".to_string(), "beta.xlm".to_string()]
    );
    registry.transfer("alpha.xlm", "GABC", "GDEF", 1).unwrap();
    assert_eq!(registry.names_for_owner("GABC"), vec!["beta.xlm".to_string()]);
    assert_eq!(
        registry.names_for_owner("GDEF"),
        vec!["gamma.xlm".to_string(), "alpha.xlm".to_string()]
    );
    // A transfer to oneself keeps the name listed once.
    registry.transfer("beta.xlm", "GABC", "GABC", 1).unwrap();
    assert_eq!(registry.names_for_owner("GABC"), vec!["beta.xlm".to_string()]);
    assert_eq!(registry.resolve("beta.xlm", 1).unwrap().transfer_count, 1);
}

#[test]
fn storage_keys_records_by_full_name() {
    let mut storage = RegistryStorage::default();
    let record = NameRecord {
        label: "timmy".to_string(),
        tld: Tld::Xlm,
        owner: "GABC".to_string(),
        resolver: None,
        ttl_seconds: 60,
    };
    assert_eq!(storage.insert(RegistryEntry { record: record.clone() }), Ok(()));
    assert_eq!(
        storage.insert(RegistryEntry { record }),
        Err(StorageError::AlreadyRegistered)
    );
    assert_eq!(storage.transfer("timmy.xlm", "GDEF".to_string()), Ok(()));
    assert_eq!(storage.get("timmy.xlm").unwrap().record.owner, "GDEF");
    assert_eq!(storage.transfer("nobody.xlm", "GDEF".to_string()), Err(StorageError::NotFound));
    assert!(storage.get("nobody.xlm").is_none());
}

#[test]
fn storage_errors_convert_and_describe() {
    let e: StorageError = CommonError::MissingTld.into();
    assert_eq!(e, StorageError::Validation(CommonError::MissingTld));
    assert_eq!(e.message(), "name must include a supported tld");
    assert_eq!(StorageError::NotFound.message(), "name was not found");
}
