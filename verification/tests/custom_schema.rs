use radix_engine::custom_schema::{
    LengthValidation, OwnValidation, PackageAddress, ReferenceValidation, SchemaValidationError,
    ScryptoCustomSchema, ScryptoCustomTypeKind, ScryptoCustomTypeValidation, TypeValidation,
    VersionedScryptoSchema, replace_self_package_address,
};

fn package(b: u8) -> PackageAddress {
    PackageAddress([b; 30])
}

#[test]
fn bucket_matches_only_buckets_and_typed_objects() {
    assert!(OwnValidation::IsBucket.could_match_manifest_bucket());
    assert!(OwnValidation::IsTypedObject(None, "X".to_string()).could_match_manifest_bucket());
    assert!(!OwnValidation::IsProof.could_match_manifest_bucket());
    assert!(!OwnValidation::IsVault.could_match_manifest_bucket());
    assert!(!OwnValidation::IsKeyValueStore.could_match_manifest_bucket());
    assert!(!OwnValidation::IsGlobalAddressReservation.could_match_manifest_bucket());
}

#[test]
fn proof_matches_only_proofs_and_typed_objects() {
    assert!(OwnValidation::IsProof.could_match_manifest_proof());
    assert!(OwnValidation::IsTypedObject(Some(package(1)), "X".to_string()).could_match_manifest_proof());
    assert!(!OwnValidation::IsBucket.could_match_manifest_proof());
    assert!(!OwnValidation::IsVault.could_match_manifest_proof());
}

#[test]
fn address_reservation_matches_only_reservations() {
    assert!(OwnValidation::IsGlobalAddressReservation.could_match_manifest_address_reservation());
    assert!(!OwnValidation::IsTypedObject(None, "X".to_string()).could_match_manifest_address_reservation());
    assert!(!OwnValidation::IsBucket.could_match_manifest_address_reservation());
}

#[test]
fn every_reference_validation_may_match_an_address() {
    let all = vec![
        ReferenceValidation::IsGlobal,
        ReferenceValidation::IsGlobalPackage,
        ReferenceValidation::IsGlobalComponent,
        ReferenceValidation::IsGlobalResourceManager,
        ReferenceValidation::IsGlobalTyped(None, "A".to_string()),
        ReferenceValidation::IsInternal,
        ReferenceValidation::IsInternalTyped(Some(package(2)), "B".to_string()),
    ];
    for v in all {
        assert!(v.could_match_manifest_address());
    }
}

#[test]
fn custom_validations_must_fit_their_kind() {
    let reference = ScryptoCustomTypeValidation::Reference(ReferenceValidation::IsGlobal);
    let own = ScryptoCustomTypeValidation::Own(OwnValidation::IsBucket);
    assert_eq!(ScryptoCustomSchema::validate_custom_type_validation(&ScryptoCustomTypeKind::Reference, &reference), Ok(()));
    assert_eq!(ScryptoCustomSchema::validate_custom_type_validation(&ScryptoCustomTypeKind::Own, &own), Ok(()));
    assert_eq!(
        ScryptoCustomSchema::validate_custom_type_validation(&ScryptoCustomTypeKind::Reference, &own),
        Err(SchemaValidationError::TypeValidationMismatch)
    );
    assert_eq!(
        ScryptoCustomSchema::validate_custom_type_validation(&ScryptoCustomTypeKind::Own, &reference),
        Err(SchemaValidationError::TypeValidationMismatch)
    );
    for kind in [ScryptoCustomTypeKind::Decimal, ScryptoCustomTypeKind::PreciseDecimal, ScryptoCustomTypeKind::NonFungibleLocalId] {
        assert_eq!(
            ScryptoCustomSchema::validate_custom_type_validation(&kind, &own),
            Err(SchemaValidationError::TypeValidationMismatch)
        );
        assert_eq!(ScryptoCustomSchema::validate_custom_type_kind(&kind), Ok(()));
        assert_eq!(ScryptoCustomSchema::linearize_type_kind(kind), kind);
    }
}

fn sample_schema() -> VersionedScryptoSchema {
    VersionedScryptoSchema {
        type_validations: vec![
            TypeValidation::NoValidation,
            TypeValidation::Custom(ScryptoCustomTypeValidation::Own(OwnValidation::IsTypedObject(None, "Pool".to_string()))),
            TypeValidation::Custom(ScryptoCustomTypeValidation::Reference(ReferenceValidation::IsGlobalTyped(None, "Account".to_string()))),
            TypeValidation::Custom(ScryptoCustomTypeValidation::Reference(ReferenceValidation::IsInternalTyped(Some(package(9)), "Vault".to_string()))),
            TypeValidation::Custom(ScryptoCustomTypeValidation::Reference(ReferenceValidation::IsInternalTyped(None, "Vault".to_string()))),
            TypeValidation::Length(LengthValidation { min: Some(1), max: None }),
            TypeValidation::Custom(ScryptoCustomTypeValidation::Own(OwnValidation::IsBucket)),
        ],
    }
}

#[test]
fn replace_self_package_address_fills_only_missing_packages() {
    let mut schema = sample_schema();
    replace_self_package_address(&mut schema, package(7));
    let expected = VersionedScryptoSchema {
        type_validations: vec![
            TypeValidation::NoValidation,
            TypeValidation::Custom(ScryptoCustomTypeValidation::Own(OwnValidation::IsTypedObject(Some(package(7)), "Pool".to_string()))),
            TypeValidation::Custom(ScryptoCustomTypeValidation::Reference(ReferenceValidation::IsGlobalTyped(Some(package(7)), "Account".to_string()))),
            TypeValidation::Custom(ScryptoCustomTypeValidation::Reference(ReferenceValidation::IsInternalTyped(Some(package(9)), "Vault".to_string()))),
            TypeValidation::Custom(ScryptoCustomTypeValidation::Reference(ReferenceValidation::IsInternalTyped(Some(package(7)), "Vault".to_string()))),
            TypeValidation::Length(LengthValidation { min: Some(1), max: None }),
            TypeValidation::Custom(ScryptoCustomTypeValidation::Own(OwnValidation::IsBucket)),
        ],
    };
    assert_eq!(schema, expected);
}

#[test]
fn replace_self_package_address_is_idempotent() {
    let mut once = sample_schema();
    replace_self_package_address(&mut once, package(7));
    let mut twice = once.clone();
    replace_self_package_address(&mut twice, package(8));
    assert_eq!(once, twice);
}

#[test]
fn replace_self_package_address_on_empty_schema() {
    let mut schema = VersionedScryptoSchema { type_validations: vec![] };
    replace_self_package_address(&mut schema, package(1));
    assert!(schema.type_validations.is_empty());
}
