use vstd::prelude::*;

verus! {

/// The address of a package: the bytes of its global node id.
#[derive(Debug, Clone, Copy, PartialEq, Eq)]
pub struct PackageAddress(pub [u8; 30]);

/// The Scrypto-specific kinds of type that a schema can describe.
#[derive(Debug, Clone, Copy, PartialEq, Eq)]
pub enum ScryptoCustomTypeKind {
    Reference,
    Own,
    Decimal,
    PreciseDecimal,
    NonFungibleLocalId,
}

/// The Scrypto-specific validations that a schema can attach to a type.
#[derive(Debug, Clone, PartialEq, Eq)]
pub enum ScryptoCustomTypeValidation {
    Reference(ReferenceValidation),
    Own(OwnValidation),
}

/// What a reference must point at.
#[derive(Debug, Clone, PartialEq, Eq)]
pub enum ReferenceValidation {
    IsGlobal,
    IsGlobalPackage,
    IsGlobalComponent,
    IsGlobalResourceManager,
    IsGlobalTyped(Option<PackageAddress>, String),
    IsInternal,
    IsInternalTyped(Option<PackageAddress>, String),
}

/// What an owned node must be.
#[derive(Debug, Clone, PartialEq, Eq)]
pub enum OwnValidation {
    IsBucket,
    IsProof,
    IsVault,
    IsKeyValueStore,
    IsGlobalAddressReservation,
    IsTypedObject(Option<PackageAddress>, String),
}

/// The ways in which a schema can be found invalid by the Scrypto-specific checks.
#[derive(Debug, Clone, Copy, PartialEq, Eq)]
pub enum SchemaValidationError {
    TypeValidationMismatch,
    TypeMetadataContainedUnexpectedChildNames,
}

/// The names that a type's metadata gives to its children.
#[derive(Debug, Clone, PartialEq, Eq)]
pub enum ChildNames {
    NamedFields(Vec<String>),
    EnumVariants(Vec<(u8, String)>),
}

/// The names that a schema attaches to one of its types.
#[derive(Debug, Clone, PartialEq, Eq)]
pub struct TypeMetadata {
    pub name: Option<String>,
    pub child_names: Option<ChildNames>,
}

/// Checks the metadata of a type that has no children: it must name none.
pub fn validate_childless_metadata(type_metadata: &TypeMetadata) -> (r: Result<(), SchemaValidationError>)
    ensures
        r is Ok <==> type_metadata.child_names is None,
        r is Err ==> r == Err::<(), SchemaValidationError>(SchemaValidationError::TypeMetadataContainedUnexpectedChildNames),
{
    if type_metadata.child_names.is_some() {
        Err(SchemaValidationError::TypeMetadataContainedUnexpectedChildNames)
    } else {
        Ok(())
    }
}

/// Bounds on a numeric value.
#[derive(Debug, Clone, Copy, PartialEq, Eq)]
pub struct NumericValidation {
    pub min: Option<i128>,
    pub max: Option<i128>,
}

/// Bounds on the length of a string, an array or a map.
#[derive(Debug, Clone, Copy, PartialEq, Eq)]
pub struct LengthValidation {
    pub min: Option<u32>,
    pub max: Option<u32>,
}

/// The validation that a schema attaches to one of its types.
#[derive(Debug, Clone, PartialEq, Eq)]
pub enum TypeValidation {
    NoValidation,
    Numeric(NumericValidation),
    Length(LengthValidation),
    Custom(ScryptoCustomTypeValidation),
}

/// A Scrypto schema, as far as its type validations go: one validation per local type.
#[derive(Debug, Clone, PartialEq, Eq)]
pub struct VersionedScryptoSchema {
    pub type_validations: Vec<TypeValidation>,
}

/// The Scrypto custom schema: the rules for Scrypto-specific type kinds and validations.
#[derive(Debug, Clone, Copy, PartialEq, Eq)]
pub struct ScryptoCustomSchema {}

impl OwnValidation {
    /// Whether a manifest bucket could satisfy this validation.
    /// A typed object is accepted, since its blueprint cannot be checked here.
    pub fn could_match_manifest_bucket(&self) -> (r: bool)
        ensures
            r == (self is IsBucket || self is IsTypedObject),
    {
        match self {
            OwnValidation::IsBucket => true,
            OwnValidation::IsProof => false,
            OwnValidation::IsVault => false,
            OwnValidation::IsKeyValueStore => false,
            OwnValidation::IsGlobalAddressReservation => false,
            OwnValidation::IsTypedObject(_, _) => true,
        }
    }

    /// Whether a manifest proof could satisfy this validation.
    /// A typed object is accepted, since its blueprint cannot be checked here.
    pub fn could_match_manifest_proof(&self) -> (r: bool)
        ensures
            r == (self is IsProof || self is IsTypedObject),
    {
        match self {
            OwnValidation::IsBucket => false,
            OwnValidation::IsProof => true,
            OwnValidation::IsVault => false,
            OwnValidation::IsKeyValueStore => false,
            OwnValidation::IsGlobalAddressReservation => false,
            OwnValidation::IsTypedObject(_, _) => true,
        }
    }

    /// Whether a manifest address reservation could satisfy this validation.
    pub fn could_match_manifest_address_reservation(&self) -> (r: bool)
        ensures
            r == (self is IsGlobalAddressReservation),
    {
        match self {
            OwnValidation::IsBucket => false,
            OwnValidation::IsProof => false,
            OwnValidation::IsVault => false,
            OwnValidation::IsKeyValueStore => false,
            OwnValidation::IsGlobalAddressReservation => true,
            OwnValidation::IsTypedObject(_, _) => false,
        }
    }

    /// A copy of this validation.
    pub fn duplicate(&self) -> (r: Self)
        ensures
            r == *self,
    {
        match self {
            OwnValidation::IsBucket => OwnValidation::IsBucket,
            OwnValidation::IsProof => OwnValidation::IsProof,
            OwnValidation::IsVault => OwnValidation::IsVault,
            OwnValidation::IsKeyValueStore => OwnValidation::IsKeyValueStore,
            OwnValidation::IsGlobalAddressReservation => OwnValidation::IsGlobalAddressReservation,
            OwnValidation::IsTypedObject(p, n) => OwnValidation::IsTypedObject(*p, n.clone()),
        }
    }
}

impl ReferenceValidation {
    /// Whether a manifest address could satisfy this validation: every reference validation
    /// may be met by some address.
    pub fn could_match_manifest_address(&self) -> (r: bool)
        ensures
            r == true,
    {
        match self {
            ReferenceValidation::IsGlobal => true,
            ReferenceValidation::IsGlobalPackage => true,
            ReferenceValidation::IsGlobalComponent => true,
            ReferenceValidation::IsGlobalResourceManager => true,
            ReferenceValidation::IsGlobalTyped(_, _) => true,
            ReferenceValidation::IsInternal => true,
            ReferenceValidation::IsInternalTyped(_, _) => true,
        }
    }

    /// A copy of this validation.
    pub fn duplicate(&self) -> (r: Self)
        ensures
            r == *self,
    {
        match self {
            ReferenceValidation::IsGlobal => ReferenceValidation::IsGlobal,
            ReferenceValidation::IsGlobalPackage => ReferenceValidation::IsGlobalPackage,
            ReferenceValidation::IsGlobalComponent => ReferenceValidation::IsGlobalComponent,
            ReferenceValidation::IsGlobalResourceManager => ReferenceValidation::IsGlobalResourceManager,
            ReferenceValidation::IsGlobalTyped(p, n) => ReferenceValidation::IsGlobalTyped(*p, n.clone()),
            ReferenceValidation::IsInternal => ReferenceValidation::IsInternal,
            ReferenceValidation::IsInternalTyped(p, n) => ReferenceValidation::IsInternalTyped(*p, n.clone()),
        }
    }
}

impl ScryptoCustomTypeValidation {
    /// A copy of this validation.
    pub fn duplicate(&self) -> (r: Self)
        ensures
            r == *self,
    {
        match self {
            ScryptoCustomTypeValidation::Reference(v) => ScryptoCustomTypeValidation::Reference(v.duplicate()),
            ScryptoCustomTypeValidation::Own(v) => ScryptoCustomTypeValidation::Own(v.duplicate()),
        }
    }
}

impl TypeValidation {
    /// A copy of this validation.
    pub fn duplicate(&self) -> (r: Self)
        ensures
            r == *self,
    {
        match self {
            TypeValidation::NoValidation => TypeValidation::NoValidation,
            TypeValidation::Numeric(n) => TypeValidation::Numeric(*n),
            TypeValidation::Length(l) => TypeValidation::Length(*l),
            TypeValidation::Custom(c) => TypeValidation::Custom(c.duplicate()),
        }
    }
}

/// Whether a custom validation may stand on a type of the given custom kind:
/// a reference validation on a reference, an ownership validation on an owned node, and
/// nothing on the other kinds.
pub open spec fn custom_validation_fits(
    kind: ScryptoCustomTypeKind,
    validation: ScryptoCustomTypeValidation,
) -> bool {
    match kind {
        ScryptoCustomTypeKind::Reference => validation is Reference,
        ScryptoCustomTypeKind::Own => validation is Own,
        _ => false,
    }
}

impl ScryptoCustomSchema {
    /// Turns a type kind that refers to types by Rust id into one that refers to them by
    /// local id: no Scrypto custom kind refers to another type, so it stays as it is.
    pub fn linearize_type_kind(type_kind: ScryptoCustomTypeKind) -> (r: ScryptoCustomTypeKind)
        ensures
            r == type_kind,
    {
        match type_kind {
            ScryptoCustomTypeKind::Reference => ScryptoCustomTypeKind::Reference,
            ScryptoCustomTypeKind::Own => ScryptoCustomTypeKind::Own,
            ScryptoCustomTypeKind::Decimal => ScryptoCustomTypeKind::Decimal,
            ScryptoCustomTypeKind::PreciseDecimal => ScryptoCustomTypeKind::PreciseDecimal,
            ScryptoCustomTypeKind::NonFungibleLocalId => ScryptoCustomTypeKind::NonFungibleLocalId,
        }
    }

    /// Checks a custom type kind on its own: every Scrypto custom kind is valid.
    pub fn validate_custom_type_kind(type_kind: &ScryptoCustomTypeKind) -> (r: Result<(), SchemaValidationError>)
        ensures
            r is Ok,
    {
        match type_kind {
            ScryptoCustomTypeKind::Reference
            | ScryptoCustomTypeKind::Own
            | ScryptoCustomTypeKind::Decimal
            | ScryptoCustomTypeKind::PreciseDecimal
            | ScryptoCustomTypeKind::NonFungibleLocalId => {},
        }
        Ok(())
    }

    /// Checks the metadata of a type of a custom kind: no custom kind has children, so the
    /// metadata must name none.
    pub fn validate_type_metadata_with_custom_type_kind(
        type_kind: &ScryptoCustomTypeKind,
        type_metadata: &TypeMetadata,
    ) -> (r: Result<(), SchemaValidationError>)
        ensures
            r is Ok <==> type_metadata.child_names is None,
            r is Err ==> r == Err::<(), SchemaValidationError>(SchemaValidationError::TypeMetadataContainedUnexpectedChildNames),
    {
        match type_kind {
            ScryptoCustomTypeKind::Reference
            | ScryptoCustomTypeKind::Own
            | ScryptoCustomTypeKind::Decimal
            | ScryptoCustomTypeKind::PreciseDecimal
            | ScryptoCustomTypeKind::NonFungibleLocalId => {
                validate_childless_metadata(type_metadata)?;
            },
        }
        Ok(())
    }

    /// Checks that a custom validation is paired with a kind that it can apply to.
    pub fn validate_custom_type_validation(
        custom_type_kind: &ScryptoCustomTypeKind,
        custom_type_validation: &ScryptoCustomTypeValidation,
    ) -> (r: Result<(), SchemaValidationError>)
        ensures
            r is Ok <==> custom_validation_fits(*custom_type_kind, *custom_type_validation),
            r is Err ==> r == Err::<(), SchemaValidationError>(SchemaValidationError::TypeValidationMismatch),
    {
        match custom_type_kind {
            ScryptoCustomTypeKind::Reference => {
                if let ScryptoCustomTypeValidation::Reference(_) = custom_type_validation {
                    Ok(())
                } else {
                    Err(SchemaValidationError::TypeValidationMismatch)
                }
            },
            ScryptoCustomTypeKind::Own => {
                if let ScryptoCustomTypeValidation::Own(_) = custom_type_validation {
                    Ok(())
                } else {
                    Err(SchemaValidationError::TypeValidationMismatch)
                }
            },
            ScryptoCustomTypeKind::Decimal
            | ScryptoCustomTypeKind::PreciseDecimal
            | ScryptoCustomTypeKind::NonFungibleLocalId => {
                Err(SchemaValidationError::TypeValidationMismatch)
            },
        }
    }
}

/// A validation after the package of a typed validation that names no package has been set
/// to `package_address`; every other validation stays as it is.
pub open spec fn with_self_package(tv: TypeValidation, package_address: PackageAddress) -> TypeValidation {
    match tv {
        TypeValidation::Custom(ScryptoCustomTypeValidation::Own(OwnValidation::IsTypedObject(None, name))) =>
            TypeValidation::Custom(ScryptoCustomTypeValidation::Own(OwnValidation::IsTypedObject(Some(package_address), name))),
        TypeValidation::Custom(ScryptoCustomTypeValidation::Reference(ReferenceValidation::IsGlobalTyped(None, name))) =>
            TypeValidation::Custom(ScryptoCustomTypeValidation::Reference(ReferenceValidation::IsGlobalTyped(Some(package_address), name))),
        TypeValidation::Custom(ScryptoCustomTypeValidation::Reference(ReferenceValidation::IsInternalTyped(None, name))) =>
            TypeValidation::Custom(ScryptoCustomTypeValidation::Reference(ReferenceValidation::IsInternalTyped(Some(package_address), name))),
        _ => tv,
    }
}

/// Whether a validation is a typed one (an owned typed object, or a global or internal typed
/// reference) that names no package.
pub open spec fn names_no_package(tv: TypeValidation) -> bool {
    match tv {
        TypeValidation::Custom(ScryptoCustomTypeValidation::Own(OwnValidation::IsTypedObject(p, _))) => p is None,
        TypeValidation::Custom(ScryptoCustomTypeValidation::Reference(ReferenceValidation::IsGlobalTyped(p, _))) => p is None,
        TypeValidation::Custom(ScryptoCustomTypeValidation::Reference(ReferenceValidation::IsInternalTyped(p, _))) => p is None,
        _ => false,
    }
}

/// All validations of `validations` with their missing package set to `package_address`.
pub open spec fn all_with_self_package(validations: Seq<TypeValidation>, package_address: PackageAddress) -> Seq<TypeValidation> {
    validations.map_values(|tv: TypeValidation| with_self_package(tv, package_address))
}

fn fill_self_package(tv: &TypeValidation, package_address: PackageAddress) -> (r: TypeValidation)
    ensures
        r == with_self_package(*tv, package_address),
{
    match tv {
        TypeValidation::Custom(ScryptoCustomTypeValidation::Own(OwnValidation::IsTypedObject(None, name))) =>
            TypeValidation::Custom(ScryptoCustomTypeValidation::Own(OwnValidation::IsTypedObject(Some(package_address), name.clone()))),
        TypeValidation::Custom(ScryptoCustomTypeValidation::Reference(ReferenceValidation::IsGlobalTyped(None, name))) =>
            TypeValidation::Custom(ScryptoCustomTypeValidation::Reference(ReferenceValidation::IsGlobalTyped(Some(package_address), name.clone()))),
        TypeValidation::Custom(ScryptoCustomTypeValidation::Reference(ReferenceValidation::IsInternalTyped(None, name))) =>
            TypeValidation::Custom(ScryptoCustomTypeValidation::Reference(ReferenceValidation::IsInternalTyped(Some(package_address), name.clone()))),
        _ => tv.duplicate(),
    }
}

/// Sets the package of every typed validation in the schema that names no package to
/// `package_address`, so that "this package" becomes an explicit address.
pub fn replace_self_package_address(schema: &mut VersionedScryptoSchema, package_address: PackageAddress)
    ensures
        final(schema).type_validations@ == all_with_self_package(old(schema).type_validations@, package_address),
{
    let n = schema.type_validations.len();
    let mut i: usize = 0;
    while i < n
        invariant
            n == old(schema).type_validations@.len(),
            schema.type_validations@.len() == n,
            i <= n,
            forall|j: int| 0 <= j < i ==> #[trigger] schema.type_validations@[j]
                == with_self_package(old(schema).type_validations@[j], package_address),
            forall|j: int| i <= j < n ==> #[trigger] schema.type_validations@[j] == old(schema).type_validations@[j],
        decreases n - i,
    {
        let filled = fill_self_package(&schema.type_validations[i], package_address);
        schema.type_validations.set(i, filled);
        i = i + 1;
    }
    assert(schema.type_validations@ =~= all_with_self_package(old(schema).type_validations@, package_address));
}

/// After the replacement, no typed validation is left without a package.
pub proof fn lemma_self_package_leaves_none_unnamed(validations: Seq<TypeValidation>, package_address: PackageAddress)
    ensures
        forall|j: int| 0 <= j < validations.len() ==>
            !names_no_package(#[trigger] all_with_self_package(validations, package_address)[j]),
{
}

/// The replacement touches only typed validations that name no package: every other
/// validation, and every typed one that names its package, is left as it was.
pub proof fn lemma_self_package_keeps_the_rest(validations: Seq<TypeValidation>, package_address: PackageAddress)
    ensures
        all_with_self_package(validations, package_address).len() == validations.len(),
        forall|j: int| 0 <= j < validations.len() && !names_no_package(validations[j]) ==>
            #[trigger] all_with_self_package(validations, package_address)[j] == validations[j],
{
}

/// Replacing the self package address twice, with any two addresses, is the same as doing it
/// once with the first: once every typed validation names a package, there is nothing left to fill.
pub proof fn lemma_self_package_idempotent(validations: Seq<TypeValidation>, first: PackageAddress, second: PackageAddress)
    ensures
        all_with_self_package(all_with_self_package(validations, first), second)
            == all_with_self_package(validations, first),
{
    assert(all_with_self_package(all_with_self_package(validations, first), second)
        =~= all_with_self_package(validations, first));
}

} // verus!
