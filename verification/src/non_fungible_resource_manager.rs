use vstd::prelude::*;

use crate::custom_schema::{ChildNames, ScryptoCustomTypeKind, TypeMetadata, TypeValidation};
use crate::assoc_map::{AssocMap, keys_distinct, seq_to_map, lemma_seq_to_map_dom, lemma_seq_to_map_value, lemma_seq_to_map_len};
use crate::types::{
    ATTOS_PER_UNIT, Decimal, LocalIdView, NodeId, NonFungibleGlobalId, NonFungibleIdType,
    NonFungibleLocalId, ResourceAddress, local_id_type,
};

verus! {

/// The data of a non-fungible: the encoded value of each field of its data struct, in the
/// order in which the resource's schema names the fields.
#[derive(Debug, Clone, PartialEq, Eq)]
pub struct NonFungibleData {
    pub fields: Vec<Vec<u8>>,
}

/// A set of local ids.
pub type NonFungibleIdSet = AssocMap<NonFungibleLocalId, ()>;

/// Why a request to a non-fungible resource manager was refused.
#[derive(Debug, Clone, PartialEq, Eq)]
pub enum NonFungibleResourceManagerError {
    NonFungibleAlreadyExists(Box<NonFungibleGlobalId>),
    NonFungibleNotFound(Box<NonFungibleGlobalId>),
    InvalidField(String),
    FieldNotMutable(String),
    NonFungibleIdTypeDoesNotMatch(NonFungibleIdType, NonFungibleIdType),
    InvalidNonFungibleIdType,
    NonFungibleLocalIdProvidedForUUIDType,
    DropNonEmptyBucket,
}

/// A refusal as a mathematical value.
pub enum ManagerErrorView {
    NonFungibleAlreadyExists(ResourceAddress, LocalIdView),
    NonFungibleNotFound(ResourceAddress, LocalIdView),
    InvalidField(Seq<char>),
    FieldNotMutable(Seq<char>),
    NonFungibleIdTypeDoesNotMatch(NonFungibleIdType, NonFungibleIdType),
    InvalidNonFungibleIdType,
    NonFungibleLocalIdProvidedForUUIDType,
    DropNonEmptyBucket,
}

impl View for NonFungibleResourceManagerError {
    type V = ManagerErrorView;

    open spec fn view(&self) -> ManagerErrorView {
        match self {
            NonFungibleResourceManagerError::NonFungibleAlreadyExists(g) =>
                ManagerErrorView::NonFungibleAlreadyExists(g.resource_address, g.local_id@),
            NonFungibleResourceManagerError::NonFungibleNotFound(g) =>
                ManagerErrorView::NonFungibleNotFound(g.resource_address, g.local_id@),
            NonFungibleResourceManagerError::InvalidField(f) => ManagerErrorView::InvalidField(f@),
            NonFungibleResourceManagerError::FieldNotMutable(f) => ManagerErrorView::FieldNotMutable(f@),
            NonFungibleResourceManagerError::NonFungibleIdTypeDoesNotMatch(a, b) =>
                ManagerErrorView::NonFungibleIdTypeDoesNotMatch(*a, *b),
            NonFungibleResourceManagerError::InvalidNonFungibleIdType => ManagerErrorView::InvalidNonFungibleIdType,
            NonFungibleResourceManagerError::NonFungibleLocalIdProvidedForUUIDType =>
                ManagerErrorView::NonFungibleLocalIdProvidedForUUIDType,
            NonFungibleResourceManagerError::DropNonEmptyBucket => ManagerErrorView::DropNonEmptyBucket,
        }
    }
}

/// The resource manager's own substate.
pub struct NonFungibleResourceManagerSubstate {
    pub total_supply: Decimal,
    pub id_type: NonFungibleIdType,
    /// The names of the fields of the non-fungible data struct, in order.
    pub data_fields: Vec<String>,
    /// The node that holds the non-fungibles' data.
    pub non_fungible_table: NodeId,
    /// The names of the fields whose value may be updated after minting.
    pub mutable_fields: Vec<String>,
}

/// Where a schema finds a type: among the well-known types, or at an index of its own lists.
#[derive(Debug, Clone, Copy, PartialEq, Eq)]
pub enum LocalTypeIndex {
    WellKnown(u8),
    SchemaLocalIndex(usize),
}

/// The kind of a type of a schema: an enum, with the field types of each variant; a Scrypto
/// custom kind; or any other kind, as its encoding.
#[derive(Debug, Clone, PartialEq, Eq)]
pub enum TypeKind {
    Enum { variants: Vec<(u8, Vec<LocalTypeIndex>)> },
    Custom(ScryptoCustomTypeKind),
    Encoded(Vec<u8>),
}

/// A Scrypto schema: for each local type, its kind, its names and its validation.
#[derive(Debug, Clone, PartialEq, Eq)]
pub struct ScryptoSchema {
    pub type_kinds: Vec<TypeKind>,
    pub type_metadata: Vec<TypeMetadata>,
    pub type_validations: Vec<TypeValidation>,
}

/// The schema of the data of a resource's non-fungibles: the schema, the data type within it,
/// and the fields that may change after minting.
#[derive(Debug, Clone, PartialEq, Eq)]
pub struct NonFungibleDataSchema {
    pub schema: ScryptoSchema,
    pub non_fungible: LocalTypeIndex,
    pub mutable_fields: Vec<String>,
}

/// The schema of a key-value store: its types, the key type, the value type, and whether its
/// values may own nodes.
#[derive(Debug, Clone, PartialEq, Eq)]
pub struct KeyValueStoreSchema {
    pub schema: ScryptoSchema,
    pub key: LocalTypeIndex,
    pub value: LocalTypeIndex,
    pub can_own: bool,
}

/// The discriminator of `None` in an `Option`.
pub const OPTION_VARIANT_NONE: u8 = 0;

/// The discriminator of `Some` in an `Option`.
pub const OPTION_VARIANT_SOME: u8 = 1;

/// Whether `k` is the kind of `Option` over the type `t`: an enum whose `None` variant has no
/// fields and whose `Some` variant has one field of type `t`.
pub open spec fn is_option_kind_of(k: TypeKind, t: LocalTypeIndex) -> bool {
    &&& k matches TypeKind::Enum { variants }
    &&& variants@.len() == 2
    &&& variants@[0].0 == OPTION_VARIANT_NONE
    &&& variants@[0].1@.len() == 0
    &&& variants@[1].0 == OPTION_VARIANT_SOME
    &&& variants@[1].1@ == seq![t]
}

/// Whether `m` names the type `Option`, with the variants `None` and `Some`.
pub open spec fn is_option_metadata(m: TypeMetadata) -> bool {
    &&& m.name matches Some(n) && n@ == "Option"@
    &&& m.child_names matches Some(ChildNames::EnumVariants(v)) && v@.len() == 2
        && v@[0].0 == OPTION_VARIANT_NONE && v@[0].1@ == "None"@
        && v@[1].0 == OPTION_VARIANT_SOME && v@[1].1@ == "Some"@
}

/// The schema of the key-value store that holds a resource's non-fungibles: the data schema's
/// types, then those of the key schema (which the type aggregator made for the local-id type,
/// found at `key_type`), then an `Option` over the data type, with its names and no
/// validation. The keys are local ids, the values that `Option`, at the last index, and the
/// values may own nothing.
pub fn non_fungible_table_schema(
    data_schema: NonFungibleDataSchema,
    key_type: LocalTypeIndex,
    key_schema: ScryptoSchema,
) -> (r: KeyValueStoreSchema)
    requires
        data_schema.schema.type_validations@.len() + key_schema.type_validations@.len() < usize::MAX,
    ensures
        r.schema.type_kinds@.len() == data_schema.schema.type_kinds@.len() + key_schema.type_kinds@.len() + 1,
        r.schema.type_kinds@.drop_last() == data_schema.schema.type_kinds@ + key_schema.type_kinds@,
        is_option_kind_of(r.schema.type_kinds@.last(), data_schema.non_fungible),
        r.schema.type_metadata@.len() == data_schema.schema.type_metadata@.len() + key_schema.type_metadata@.len() + 1,
        r.schema.type_metadata@.drop_last() == data_schema.schema.type_metadata@ + key_schema.type_metadata@,
        is_option_metadata(r.schema.type_metadata@.last()),
        r.schema.type_validations@ == data_schema.schema.type_validations@ + key_schema.type_validations@
            + seq![TypeValidation::NoValidation],
        r.key == key_type,
        r.value == LocalTypeIndex::SchemaLocalIndex((r.schema.type_validations@.len() - 1) as usize),
        !r.can_own,
{
    proof {
        reveal_strlit("Option");
        reveal_strlit("None");
        reveal_strlit("Some");
    }
    let NonFungibleDataSchema { schema, non_fungible, mutable_fields: _ } = data_schema;
    let ScryptoSchema { type_kinds: data_kinds, type_metadata: data_metadata, type_validations: data_validations } = schema;
    let ScryptoSchema { type_kinds: key_kinds, type_metadata: key_metadata, type_validations: key_validations } = key_schema;
    let ghost (dk, kk) = (data_kinds@, key_kinds@);
    let ghost (dm, km) = (data_metadata@, key_metadata@);
    let ghost (dv, kv) = (data_validations@, key_validations@);

    let mut type_kinds = data_kinds;
    let mut key_kinds = key_kinds;
    type_kinds.append(&mut key_kinds);
    let mut variants: Vec<(u8, Vec<LocalTypeIndex>)> = Vec::new();
    variants.push((OPTION_VARIANT_NONE, Vec::new()));
    let some_fields = vec![non_fungible];
    assert(some_fields@ =~= seq![non_fungible]);
    variants.push((OPTION_VARIANT_SOME, some_fields));
    type_kinds.push(TypeKind::Enum { variants });

    let mut type_metadata = data_metadata;
    let mut key_metadata = key_metadata;
    type_metadata.append(&mut key_metadata);
    let mut names: Vec<(u8, String)> = Vec::new();
    names.push((OPTION_VARIANT_NONE, String::from_str("None")));
    names.push((OPTION_VARIANT_SOME, String::from_str("Some")));
    type_metadata.push(TypeMetadata {
        name: Some(String::from_str("Option")),
        child_names: Some(ChildNames::EnumVariants(names)),
    });

    let mut type_validations = data_validations;
    let mut key_validations = key_validations;
    type_validations.append(&mut key_validations);
    type_validations.push(TypeValidation::NoValidation);
    let value = LocalTypeIndex::SchemaLocalIndex(type_validations.len() - 1);

    let r = KeyValueStoreSchema {
        schema: ScryptoSchema { type_kinds, type_metadata, type_validations },
        key: key_type,
        value,
        can_own: false,
    };
    assert(r.schema.type_kinds@.drop_last() =~= dk + kk);
    assert(r.schema.type_metadata@.drop_last() =~= dm + km);
    assert(r.schema.type_validations@ =~= dv + kv + seq![TypeValidation::NoValidation]);
    r
}

/// The substate of a new non-fungible resource manager whose ids are of kind `id_type`, with
/// `supply` non-fungibles, whose data has the fields `data_fields` (of which `mutable_fields`
/// may be updated), and whose data lives in the key-value store `non_fungible_table`, which the
/// engine creates with the schema that `non_fungible_table_schema` builds.
pub fn build_non_fungible_resource_manager_substate(
    id_type: NonFungibleIdType,
    supply: usize,
    data_fields: Vec<String>,
    mutable_fields: Vec<String>,
    non_fungible_table: NodeId,
) -> (r: NonFungibleResourceManagerSubstate)
    requires
        supply * ATTOS_PER_UNIT <= i128::MAX,
    ensures
        r.id_type == id_type,
        r.total_supply.attos == supply * ATTOS_PER_UNIT,
        r.data_fields@ == data_fields@,
        r.mutable_fields@ == mutable_fields@,
        r.non_fungible_table == non_fungible_table,
{
    NonFungibleResourceManagerSubstate {
        total_supply: Decimal::from_usize(supply),
        id_type,
        data_fields,
        non_fungible_table,
        mutable_fields,
    }
}

/// A non-fungible resource manager: its address, its substate and the table that holds the
/// data of each non-fungible that exists.
pub struct NonFungibleResourceManager {
    pub resource_address: ResourceAddress,
    pub substate: NonFungibleResourceManagerSubstate,
    pub table: AssocMap<NonFungibleLocalId, NonFungibleData>,
}

/// What kind of resource a resource manager manages.
#[derive(Debug, Clone, Copy, PartialEq, Eq)]
pub enum ResourceType {
    Fungible { divisibility: u8 },
    NonFungible { id_type: NonFungibleIdType },
}

/// The substates of a new non-fungible bucket.
pub struct NonFungibleBucketSubstates {
    pub resource_type: ResourceType,
    pub liquid: NonFungibleIdSet,
    pub locked: NonFungibleIdSet,
}

/// The input of the bucket method that lists the local ids of its non-fungibles: it takes no
/// arguments.
#[derive(Debug, Clone, Copy, PartialEq, Eq)]
pub struct BucketGetNonFungibleLocalIdsInput {}

/// The substates of a new, empty non-fungible vault.
#[derive(Debug, Clone, Copy, PartialEq, Eq)]
pub struct NonFungibleVaultSubstates {
    pub id_type: NonFungibleIdType,
    pub amount: Decimal,
    pub ids: NodeId,
}

impl NonFungibleResourceManager {
    /// The table is well formed.
    pub open spec fn wf(&self) -> bool {
        self.table.wf()
    }

    /// The data of each existing non-fungible, by local id.
    pub open spec fn table_map(&self) -> Map<LocalIdView, NonFungibleData> {
        self.table@
    }

    /// Whether the total supply is exactly the number of non-fungibles in the table.
    pub open spec fn supply_matches_table(&self) -> bool {
        self.substate.total_supply.attos == self.table@.dom().len() * ATTOS_PER_UNIT
    }
}

/// The refusal, if any, that writing the entry `e` meets: its id must be of the resource's
/// kind and, when `check_non_existence` holds, must not be in the table yet.
pub open spec fn entry_error(
    resource_address: ResourceAddress,
    id_type: NonFungibleIdType,
    table: Map<LocalIdView, NonFungibleData>,
    check_non_existence: bool,
    e: (NonFungibleLocalId, NonFungibleData),
) -> Option<ManagerErrorView> {
    if local_id_type(e.0@) != id_type {
        Some(ManagerErrorView::NonFungibleIdTypeDoesNotMatch(local_id_type(e.0@), id_type))
    } else if check_non_existence && table.dom().contains(e.0@) {
        Some(ManagerErrorView::NonFungibleAlreadyExists(resource_address, e.0@))
    } else {
        None
    }
}

/// The refusal met by the first entry of `entries`, in order, that meets one.
pub open spec fn first_entry_error(
    resource_address: ResourceAddress,
    id_type: NonFungibleIdType,
    table: Map<LocalIdView, NonFungibleData>,
    check_non_existence: bool,
    entries: Seq<(NonFungibleLocalId, NonFungibleData)>,
) -> Option<ManagerErrorView>
    decreases entries.len(),
{
    if entries.len() == 0 {
        None
    } else {
        match entry_error(resource_address, id_type, table, check_non_existence, entries[0]) {
            Some(e) => Some(e),
            None => first_entry_error(resource_address, id_type, table, check_non_existence, entries.drop_first()),
        }
    }
}

proof fn lemma_first_entry_error_step(
    resource_address: ResourceAddress,
    id_type: NonFungibleIdType,
    table: Map<LocalIdView, NonFungibleData>,
    check_non_existence: bool,
    entries: Seq<(NonFungibleLocalId, NonFungibleData)>,
    i: int,
)
    requires
        0 <= i < entries.len(),
        forall|j: int| 0 <= j < i ==> entry_error(resource_address, id_type, table, check_non_existence, #[trigger] entries[j]) is None,
    ensures
        first_entry_error(resource_address, id_type, table, check_non_existence, entries.skip(i))
            == match entry_error(resource_address, id_type, table, check_non_existence, entries[i]) {
                Some(e) => Some(e),
                None => first_entry_error(resource_address, id_type, table, check_non_existence, entries.skip(i + 1)),
            },
{
    assert(entries.skip(i)[0] == entries[i]);
    assert(entries.skip(i).drop_first() =~= entries.skip(i + 1));
}

proof fn lemma_first_entry_error_prefix(
    resource_address: ResourceAddress,
    id_type: NonFungibleIdType,
    table: Map<LocalIdView, NonFungibleData>,
    check_non_existence: bool,
    entries: Seq<(NonFungibleLocalId, NonFungibleData)>,
    i: int,
)
    requires
        0 <= i <= entries.len(),
        forall|j: int| 0 <= j < i ==> entry_error(resource_address, id_type, table, check_non_existence, #[trigger] entries[j]) is None,
    ensures
        first_entry_error(resource_address, id_type, table, check_non_existence, entries)
            == first_entry_error(resource_address, id_type, table, check_non_existence, entries.skip(i)),
    decreases i,
{
    if i > 0 {
        lemma_first_entry_error_prefix(resource_address, id_type, table, check_non_existence, entries, i - 1);
        lemma_first_entry_error_step(resource_address, id_type, table, check_non_existence, entries, i - 1);
    } else {
        assert(entries.skip(0) =~= entries);
    }
}

/// The ids of a set of entries, as a set of local ids.
pub open spec fn ids_of(entries: Map<LocalIdView, NonFungibleData>) -> Set<LocalIdView> {
    entries.dom()
}

/// Whether the characters `a` come before `b` in lexicographic order.
pub open spec fn chars_before(a: Seq<char>, b: Seq<char>) -> bool
    decreases a.len(),
{
    if a.len() == 0 {
        b.len() > 0
    } else if b.len() == 0 {
        false
    } else if a[0] != b[0] {
        (a[0] as int) < (b[0] as int)
    } else {
        chars_before(a.drop_first(), b.drop_first())
    }
}

/// Whether the bytes `a` come before `b` in lexicographic order.
pub open spec fn bytes_before(a: Seq<u8>, b: Seq<u8>) -> bool
    decreases a.len(),
{
    if a.len() == 0 {
        b.len() > 0
    } else if b.len() == 0 {
        false
    } else if a[0] != b[0] {
        a[0] < b[0]
    } else {
        bytes_before(a.drop_first(), b.drop_first())
    }
}

/// The place of a kind of local id in the order of local ids.
pub open spec fn id_rank(id: LocalIdView) -> int {
    match id {
        LocalIdView::String(_) => 0,
        LocalIdView::Integer(_) => 1,
        LocalIdView::Bytes(_) => 2,
        LocalIdView::UUID(_) => 3,
    }
}

/// Whether local id `a` comes before `b` in the order of a sorted map of local ids: by kind,
/// then by value.
pub open spec fn local_id_before(a: LocalIdView, b: LocalIdView) -> bool {
    if id_rank(a) != id_rank(b) {
        id_rank(a) < id_rank(b)
    } else {
        match (a, b) {
            (LocalIdView::String(x), LocalIdView::String(y)) => chars_before(x, y),
            (LocalIdView::Integer(x), LocalIdView::Integer(y)) => x < y,
            (LocalIdView::Bytes(x), LocalIdView::Bytes(y)) => bytes_before(x, y),
            (LocalIdView::UUID(x), LocalIdView::UUID(y)) => x < y,
            _ => false,
        }
    }
}

/// Whether the entries come in ascending order of their ids, as a sorted map keeps them.
pub open spec fn in_key_order(s: Seq<(NonFungibleLocalId, NonFungibleData)>) -> bool {
    forall|i: int, j: int| 0 <= i < j < s.len() ==> local_id_before(#[trigger] s[i].0@, #[trigger] s[j].0@)
}

/// Whether the entry at `k` is the first of `s` that writing refuses.
pub open spec fn first_refused_at(
    resource_address: ResourceAddress,
    id_type: NonFungibleIdType,
    table: Map<LocalIdView, NonFungibleData>,
    check_non_existence: bool,
    s: Seq<(NonFungibleLocalId, NonFungibleData)>,
    k: int,
) -> bool {
    &&& 0 <= k < s.len()
    &&& entry_error(resource_address, id_type, table, check_non_existence, s[k]) is Some
    &&& forall|j: int| 0 <= j < k ==> entry_error(resource_address, id_type, table, check_non_existence, #[trigger] s[j]) is None
}

/// Writes the entries into the table one after the other, in ascending order of their ids.
/// An entry whose id is not of the resource's kind is refused with
/// `NonFungibleIdTypeDoesNotMatch`; when `check_non_existence` holds, an entry whose id is
/// already in the table is refused with `NonFungibleAlreadyExists`. Writing stops at the first
/// refused entry: the entries before it are stored, it and those after it are not.
pub fn create_non_fungibles(
    resource_address: ResourceAddress,
    id_type: NonFungibleIdType,
    table: &mut AssocMap<NonFungibleLocalId, NonFungibleData>,
    entries: AssocMap<NonFungibleLocalId, NonFungibleData>,
    check_non_existence: bool,
) -> (r: Result<(), NonFungibleResourceManagerError>)
    requires
        old(table).wf(),
        entries.wf(),
        in_key_order(entries.entry_seq()),
    ensures
        final(table).wf(),
        match first_entry_error(resource_address, id_type, old(table)@, check_non_existence, entries.entry_seq()) {
            Some(e) => r matches Err(err) && err@ == e && exists|k: int|
                first_refused_at(resource_address, id_type, old(table)@, check_non_existence, entries.entry_seq(), k)
                && final(table)@ == old(table)@.union_prefer_right(seq_to_map(entries.entry_seq().take(k))),
            None => r is Ok && final(table)@ == old(table)@.union_prefer_right(entries@),
        },
{
    let ghost s = entries.entry_seq();
    let ghost old_table = table@;
    proof { entries.lemma_view(); }
    let n = entries.entry_count();
    let mut remaining = entries.into_entries();
    let mut k: usize = 0;
    assert(s.take(0) =~= Seq::<(NonFungibleLocalId, NonFungibleData)>::empty());
    assert(old_table.union_prefer_right(seq_to_map(s.take(0))) =~= old_table);
    assert(s.skip(0) =~= s);
    while k < n
        invariant
            n == s.len(),
            s == entries.entry_seq(),
            k <= n,
            keys_distinct(s),
            old_table == old(table)@,
            remaining@ == s.skip(k as int),
            table.wf(),
            table@ == old_table.union_prefer_right(seq_to_map(s.take(k as int))),
            forall|j: int| 0 <= j < k ==> entry_error(resource_address, id_type, old_table, check_non_existence, #[trigger] s[j]) is None,
        decreases n - k,
    {
        assert(remaining@[0] == s[k as int]);
        let (id, data) = remaining.remove(0);
        proof {
            lemma_seq_to_map_dom(s.take(k as int), id@);
            if seq_to_map(s.take(k as int)).dom().contains(id@) {
                let j = choose|j: int| 0 <= j < s.take(k as int).len() && #[trigger] s.take(k as int)[j].0@ == id@;
                assert(s[j].0@ != s[k as int].0@);
            }
            assert(table@.dom().contains(id@) == old_table.dom().contains(id@));
            lemma_first_entry_error_prefix(resource_address, id_type, old_table, check_non_existence, s, k as int);
            lemma_first_entry_error_step(resource_address, id_type, old_table, check_non_existence, s, k as int);
        }
        let e_type = id.id_type();
        if e_type != id_type {
            assert(first_refused_at(resource_address, id_type, old_table, check_non_existence, s, k as int));
            assert(exists|k2: int| first_refused_at(resource_address, id_type, old_table, check_non_existence, s, k2)
                && table@ == old_table.union_prefer_right(seq_to_map(s.take(k2))));
            return Err(NonFungibleResourceManagerError::NonFungibleIdTypeDoesNotMatch(e_type, id_type));
        }
        if check_non_existence && table.contains_key(&id) {
            assert(first_refused_at(resource_address, id_type, old_table, check_non_existence, s, k as int));
            assert(exists|k2: int| first_refused_at(resource_address, id_type, old_table, check_non_existence, s, k2)
                && table@ == old_table.union_prefer_right(seq_to_map(s.take(k2))));
            let global_id = NonFungibleGlobalId::new(resource_address, id);
            return Err(NonFungibleResourceManagerError::NonFungibleAlreadyExists(Box::new(global_id)));
        }
        table.insert(id, data);
        proof {
            assert(s.take(k + 1).drop_last() =~= s.take(k as int));
            assert(s.take(k + 1).last() == s[k as int]);
        }
        k = k + 1;
        assert(remaining@ =~= s.skip(k as int));
        assert(table@ =~= old_table.union_prefer_right(seq_to_map(s.take(k as int))));
    }
    proof {
        lemma_first_entry_error_prefix(resource_address, id_type, old_table, check_non_existence, s, n as int);
        assert(s.skip(n as int).len() == 0);
    }
    assert(s.take(n as int) =~= s);
    Ok(())
}

} // verus!

verus! {

proof fn lemma_first_entry_error_none(
    resource_address: ResourceAddress,
    id_type: NonFungibleIdType,
    table: Map<LocalIdView, NonFungibleData>,
    check_non_existence: bool,
    entries: Seq<(NonFungibleLocalId, NonFungibleData)>,
)
    requires
        first_entry_error(resource_address, id_type, table, check_non_existence, entries) is None,
    ensures
        forall|j: int| 0 <= j < entries.len() ==>
            entry_error(resource_address, id_type, table, check_non_existence, #[trigger] entries[j]) is None,
    decreases entries.len(),
{
    if entries.len() > 0 {
        lemma_first_entry_error_none(resource_address, id_type, table, check_non_existence, entries.drop_first());
        assert forall|j: int| 0 <= j < entries.len() implies
            entry_error(resource_address, id_type, table, check_non_existence, #[trigger] entries[j]) is None by {
            if j > 0 {
                assert(entries[j] == entries.drop_first()[j - 1]);
            }
        }
    }
}

/// The set of the keys of a map of entries.
fn ids_of_entries(entries: &AssocMap<NonFungibleLocalId, NonFungibleData>) -> (r: NonFungibleIdSet)
    requires
        entries.wf(),
    ensures
        r.wf(),
        r@.dom() == entries@.dom(),
{
    let mut ids: NonFungibleIdSet = AssocMap::new();
    let n = entries.entry_count();
    let mut i: usize = 0;
    proof { entries.lemma_view(); }
    while i < n
        invariant
            n == entries.entry_seq().len(),
            i <= n,
            ids.wf(),
            entries.wf(),
            forall|k: LocalIdView| ids@.dom().contains(k) <==>
                exists|j: int| 0 <= j < i && #[trigger] entries.entry_seq()[j].0@ == k,
        decreases n - i,
    {
        let e = entries.entry_at(i);
        ids.insert(e.0.duplicate(), ());
        i = i + 1;
        assert forall|k: LocalIdView| ids@.dom().contains(k) <==>
            exists|j: int| 0 <= j < i && #[trigger] entries.entry_seq()[j].0@ == k by {
            if ids@.dom().contains(k) && k == e.0@ {
                assert(entries.entry_seq()[i - 1].0@ == k);
            }
        }
    }
    proof {
        entries.lemma_view();
        assert forall|k: LocalIdView| ids@.dom().contains(k) <==> entries@.dom().contains(k) by {
            lemma_seq_to_map_dom(entries.entry_seq(), k);
        }
        assert(ids@.dom() =~= entries@.dom());
    }
    ids
}

/// The index of the first name in `names` whose view is `name`, if there is one.
pub open spec fn name_index(names: Seq<String>, name: Seq<char>) -> Option<int>
    decreases names.len(),
{
    if names.len() == 0 {
        None
    } else if names.last()@ == name {
        match name_index(names.drop_last(), name) {
            Some(i) => Some(i),
            None => Some(names.len() - 1),
        }
    } else {
        name_index(names.drop_last(), name)
    }
}

proof fn lemma_name_index(names: Seq<String>, name: Seq<char>)
    ensures
        match name_index(names, name) {
            Some(i) => 0 <= i < names.len() && names[i]@ == name
                && forall|j: int| 0 <= j < i ==> #[trigger] names[j]@ != name,
            None => forall|j: int| 0 <= j < names.len() ==> #[trigger] names[j]@ != name,
        },
    decreases names.len(),
{
    if names.len() > 0 {
        lemma_name_index(names.drop_last(), name);
        assert forall|j: int| 0 <= j < names.len() - 1 implies #[trigger] names[j] == names.drop_last()[j] by {}
    }
}

fn find_name(names: &Vec<String>, name: &String) -> (r: Option<usize>)
    ensures
        match name_index(names@, name@) {
            Some(i) => r matches Some(k) && k == i,
            None => r is None,
        },
{
    proof { lemma_name_index(names@, name@); }
    let n = names.len();
    let mut i: usize = 0;
    while i < n
        invariant
            n == names@.len(),
            i <= n,
            forall|j: int| 0 <= j < i ==> #[trigger] names@[j]@ != name@,
        decreases n - i,
    {
        if names[i].eq(name) {
            proof {
                lemma_name_index(names@, name@);
                match name_index(names@, name@) {
                    Some(k) => {
                        if k < i { assert(names@[k]@ != name@); }
                        if k > i { assert(names@[i as int]@ != name@); }
                    },
                    None => { assert(names@[i as int]@ != name@); },
                }
            }
            return Some(i);
        }
        i = i + 1;
    }
    None
}

/// The manager's state as mathematical values.
pub struct NonFungibleResourceManagerModel {
    pub resource_address: ResourceAddress,
    pub total_supply: int,
    pub id_type: NonFungibleIdType,
    pub data_fields: Seq<String>,
    pub mutable_fields: Seq<String>,
    pub non_fungible_table: NodeId,
    pub table: Map<LocalIdView, NonFungibleData>,
}

impl View for NonFungibleResourceManager {
    type V = NonFungibleResourceManagerModel;

    open spec fn view(&self) -> NonFungibleResourceManagerModel {
        NonFungibleResourceManagerModel {
            resource_address: self.resource_address,
            total_supply: self.substate.total_supply.attos as int,
            id_type: self.substate.id_type,
            data_fields: self.substate.data_fields@,
            mutable_fields: self.substate.mutable_fields@,
            non_fungible_table: self.substate.non_fungible_table,
            table: self.table@,
        }
    }
}

/// The logic of the non-fungible resource manager blueprint.
pub struct NonFungibleResourceManagerBlueprint;

impl NonFungibleResourceManagerBlueprint {
    /// A new manager at `resource_address`, with no supply and no non-fungibles.
    pub fn create_with_address(
        id_type: NonFungibleIdType,
        data_fields: Vec<String>,
        mutable_fields: Vec<String>,
        non_fungible_table: NodeId,
        resource_address: ResourceAddress,
    ) -> (r: NonFungibleResourceManager)
        ensures
            r.wf(),
            r.resource_address == resource_address,
            r.substate.id_type == id_type,
            r.substate.total_supply.attos == 0,
            r.substate.data_fields@ == data_fields@,
            r.substate.mutable_fields@ == mutable_fields@,
            r.substate.non_fungible_table == non_fungible_table,
            r.table@ == Map::<LocalIdView, NonFungibleData>::empty(),
            r.supply_matches_table(),
    {
        let r = NonFungibleResourceManager {
            resource_address,
            substate: build_non_fungible_resource_manager_substate(
                id_type,
                0,
                data_fields,
                mutable_fields,
                non_fungible_table,
            ),
            table: AssocMap::new(),
        };
        proof { assert(r.table@.dom() =~= Set::<LocalIdView>::empty()); }
        r
    }

    /// A new manager at the address that the engine allocated for it; the same as
    /// `create_with_address`.
    pub fn create(
        id_type: NonFungibleIdType,
        data_fields: Vec<String>,
        mutable_fields: Vec<String>,
        non_fungible_table: NodeId,
        allocated_address: ResourceAddress,
    ) -> (r: NonFungibleResourceManager)
        ensures
            r.wf(),
            r.resource_address == allocated_address,
            r.substate.id_type == id_type,
            r.substate.total_supply.attos == 0,
            r.substate.data_fields@ == data_fields@,
            r.substate.mutable_fields@ == mutable_fields@,
            r.substate.non_fungible_table == non_fungible_table,
            r.table@ == Map::<LocalIdView, NonFungibleData>::empty(),
    {
        Self::create_with_address(id_type, data_fields, mutable_fields, non_fungible_table, allocated_address)
    }

    /// A new manager whose initial supply is the given entries. A resource with UUID ids is
    /// refused with `NonFungibleLocalIdProvidedForUUIDType`; an entry whose id is of another
    /// kind than the resource's is refused with `NonFungibleIdTypeDoesNotMatch`. On success,
    /// the supply is the number of entries, the table holds exactly the entries, and their ids
    /// are returned for the new bucket.
    pub fn create_with_initial_supply(
        id_type: NonFungibleIdType,
        data_fields: Vec<String>,
        mutable_fields: Vec<String>,
        non_fungible_table: NodeId,
        resource_address: ResourceAddress,
        entries: AssocMap<NonFungibleLocalId, NonFungibleData>,
    ) -> (r: Result<(NonFungibleResourceManager, NonFungibleIdSet), NonFungibleResourceManagerError>)
        requires
            entries.wf(),
            in_key_order(entries.entry_seq()),
            entries@.dom().len() * ATTOS_PER_UNIT <= i128::MAX,
        ensures
            id_type == NonFungibleIdType::UUID ==> (r matches Err(e)
                && e@ == ManagerErrorView::NonFungibleLocalIdProvidedForUUIDType),
            id_type != NonFungibleIdType::UUID ==> match first_entry_error(
                resource_address, id_type, Map::empty(), false, entries.entry_seq()) {
                Some(e) => r matches Err(err) && err@ == e,
                None => r matches Ok((m, ids)) && {
                    &&& m.wf()
                    &&& m.resource_address == resource_address
                    &&& m.substate.id_type == id_type
                    &&& m.substate.data_fields@ == data_fields@
                    &&& m.substate.mutable_fields@ == mutable_fields@
                    &&& m.substate.non_fungible_table == non_fungible_table
                    &&& m.table@ == entries@
                    &&& m.supply_matches_table()
                    &&& ids.wf()
                    &&& ids@.dom() == entries@.dom()
                },
            },
    {
        if id_type == NonFungibleIdType::UUID {
            return Err(NonFungibleResourceManagerError::NonFungibleLocalIdProvidedForUUIDType);
        }
        let count = entries.len();
        let ids = ids_of_entries(&entries);
        let mut m = Self::create_with_address(id_type, data_fields, mutable_fields, non_fungible_table, resource_address);
        m.substate.total_supply = Decimal::from_usize(count);
        let ghost entries_map = entries@;
        create_non_fungibles(resource_address, id_type, &mut m.table, entries, false)?;
        proof {
            assert(m.table@ =~= entries_map);
        }
        Ok((m, ids))
    }

    /// Mints the given entries. A resource with UUID ids is refused with
    /// `NonFungibleLocalIdProvidedForUUIDType`, and nothing changes. Otherwise the supply grows
    /// by the number of entries and they are written in ascending order of their ids: an entry
    /// whose id is of another kind is refused with `NonFungibleIdTypeDoesNotMatch`, and one
    /// whose id exists already with `NonFungibleAlreadyExists`; writing stops there, with the
    /// entries before it stored. When none is refused, all are added to the table and their ids
    /// are returned.
    pub fn mint_non_fungible(
        manager: &mut NonFungibleResourceManager,
        entries: AssocMap<NonFungibleLocalId, NonFungibleData>,
    ) -> (r: Result<NonFungibleIdSet, NonFungibleResourceManagerError>)
        requires
            old(manager).wf(),
            entries.wf(),
            in_key_order(entries.entry_seq()),
            old(manager).substate.id_type != NonFungibleIdType::UUID ==>
                old(manager).substate.total_supply.attos + entries@.dom().len() * ATTOS_PER_UNIT <= i128::MAX,
        ensures
            final(manager).wf(),
            old(manager).substate.id_type == NonFungibleIdType::UUID ==> (r matches Err(e)
                && e@ == ManagerErrorView::NonFungibleLocalIdProvidedForUUIDType && final(manager)@ == old(manager)@),
            old(manager).substate.id_type != NonFungibleIdType::UUID ==> match first_entry_error(
                old(manager).resource_address, old(manager).substate.id_type, old(manager).table@, true, entries.entry_seq()) {
                Some(e) => r matches Err(err) && err@ == e && exists|k: int|
                    first_refused_at(old(manager).resource_address, old(manager).substate.id_type, old(manager).table@,
                        true, entries.entry_seq(), k)
                    && final(manager)@ == (NonFungibleResourceManagerModel {
                        total_supply: old(manager)@.total_supply + entries@.dom().len() * ATTOS_PER_UNIT,
                        table: old(manager)@.table.union_prefer_right(seq_to_map(entries.entry_seq().take(k))),
                        ..old(manager)@
                    }),
                None => r matches Ok(ids) && {
                    &&& ids.wf()
                    &&& ids@.dom() == entries@.dom()
                    &&& final(manager)@ == (NonFungibleResourceManagerModel {
                        total_supply: old(manager)@.total_supply + entries@.dom().len() * ATTOS_PER_UNIT,
                        table: old(manager)@.table.union_prefer_right(entries@),
                        ..old(manager)@
                    })
                },
            },
    {
        let id_type = manager.substate.id_type;
        if id_type == NonFungibleIdType::UUID {
            return Err(NonFungibleResourceManagerError::NonFungibleLocalIdProvidedForUUIDType);
        }
        let count = entries.len();
        let ids = ids_of_entries(&entries);
        manager.substate.total_supply = manager.substate.total_supply.add(&Decimal::from_usize(count));
        let result = create_non_fungibles(manager.resource_address, id_type, &mut manager.table, entries, true);
        match result {
            Ok(()) => Ok(ids),
            Err(e) => Err(e),
        }
    }

    /// Mints one non-fungible of a UUID resource, under the id made of `uuid` (a fresh uuid
    /// from the engine's generator). A resource whose ids are not UUIDs is refused with
    /// `InvalidNonFungibleIdType` and nothing changes; otherwise the supply grows by one, the
    /// data is stored under the new id, and the id is returned.
    pub fn mint_single_uuid_non_fungible(
        manager: &mut NonFungibleResourceManager,
        value: NonFungibleData,
        uuid: u128,
    ) -> (r: Result<NonFungibleLocalId, NonFungibleResourceManagerError>)
        requires
            old(manager).wf(),
            old(manager).substate.id_type == NonFungibleIdType::UUID ==>
                old(manager).substate.total_supply.attos + ATTOS_PER_UNIT <= i128::MAX,
        ensures
            final(manager).wf(),
            old(manager).substate.id_type != NonFungibleIdType::UUID ==> (r matches Err(e)
                && e@ == ManagerErrorView::InvalidNonFungibleIdType && final(manager)@ == old(manager)@),
            old(manager).substate.id_type == NonFungibleIdType::UUID ==> (r matches Ok(id)
                && id@ == LocalIdView::UUID(uuid)
                && final(manager)@ == (NonFungibleResourceManagerModel {
                    total_supply: old(manager)@.total_supply + ATTOS_PER_UNIT,
                    table: old(manager)@.table.insert(LocalIdView::UUID(uuid), value),
                    ..old(manager)@
                })),
    {
        if manager.substate.id_type != NonFungibleIdType::UUID {
            return Err(NonFungibleResourceManagerError::InvalidNonFungibleIdType);
        }
        manager.substate.total_supply = manager.substate.total_supply.add(&Decimal::from_usize(1));
        manager.table.insert(NonFungibleLocalId::UUID(uuid), value);
        Ok(NonFungibleLocalId::UUID(uuid))
    }

    /// Mints non-fungibles of a UUID resource: the i-th entry is stored under the id made of
    /// the i-th of `uuids` (fresh uuids from the engine's generator). A resource whose ids are
    /// not UUIDs is refused with `InvalidNonFungibleIdType` and nothing changes; otherwise the
    /// supply grows by the number of entries and the ids of the new non-fungibles are returned.
    pub fn mint_uuid_non_fungible(
        manager: &mut NonFungibleResourceManager,
        entries: Vec<NonFungibleData>,
        uuids: Vec<u128>,
    ) -> (r: Result<NonFungibleIdSet, NonFungibleResourceManagerError>)
        requires
            old(manager).wf(),
            uuids@.len() == entries@.len(),
            old(manager).substate.id_type == NonFungibleIdType::UUID ==>
                old(manager).substate.total_supply.attos + entries@.len() * ATTOS_PER_UNIT <= i128::MAX,
        ensures
            final(manager).wf(),
            old(manager).substate.id_type != NonFungibleIdType::UUID ==> (r matches Err(e)
                && e@ == ManagerErrorView::InvalidNonFungibleIdType && final(manager)@ == old(manager)@),
            old(manager).substate.id_type == NonFungibleIdType::UUID ==> (r matches Ok(ids)
                && ids.wf()
                && ids@.dom() == uuid_ids(uuids@)
                && final(manager)@ == (NonFungibleResourceManagerModel {
                    total_supply: old(manager)@.total_supply + entries@.len() * ATTOS_PER_UNIT,
                    table: with_uuid_entries(old(manager)@.table, entries@, uuids@),
                    ..old(manager)@
                })),
    {
        if manager.substate.id_type != NonFungibleIdType::UUID {
            return Err(NonFungibleResourceManagerError::InvalidNonFungibleIdType);
        }
        let count = entries.len();
        manager.substate.total_supply = manager.substate.total_supply.add(&Decimal::from_usize(count));
        let ids = insert_uuid_entries(&mut manager.table, entries, &uuids);
        Ok(ids)
    }

    /// A new UUID resource manager whose initial supply is the given entries, the i-th stored
    /// under the id made of the i-th of `uuids`. The supply is the number of distinct ids.
    pub fn create_uuid_with_initial_supply(
        data_fields: Vec<String>,
        mutable_fields: Vec<String>,
        non_fungible_table: NodeId,
        resource_address: ResourceAddress,
        entries: Vec<NonFungibleData>,
        uuids: Vec<u128>,
    ) -> (r: (NonFungibleResourceManager, NonFungibleIdSet))
        requires
            uuids@.len() == entries@.len(),
            entries@.len() * ATTOS_PER_UNIT <= i128::MAX,
        ensures
            r.0.wf(),
            r.0.resource_address == resource_address,
            r.0.substate.id_type == NonFungibleIdType::UUID,
            r.0.substate.data_fields@ == data_fields@,
            r.0.substate.mutable_fields@ == mutable_fields@,
            r.0.substate.non_fungible_table == non_fungible_table,
            r.0.table@ == with_uuid_entries(Map::empty(), entries@, uuids@),
            r.0.supply_matches_table(),
            r.1.wf(),
            r.1@.dom() == uuid_ids(uuids@),
    {
        let mut m = Self::create_with_address(
            NonFungibleIdType::UUID, data_fields, mutable_fields, non_fungible_table, resource_address);
        let ids = insert_uuid_entries(&mut m.table, entries, &uuids);
        let count = m.table.len();
        proof {
            lemma_with_uuid_entries_len(Map::empty(), entries@, uuids@);
        }
        m.substate.total_supply = Decimal::from_usize(count);
        (m, ids)
    }

    /// Sets the field `field_name` of the non-fungible `id` to `data`. A field that the data
    /// struct does not have is refused with `InvalidField`, one that may not change with
    /// `FieldNotMutable`, and a non-fungible that does not exist with `NonFungibleNotFound`;
    /// a refused update changes nothing.
    pub fn update_non_fungible_data(
        manager: &mut NonFungibleResourceManager,
        id: NonFungibleLocalId,
        field_name: String,
        data: Vec<u8>,
    ) -> (r: Result<(), NonFungibleResourceManagerError>)
        requires
            old(manager).wf(),
            (name_index(old(manager).substate.data_fields@, field_name@) matches Some(i)
                && old(manager).table@.dom().contains(id@))
                ==> name_index(old(manager).substate.data_fields@, field_name@).unwrap() < old(manager).table@[id@].fields@.len(),
        ensures
            final(manager).wf(),
            final(manager).substate.data_fields@ == old(manager).substate.data_fields@,
            final(manager).substate.mutable_fields@ == old(manager).substate.mutable_fields@,
            match name_index(old(manager).substate.data_fields@, field_name@) {
                None => (r matches Err(e) && e@ == ManagerErrorView::InvalidField(field_name@)
                    && final(manager)@ == old(manager)@),
                Some(i) => if name_index(old(manager).substate.mutable_fields@, field_name@) is None {
                    r matches Err(e) && e@ == ManagerErrorView::FieldNotMutable(field_name@)
                        && final(manager)@ == old(manager)@
                } else if !old(manager).table@.dom().contains(id@) {
                    r matches Err(e) && e@ == ManagerErrorView::NonFungibleNotFound(old(manager).resource_address, id@)
                        && final(manager)@ == old(manager)@
                } else {
                    &&& r is Ok
                    &&& final(manager)@ == (NonFungibleResourceManagerModel {
                        table: old(manager)@.table.insert(id@, final(manager)@.table[id@]),
                        ..old(manager)@
                    })
                    &&& final(manager)@.table[id@].fields@ == old(manager)@.table[id@].fields@.update(i, data)
                },
            },
    {
        let index = match find_name(&manager.substate.data_fields, &field_name) {
            Some(index) => index,
            None => {
                return Err(NonFungibleResourceManagerError::InvalidField(field_name));
            },
        };
        if find_name(&manager.substate.mutable_fields, &field_name).is_none() {
            return Err(NonFungibleResourceManagerError::FieldNotMutable(field_name));
        }
        let ghost old_table = manager.table@;
        match manager.table.remove(&id) {
            Some(mut non_fungible) => {
                non_fungible.fields.set(index, data);
                manager.table.insert(id, non_fungible);
                proof {
                    assert(manager.table@ =~= old_table.insert(id@, manager.table@[id@]));
                }
                Ok(())
            },
            None => {
                assert(manager.table@ =~= old_table);
                let global_id = NonFungibleGlobalId::new(manager.resource_address, id);
                Err(NonFungibleResourceManagerError::NonFungibleNotFound(Box::new(global_id)))
            },
        }
    }

    /// Whether the non-fungible `id` exists.
    pub fn non_fungible_exists(manager: &NonFungibleResourceManager, id: &NonFungibleLocalId) -> (r: bool)
        ensures
            r == manager.table@.dom().contains(id@),
    {
        manager.table.contains_key(id)
    }

    /// The data of the non-fungible `id`; one that does not exist is refused with
    /// `NonFungibleNotFound`.
    pub fn get_non_fungible<'a>(
        manager: &'a NonFungibleResourceManager,
        id: &NonFungibleLocalId,
    ) -> (r: Result<&'a NonFungibleData, NonFungibleResourceManagerError>)
        requires
            manager.wf(),
        ensures
            manager.table@.dom().contains(id@) ==> (r matches Ok(d) && *d == manager.table@[id@]),
            !manager.table@.dom().contains(id@) ==> (r matches Err(e)
                && e@ == ManagerErrorView::NonFungibleNotFound(manager.resource_address, id@)),
    {
        match manager.table.get(id) {
            Some(d) => Ok(d),
            None => {
                let global_id = NonFungibleGlobalId::new(manager.resource_address, id.duplicate());
                Err(NonFungibleResourceManagerError::NonFungibleNotFound(Box::new(global_id)))
            },
        }
    }

    /// The substates of a new empty bucket of this resource.
    pub fn create_empty_bucket(manager: &NonFungibleResourceManager) -> (r: NonFungibleBucketSubstates)
        ensures
            r.resource_type == (ResourceType::NonFungible { id_type: manager.substate.id_type }),
            r.liquid.wf(),
            r.liquid@ == Map::<LocalIdView, ()>::empty(),
            r.locked.wf(),
            r.locked@ == Map::<LocalIdView, ()>::empty(),
    {
        Self::create_bucket(manager, AssocMap::new())
    }

    /// The substates of a new bucket of this resource that holds `ids`, none of them locked.
    pub fn create_bucket(manager: &NonFungibleResourceManager, ids: NonFungibleIdSet) -> (r: NonFungibleBucketSubstates)
        ensures
            r.resource_type == (ResourceType::NonFungible { id_type: manager.substate.id_type }),
            r.liquid@ == ids@,
            r.liquid.wf() == ids.wf(),
            r.locked.wf(),
            r.locked@ == Map::<LocalIdView, ()>::empty(),
    {
        NonFungibleBucketSubstates {
            resource_type: ResourceType::NonFungible { id_type: manager.substate.id_type },
            liquid: ids,
            locked: AssocMap::new(),
        }
    }

    /// Burns the non-fungibles of a dropped bucket of this resource: the supply shrinks by
    /// their number and their data is removed. The burned ids are returned, for the event.
    pub fn burn(manager: &mut NonFungibleResourceManager, bucket_ids: NonFungibleIdSet) -> (r: NonFungibleIdSet)
        requires
            old(manager).wf(),
            bucket_ids.wf(),
            bucket_ids@.dom().len() * ATTOS_PER_UNIT <= i128::MAX,
            old(manager).substate.total_supply.attos - bucket_ids@.dom().len() * ATTOS_PER_UNIT >= i128::MIN,
        ensures
            final(manager).wf(),
            r@ == bucket_ids@,
            r.wf(),
            final(manager)@ == (NonFungibleResourceManagerModel {
                total_supply: old(manager)@.total_supply - bucket_ids@.dom().len() * ATTOS_PER_UNIT,
                table: old(manager)@.table.remove_keys(bucket_ids@.dom()),
                ..old(manager)@
            }),
    {
        let count = bucket_ids.len();
        manager.substate.total_supply = manager.substate.total_supply.sub(&Decimal::from_usize(count));
        let ghost old_table = manager.table@;
        assert(old_table == old(manager).table@);
        let n = bucket_ids.entry_count();
        let mut i: usize = 0;
        while i < n
            invariant
                n == bucket_ids.entry_seq().len(),
                i <= n,
                manager.table.wf(),
                manager.substate.total_supply.attos == old(manager).substate.total_supply.attos - bucket_ids@.dom().len() * ATTOS_PER_UNIT,
                manager.substate.id_type == old(manager).substate.id_type,
                manager.substate.data_fields == old(manager).substate.data_fields,
                manager.substate.mutable_fields == old(manager).substate.mutable_fields,
                manager.substate.non_fungible_table == old(manager).substate.non_fungible_table,
                manager.resource_address == old(manager).resource_address,
                manager.table@ == old_table.remove_keys(
                    Set::new(|k: LocalIdView| exists|j: int| 0 <= j < i && #[trigger] bucket_ids.entry_seq()[j].0@ == k)),
            decreases n - i,
        {
            let e = bucket_ids.entry_at(i);
            let _ = manager.table.remove(&e.0);
            i = i + 1;
            proof {
                let s_new = Set::new(|k: LocalIdView| exists|j: int| 0 <= j < i && #[trigger] bucket_ids.entry_seq()[j].0@ == k);
                assert forall|k: LocalIdView| s_new.contains(k) <==>
                    (k == e.0@ || exists|j: int| 0 <= j < i - 1 && #[trigger] bucket_ids.entry_seq()[j].0@ == k) by {
                    if s_new.contains(k) && k != e.0@ {
                        let j = choose|j: int| 0 <= j < i && #[trigger] bucket_ids.entry_seq()[j].0@ == k;
                        assert(j < i - 1);
                    }
                    if k == e.0@ {
                        assert(bucket_ids.entry_seq()[i - 1].0@ == k);
                    }
                }
                assert(manager.table@ =~= old_table.remove_keys(s_new));
            }
        }
        proof {
            bucket_ids.lemma_view();
            let s_all = Set::new(|k: LocalIdView| exists|j: int| 0 <= j < n && #[trigger] bucket_ids.entry_seq()[j].0@ == k);
            assert forall|k: LocalIdView| s_all.contains(k) <==> bucket_ids@.dom().contains(k) by {
                lemma_seq_to_map_dom(bucket_ids.entry_seq(), k);
            }
            assert(s_all =~= bucket_ids@.dom());
        }
        bucket_ids
    }

    /// Drops a bucket that was taken out of circulation; one that still holds non-fungibles
    /// is refused with `DropNonEmptyBucket`.
    pub fn drop_empty_bucket(bucket_ids: &NonFungibleIdSet) -> (r: Result<(), NonFungibleResourceManagerError>)
        requires
            bucket_ids.wf(),
            bucket_ids@.dom().len() * ATTOS_PER_UNIT <= i128::MAX,
        ensures
            bucket_ids@.dom().len() == 0 ==> r is Ok,
            bucket_ids@.dom().len() != 0 ==> (r matches Err(e) && e@ == ManagerErrorView::DropNonEmptyBucket),
    {
        let amount = Decimal::from_usize(bucket_ids.len());
        if amount.is_zero() {
            Ok(())
        } else {
            Err(NonFungibleResourceManagerError::DropNonEmptyBucket)
        }
    }

    /// The substates of a new empty vault of this resource, whose ids are kept in `ids`.
    pub fn create_vault(manager: &NonFungibleResourceManager, ids: NodeId) -> (r: NonFungibleVaultSubstates)
        ensures
            r.id_type == manager.substate.id_type,
            r.amount.attos == 0,
            r.ids == ids,
    {
        NonFungibleVaultSubstates { id_type: manager.substate.id_type, amount: Decimal::zero(), ids }
    }

    /// The kind of resource managed: non-fungible, with the manager's kind of id.
    pub fn get_resource_type(manager: &NonFungibleResourceManager) -> (r: ResourceType)
        ensures
            r == (ResourceType::NonFungible { id_type: manager.substate.id_type }),
    {
        ResourceType::NonFungible { id_type: manager.substate.id_type }
    }

    /// The total supply.
    pub fn get_total_supply(manager: &NonFungibleResourceManager) -> (r: Decimal)
        ensures
            r == manager.substate.total_supply,
    {
        manager.substate.total_supply
    }
}

/// The ids made of each of `uuids`.
pub open spec fn uuid_ids(uuids: Seq<u128>) -> Set<LocalIdView> {
    Set::new(|k: LocalIdView| exists|j: int| 0 <= j < uuids.len() && k == LocalIdView::UUID(#[trigger] uuids[j]))
}

/// The table after storing each entry, in order, under the id made of the matching uuid; a
/// later entry replaces an earlier one under the same id.
pub open spec fn with_uuid_entries(
    table: Map<LocalIdView, NonFungibleData>,
    entries: Seq<NonFungibleData>,
    uuids: Seq<u128>,
) -> Map<LocalIdView, NonFungibleData>
    decreases entries.len(),
{
    if entries.len() == 0 {
        table
    } else {
        with_uuid_entries(table, entries.drop_last(), uuids.take(entries.len() - 1))
            .insert(LocalIdView::UUID(uuids[entries.len() - 1]), entries.last())
    }
}

proof fn lemma_with_uuid_entries_dom(
    table: Map<LocalIdView, NonFungibleData>,
    entries: Seq<NonFungibleData>,
    uuids: Seq<u128>,
)
    requires
        uuids.len() == entries.len(),
    ensures
        with_uuid_entries(table, entries, uuids).dom() == table.dom().union(uuid_ids(uuids)),
    decreases entries.len(),
{
    if entries.len() > 0 {
        let u = uuids.take(entries.len() - 1);
        lemma_with_uuid_entries_dom(table, entries.drop_last(), u);
        assert forall|k: LocalIdView| uuid_ids(uuids).contains(k) <==>
            (uuid_ids(u).contains(k) || k == LocalIdView::UUID(uuids[entries.len() - 1])) by {
            if uuid_ids(uuids).contains(k) {
                let j = choose|j: int| 0 <= j < uuids.len() && k == LocalIdView::UUID(#[trigger] uuids[j]);
                if j < entries.len() - 1 {
                    assert(u[j] == uuids[j]);
                }
            }
            if uuid_ids(u).contains(k) {
                let j = choose|j: int| 0 <= j < u.len() && k == LocalIdView::UUID(#[trigger] u[j]);
                assert(u[j] == uuids[j]);
            }
        }
        assert(with_uuid_entries(table, entries, uuids).dom() =~= table.dom().union(uuid_ids(uuids)));
    } else {
        assert(uuid_ids(uuids) =~= Set::<LocalIdView>::empty());
        assert(table.dom().union(uuid_ids(uuids)) =~= table.dom());
    }
}

proof fn lemma_with_uuid_entries_len(
    table: Map<LocalIdView, NonFungibleData>,
    entries: Seq<NonFungibleData>,
    uuids: Seq<u128>,
)
    requires
        uuids.len() == entries.len(),
        table.dom().finite(),
    ensures
        with_uuid_entries(table, entries, uuids).dom().finite(),
        with_uuid_entries(table, entries, uuids).dom().len() <= table.dom().len() + entries.len(),
    decreases entries.len(),
{
    if entries.len() > 0 {
        lemma_with_uuid_entries_len(table, entries.drop_last(), uuids.take(entries.len() - 1));
    }
}

/// Stores each entry, in order, under the id made of the matching uuid, and gives back the
/// set of those ids.
fn insert_uuid_entries(
    table: &mut AssocMap<NonFungibleLocalId, NonFungibleData>,
    entries: Vec<NonFungibleData>,
    uuids: &Vec<u128>,
) -> (r: NonFungibleIdSet)
    requires
        old(table).wf(),
        uuids@.len() == entries@.len(),
    ensures
        final(table).wf(),
        final(table)@ == with_uuid_entries(old(table)@, entries@, uuids@),
        r.wf(),
        r@.dom() == uuid_ids(uuids@),
{
    let ghost es = entries@;
    let ghost old_table = table@;
    let mut ids: NonFungibleIdSet = AssocMap::new();
    let mut remaining = entries;
    let n = uuids.len();
    let mut k: usize = 0;
    while k < n
        invariant
            n == uuids@.len(),
            n == es.len(),
            k <= n,
            remaining@ == es.skip(k as int),
            table.wf(),
            table@ == with_uuid_entries(old_table, es.take(k as int), uuids@.take(k as int)),
            ids.wf(),
            ids@.dom() == uuid_ids(uuids@.take(k as int)),
        decreases n - k,
    {
        assert(remaining@[0] == es[k as int]);
        let data = remaining.remove(0);
        let uuid = uuids[k];
        ids.insert(NonFungibleLocalId::UUID(uuid), ());
        table.insert(NonFungibleLocalId::UUID(uuid), data);
        proof {
            let es1 = es.take(k + 1);
            let us1 = uuids@.take(k + 1);
            assert(es1.drop_last() =~= es.take(k as int));
            assert(us1.take(k as int) =~= uuids@.take(k as int));
            assert(es1.last() == es[k as int]);
            assert(us1[k as int] == uuid);
            assert forall|x: LocalIdView| uuid_ids(us1).contains(x) <==>
                (uuid_ids(uuids@.take(k as int)).contains(x) || x == LocalIdView::UUID(uuid)) by {
                if uuid_ids(us1).contains(x) {
                    let j = choose|j: int| 0 <= j < us1.len() && x == LocalIdView::UUID(#[trigger] us1[j]);
                    if j < k {
                        assert(uuids@.take(k as int)[j] == us1[j]);
                    }
                }
                if uuid_ids(uuids@.take(k as int)).contains(x) {
                    let j = choose|j: int| 0 <= j < k && x == LocalIdView::UUID(#[trigger] uuids@.take(k as int)[j]);
                    assert(us1[j] == uuids@.take(k as int)[j]);
                }
                if x == LocalIdView::UUID(uuid) {
                    assert(x == LocalIdView::UUID(us1[k as int]));
                }
            }
            assert(ids@.dom() =~= uuid_ids(us1));
        }
        k = k + 1;
        assert(remaining@ =~= es.skip(k as int));
    }
    assert(es.take(n as int) =~= es);
    assert(uuids@.take(n as int) =~= uuids@);
    ids
}

/// Minting keeps the supply equal to the number of non-fungibles: an accepted mint adds only
/// ids that did not exist, as many units as it adds non-fungibles.
pub proof fn lemma_mint_keeps_supply_matching(
    m: NonFungibleResourceManagerModel,
    entries: Seq<(NonFungibleLocalId, NonFungibleData)>,
)
    requires
        m.table.dom().finite(),
        m.total_supply == m.table.dom().len() * ATTOS_PER_UNIT,
        keys_distinct(entries),
        first_entry_error(m.resource_address, m.id_type, m.table, true, entries) is None,
    ensures
        m.total_supply + seq_to_map(entries).dom().len() * ATTOS_PER_UNIT
            == m.table.union_prefer_right(seq_to_map(entries)).dom().len() * ATTOS_PER_UNIT,
{
    lemma_first_entry_error_none(m.resource_address, m.id_type, m.table, true, entries);
    let em = seq_to_map(entries);
    crate::assoc_map::lemma_seq_to_map_finite(entries);
    lemma_seq_to_map_len(entries);
    assert(m.table.dom().disjoint(em.dom())) by {
        assert forall|k: LocalIdView| !(m.table.dom().contains(k) && em.dom().contains(k)) by {
            lemma_seq_to_map_dom(entries, k);
            if em.dom().contains(k) {
                let j = choose|j: int| 0 <= j < entries.len() && #[trigger] entries[j].0@ == k;
                assert(entry_error(m.resource_address, m.id_type, m.table, true, entries[j]) is None);
            }
        }
    }
    assert(m.table.union_prefer_right(em).dom() =~= m.table.dom() + em.dom());
    vstd::set_lib::lemma_set_disjoint_lens(m.table.dom(), em.dom());
    assert((m.table.dom().len() + em.dom().len()) * ATTOS_PER_UNIT
        == m.table.dom().len() * ATTOS_PER_UNIT + em.dom().len() * ATTOS_PER_UNIT) by (nonlinear_arith);
}

/// Burning keeps the supply equal to the number of non-fungibles, when the burned ids are
/// non-fungibles that exist.
pub proof fn lemma_burn_keeps_supply_matching(m: NonFungibleResourceManagerModel, burned: Set<LocalIdView>)
    requires
        m.table.dom().finite(),
        burned.finite(),
        burned.subset_of(m.table.dom()),
        m.total_supply == m.table.dom().len() * ATTOS_PER_UNIT,
    ensures
        m.total_supply - burned.len() * ATTOS_PER_UNIT == m.table.remove_keys(burned).dom().len() * ATTOS_PER_UNIT,
{
    assert(m.table.remove_keys(burned).dom() =~= m.table.dom().difference(burned));
    vstd::set_lib::lemma_len_subset(burned, m.table.dom());
    assert(m.table.dom().difference(burned).len() == m.table.dom().len() - burned.len()) by {
        vstd::set_lib::lemma_set_intersect_union_lens(m.table.dom(), burned);
        assert(m.table.dom().intersect(burned) =~= burned);
        assert(m.table.dom().union(burned) =~= m.table.dom());
        vstd::set_lib::lemma_set_difference_len(m.table.dom(), burned);
    }
    assert((m.table.dom().len() - burned.len()) * ATTOS_PER_UNIT
        == m.table.dom().len() * ATTOS_PER_UNIT - burned.len() * ATTOS_PER_UNIT) by (nonlinear_arith);
}

/// Minting a single UUID non-fungible under a fresh id keeps the supply equal to the number
/// of non-fungibles.
pub proof fn lemma_fresh_uuid_mint_keeps_supply_matching(
    m: NonFungibleResourceManagerModel,
    uuid: u128,
    value: NonFungibleData,
)
    requires
        m.table.dom().finite(),
        m.total_supply == m.table.dom().len() * ATTOS_PER_UNIT,
        !m.table.dom().contains(LocalIdView::UUID(uuid)),
    ensures
        m.total_supply + ATTOS_PER_UNIT == m.table.insert(LocalIdView::UUID(uuid), value).dom().len() * ATTOS_PER_UNIT,
{
    assert(m.table.insert(LocalIdView::UUID(uuid), value).dom() == m.table.dom().insert(LocalIdView::UUID(uuid)));
    assert((m.table.dom().len() + 1) * ATTOS_PER_UNIT == m.table.dom().len() * ATTOS_PER_UNIT + ATTOS_PER_UNIT) by (nonlinear_arith);
}

/// Every minted non-fungible exists afterwards with the data it was minted with, and every
/// non-fungible that existed before still exists, with its data unless it was re-minted.
pub proof fn lemma_minted_non_fungibles_exist(
    table: Map<LocalIdView, NonFungibleData>,
    entries: Map<LocalIdView, NonFungibleData>,
)
    ensures
        forall|k: LocalIdView| entries.dom().contains(k) ==>
            #[trigger] table.union_prefer_right(entries).dom().contains(k) && table.union_prefer_right(entries)[k] == entries[k],
        forall|k: LocalIdView| table.dom().contains(k) && !entries.dom().contains(k) ==>
            #[trigger] table.union_prefer_right(entries).dom().contains(k) && table.union_prefer_right(entries)[k] == table[k],
{
}


/// Writing entries is refused exactly when one of them has an id of another kind than the
/// resource's, or, when existence is checked, an id already in the table; and the refusal is
/// then about such an entry: one of another kind, or one already there.
pub proof fn lemma_refused_exactly_when_some_entry_is_wrong(
    resource_address: ResourceAddress,
    id_type: NonFungibleIdType,
    table: Map<LocalIdView, NonFungibleData>,
    check_non_existence: bool,
    entries: Seq<(NonFungibleLocalId, NonFungibleData)>,
)
    ensures
        first_entry_error(resource_address, id_type, table, check_non_existence, entries) is None <==>
            forall|i: int| 0 <= i < entries.len() ==> local_id_type((#[trigger] entries[i]).0@) == id_type
                && !(check_non_existence && table.dom().contains(entries[i].0@)),
        first_entry_error(resource_address, id_type, table, check_non_existence, entries) matches Some(e) ==>
            exists|i: int| 0 <= i < entries.len() && (
                e == ManagerErrorView::NonFungibleIdTypeDoesNotMatch(local_id_type((#[trigger] entries[i]).0@), id_type)
                    && local_id_type(entries[i].0@) != id_type
                || e == ManagerErrorView::NonFungibleAlreadyExists(resource_address, entries[i].0@)
                    && check_non_existence && table.dom().contains(entries[i].0@)),
    decreases entries.len(),
{
    if entries.len() > 0 {
        let rest = entries.drop_first();
        lemma_refused_exactly_when_some_entry_is_wrong(resource_address, id_type, table, check_non_existence, rest);
        assert forall|i: int| 0 <= i < rest.len() implies #[trigger] rest[i] == entries[i + 1] by {}
        if first_entry_error(resource_address, id_type, table, check_non_existence, entries) is None {
            assert forall|i: int| 0 <= i < entries.len() implies local_id_type((#[trigger] entries[i]).0@) == id_type
                && !(check_non_existence && table.dom().contains(entries[i].0@)) by {
                if i > 0 { assert(rest[i - 1] == entries[i]); }
            }
        }
        if let Some(e) = first_entry_error(resource_address, id_type, table, check_non_existence, entries) {
            if entry_error(resource_address, id_type, table, check_non_existence, entries[0]) is Some {
                assert(entries[0] == entries[0]);
            } else {
                let i = choose|i: int| 0 <= i < rest.len() && (
                    e == ManagerErrorView::NonFungibleIdTypeDoesNotMatch(local_id_type((#[trigger] rest[i]).0@), id_type)
                        && local_id_type(rest[i].0@) != id_type
                    || e == ManagerErrorView::NonFungibleAlreadyExists(resource_address, rest[i].0@)
                        && check_non_existence && table.dom().contains(rest[i].0@));
                assert(entries[i + 1] == rest[i]);
            }
        }
    }
}
} // verus!
