use vstd::prelude::*;

use crate::assoc_map::{bytes_eq, KeyEq};

verus! {

/// The address of a global component: the bytes of its node id.
#[derive(Debug, Clone, Copy, PartialEq, Eq)]
pub struct ComponentAddress(pub [u8; 30]);

/// The address of a global resource manager: the bytes of its node id.
#[derive(Debug, Clone, Copy, PartialEq, Eq)]
pub struct ResourceAddress(pub [u8; 30]);

/// The id of a node in the substate store.
#[derive(Debug, Clone, Copy, PartialEq, Eq)]
pub struct NodeId(pub [u8; 30]);

/// A compressed ECDSA secp256k1 public key.
#[derive(Debug, Clone, Copy, PartialEq, Eq)]
pub struct EcdsaSecp256k1PublicKey(pub [u8; 33]);

/// The 32-byte hash of a transaction.
#[derive(Debug, Clone, Copy, PartialEq, Eq)]
pub struct TransactionHash(pub [u8; 32]);

impl View for ComponentAddress {
    type V = Seq<u8>;

    open spec fn view(&self) -> Seq<u8> {
        self.0@
    }
}

impl KeyEq for ComponentAddress {
    fn key_eq(&self, other: &Self) -> (r: bool) {
        bytes_eq(self.0.as_slice(), other.0.as_slice())
    }
}

impl View for ResourceAddress {
    type V = Seq<u8>;

    open spec fn view(&self) -> Seq<u8> {
        self.0@
    }
}

impl KeyEq for ResourceAddress {
    fn key_eq(&self, other: &Self) -> (r: bool) {
        bytes_eq(self.0.as_slice(), other.0.as_slice())
    }
}

/// The number of attos (indivisible units) in one unit of a decimal.
pub const ATTOS_PER_UNIT: i128 = 1_000_000_000_000_000_000;

/// A fixed-point decimal with 18 fractional digits, kept as a whole number of attos.
#[derive(Debug, Clone, Copy, PartialEq, Eq)]
pub struct Decimal {
    pub attos: i128,
}

impl Decimal {
    /// Zero.
    pub fn zero() -> (r: Decimal)
        ensures
            r.attos == 0,
    {
        Decimal { attos: 0 }
    }

    /// The decimal that holds `n` whole units.
    pub fn from_usize(n: usize) -> (r: Decimal)
        requires
            n * ATTOS_PER_UNIT <= i128::MAX,
        ensures
            r.attos == n * ATTOS_PER_UNIT,
    {
        let v: i128 = n as i128;
        assert(v * ATTOS_PER_UNIT <= i128::MAX);
        Decimal { attos: v * ATTOS_PER_UNIT }
    }

    /// Whether the decimal is zero.
    pub fn is_zero(&self) -> (r: bool)
        ensures
            r == (self.attos == 0),
    {
        self.attos == 0
    }

    /// The sum of two decimals.
    pub fn add(&self, other: &Decimal) -> (r: Decimal)
        requires
            i128::MIN <= self.attos + other.attos <= i128::MAX,
        ensures
            r.attos == self.attos + other.attos,
    {
        Decimal { attos: self.attos + other.attos }
    }

    /// The difference of two decimals.
    pub fn sub(&self, other: &Decimal) -> (r: Decimal)
        requires
            i128::MIN <= self.attos - other.attos <= i128::MAX,
        ensures
            r.attos == self.attos - other.attos,
    {
        Decimal { attos: self.attos - other.attos }
    }
}

} // verus!

verus! {

/// The kinds of local id that a non-fungible resource can use.
#[derive(Debug, Clone, Copy, PartialEq, Eq, Structural)]
pub enum NonFungibleIdType {
    String,
    Integer,
    Bytes,
    UUID,
}

/// The id of a non-fungible within its resource.
#[derive(Debug, Clone, PartialEq, Eq)]
pub enum NonFungibleLocalId {
    String(String),
    Integer(u64),
    Bytes(Vec<u8>),
    UUID(u128),
}

/// A local id as a mathematical value.
pub enum LocalIdView {
    String(Seq<char>),
    Integer(u64),
    Bytes(Seq<u8>),
    UUID(u128),
}

/// The kind of id that a local id's view is.
pub open spec fn local_id_type(id: LocalIdView) -> NonFungibleIdType {
    match id {
        LocalIdView::String(_) => NonFungibleIdType::String,
        LocalIdView::Integer(_) => NonFungibleIdType::Integer,
        LocalIdView::Bytes(_) => NonFungibleIdType::Bytes,
        LocalIdView::UUID(_) => NonFungibleIdType::UUID,
    }
}

impl View for NonFungibleLocalId {
    type V = LocalIdView;

    open spec fn view(&self) -> LocalIdView {
        match self {
            NonFungibleLocalId::String(s) => LocalIdView::String(s@),
            NonFungibleLocalId::Integer(n) => LocalIdView::Integer(*n),
            NonFungibleLocalId::Bytes(b) => LocalIdView::Bytes(b@),
            NonFungibleLocalId::UUID(u) => LocalIdView::UUID(*u),
        }
    }
}

impl KeyEq for NonFungibleLocalId {
    fn key_eq(&self, other: &Self) -> (r: bool) {
        match (self, other) {
            (NonFungibleLocalId::String(a), NonFungibleLocalId::String(b)) => {
                let r = a.eq(b);
                assert(r == (a@ == b@));
                r
            },
            (NonFungibleLocalId::Integer(a), NonFungibleLocalId::Integer(b)) => *a == *b,
            (NonFungibleLocalId::Bytes(a), NonFungibleLocalId::Bytes(b)) => {
                let r = bytes_eq(a.as_slice(), b.as_slice());
                assert(r == (a@ == b@));
                r
            },
            (NonFungibleLocalId::UUID(a), NonFungibleLocalId::UUID(b)) => *a == *b,
            _ => false,
        }
    }
}

/// A copy of a byte vector.
pub fn copy_bytes(v: &Vec<u8>) -> (r: Vec<u8>)
    ensures
        r@ == v@,
{
    let mut r: Vec<u8> = Vec::new();
    let n = v.len();
    let mut i: usize = 0;
    while i < n
        invariant
            n == v@.len(),
            i <= n,
            r@ == v@.take(i as int),
        decreases n - i,
    {
        r.push(v[i]);
        i = i + 1;
        assert(r@ =~= v@.take(i as int));
    }
    assert(r@ =~= v@);
    r
}

impl NonFungibleLocalId {
    /// The integer id `n`.
    pub fn integer(n: u64) -> (r: Self)
        ensures
            r@ == LocalIdView::Integer(n),
    {
        NonFungibleLocalId::Integer(n)
    }

    /// The kind of id this is.
    pub fn id_type(&self) -> (r: NonFungibleIdType)
        ensures
            r == local_id_type(self@),
    {
        match self {
            NonFungibleLocalId::String(_) => NonFungibleIdType::String,
            NonFungibleLocalId::Integer(_) => NonFungibleIdType::Integer,
            NonFungibleLocalId::Bytes(_) => NonFungibleIdType::Bytes,
            NonFungibleLocalId::UUID(_) => NonFungibleIdType::UUID,
        }
    }

    /// A copy of this id.
    pub fn duplicate(&self) -> (r: Self)
        ensures
            r@ == self@,
    {
        match self {
            NonFungibleLocalId::String(s) => NonFungibleLocalId::String(s.clone()),
            NonFungibleLocalId::Integer(n) => NonFungibleLocalId::Integer(*n),
            NonFungibleLocalId::Bytes(b) => NonFungibleLocalId::Bytes(copy_bytes(b)),
            NonFungibleLocalId::UUID(u) => NonFungibleLocalId::UUID(*u),
        }
    }
}

/// The global id of a non-fungible: its resource and its local id.
#[derive(Debug, Clone, PartialEq, Eq)]
pub struct NonFungibleGlobalId {
    pub resource_address: ResourceAddress,
    pub local_id: NonFungibleLocalId,
}

impl NonFungibleGlobalId {
    /// The global id of the non-fungible `local_id` of resource `resource_address`.
    pub fn new(resource_address: ResourceAddress, local_id: NonFungibleLocalId) -> (r: Self)
        ensures
            r.resource_address == resource_address,
            r.local_id == local_id,
    {
        NonFungibleGlobalId { resource_address, local_id }
    }
}

} // verus!
