use vstd::prelude::*;

use crate::assoc_map::AssocMap;
use crate::types::copy_bytes;

verus! {

/// An in-memory ledger: every substate, and every child substate, kept in host memory under
/// the encoded address it belongs to; plus the current epoch and a nonce.
pub struct InMemorySubstateStore {
    substates: AssocMap<Vec<u8>, Vec<u8>>,
    child_substates: AssocMap<Vec<u8>, Vec<u8>>,
    current_epoch: u64,
    nonce: u64,
}

/// The store as mathematical values: the substates by encoded address, the child substates
/// by encoded address followed by the child's key, the epoch and the nonce.
pub struct InMemorySubstateStoreModel {
    pub substates: Map<Seq<u8>, Seq<u8>>,
    pub child_substates: Map<Seq<u8>, Seq<u8>>,
    pub current_epoch: u64,
    pub nonce: u64,
}

/// The byte contents of each stored value.
pub open spec fn contents(m: Map<Seq<u8>, Vec<u8>>) -> Map<Seq<u8>, Seq<u8>> {
    m.map_values(|v: Vec<u8>| v@)
}

impl View for InMemorySubstateStore {
    type V = InMemorySubstateStoreModel;

    closed spec fn view(&self) -> InMemorySubstateStoreModel {
        InMemorySubstateStoreModel {
            substates: contents(self.substates@),
            child_substates: contents(self.child_substates@),
            current_epoch: self.current_epoch,
            nonce: self.nonce,
        }
    }
}

/// The key under which a child substate is kept: the encoded address, then the child's key.
pub open spec fn child_id(address: Seq<u8>, key: Seq<u8>) -> Seq<u8> {
    address + key
}

fn concat_bytes(a: &[u8], b: &[u8]) -> (r: Vec<u8>)
    ensures
        r@ == a@ + b@,
{
    let mut r: Vec<u8> = Vec::new();
    let mut i: usize = 0;
    while i < a.len()
        invariant
            i <= a@.len(),
            r@ == a@.take(i as int),
        decreases a@.len() - i,
    {
        r.push(a[i]);
        i = i + 1;
        assert(r@ =~= a@.take(i as int));
    }
    let mut j: usize = 0;
    while j < b.len()
        invariant
            j <= b@.len(),
            i == a@.len(),
            r@ == a@ + b@.take(j as int),
        decreases b@.len() - j,
    {
        r.push(b[j]);
        j = j + 1;
        assert(r@ =~= a@ + b@.take(j as int));
    }
    assert(a@.take(a@.len() as int) =~= a@);
    assert(b@.take(b@.len() as int) =~= b@);
    r
}

fn slice_to_bytes(a: &[u8]) -> (r: Vec<u8>)
    ensures
        r@ == a@,
{
    let r = concat_bytes(a, &[]);
    assert(a@ + Seq::<u8>::empty() =~= a@);
    r
}

fn lookup(map: &AssocMap<Vec<u8>, Vec<u8>>, key: &Vec<u8>) -> (r: Option<Vec<u8>>)
    requires
        map.wf(),
    ensures
        match r {
            Some(v) => contents(map@).dom().contains(key@) && v@ == contents(map@)[key@],
            None => !contents(map@).dom().contains(key@),
        },
{
    match map.get(key) {
        Some(v) => Some(copy_bytes(v)),
        None => None,
    }
}

/// `m` after storing each of `entries`, in order, each substate under its encoded address.
pub open spec fn stored_all(m: Map<Seq<u8>, Seq<u8>>, entries: Seq<(Vec<u8>, Vec<u8>)>) -> Map<Seq<u8>, Seq<u8>>
    decreases entries.len(),
{
    if entries.len() == 0 {
        m
    } else {
        stored_all(m, entries.drop_last()).insert(entries.last().0@, entries.last().1@)
    }
}

impl InMemorySubstateStore {
    /// The store's maps are well formed.
    pub closed spec fn wf(&self) -> bool {
        self.substates.wf() && self.child_substates.wf()
    }

    /// An empty store at epoch zero, with nonce zero.
    pub fn new() -> (r: Self)
        ensures
            r.wf(),
            r@.substates == Map::<Seq<u8>, Seq<u8>>::empty(),
            r@.child_substates == Map::<Seq<u8>, Seq<u8>>::empty(),
            r@.current_epoch == 0,
            r@.nonce == 0,
    {
        let r = InMemorySubstateStore {
            substates: AssocMap::new(),
            child_substates: AssocMap::new(),
            current_epoch: 0,
            nonce: 0,
        };
        proof {
            assert(contents(r.substates@) =~= Map::<Seq<u8>, Seq<u8>>::empty());
            assert(contents(r.child_substates@) =~= Map::<Seq<u8>, Seq<u8>>::empty());
        }
        r
    }

    /// A store that holds the genesis substates: a new store in which each of `genesis`, in
    /// order, has been stored under its encoded address.
    pub fn with_bootstrap(genesis: &Vec<(Vec<u8>, Vec<u8>)>) -> (r: Self)
        ensures
            r.wf(),
            r@.substates == stored_all(Map::empty(), genesis@),
            r@.child_substates == Map::<Seq<u8>, Seq<u8>>::empty(),
            r@.current_epoch == 0,
            r@.nonce == 0,
    {
        let mut ledger = Self::new();
        let n = genesis.len();
        let mut i: usize = 0;
        assert(genesis@.take(0) =~= Seq::<(Vec<u8>, Vec<u8>)>::empty());
        while i < n
            invariant
                n == genesis@.len(),
                i <= n,
                ledger.wf(),
                ledger@.substates == stored_all(Map::empty(), genesis@.take(i as int)),
                ledger@.child_substates == Map::<Seq<u8>, Seq<u8>>::empty(),
                ledger@.current_epoch == 0,
                ledger@.nonce == 0,
            decreases n - i,
        {
            proof {
                assert(genesis@.take(i + 1).drop_last() =~= genesis@.take(i as int));
                assert(genesis@.take(i + 1).last() == genesis@[i as int]);
            }
            let entry = &genesis[i];
            ledger.put_substate(entry.0.as_slice(), entry.1.as_slice());
            i = i + 1;
        }
        assert(genesis@.take(n as int) =~= genesis@);
        ledger
    }

    /// The substate stored under the encoded address, if any.
    pub fn get_substate(&self, address: &[u8]) -> (r: Option<Vec<u8>>)
        requires
            self.wf(),
        ensures
            match r {
                Some(v) => self@.substates.dom().contains(address@) && v@ == self@.substates[address@],
                None => !self@.substates.dom().contains(address@),
            },
    {
        let key = slice_to_bytes(address);
        lookup(&self.substates, &key)
    }

    /// Stores `substate` under the encoded address, replacing what was stored there.
    pub fn put_substate(&mut self, address: &[u8], substate: &[u8])
        requires
            old(self).wf(),
        ensures
            final(self).wf(),
            final(self)@ == (InMemorySubstateStoreModel {
                substates: old(self)@.substates.insert(address@, substate@),
                ..old(self)@
            }),
    {
        let key = slice_to_bytes(address);
        let value = slice_to_bytes(substate);
        let ghost old_map = self.substates@;
        self.substates.insert(key, value);
        proof {
            assert(contents(self.substates@) =~= contents(old_map).insert(address@, substate@));
        }
    }

    /// The child substate stored under the encoded address and the child's key, if any.
    pub fn get_child_substate(&self, address: &[u8], key: &[u8]) -> (r: Option<Vec<u8>>)
        requires
            self.wf(),
        ensures
            match r {
                Some(v) => self@.child_substates.dom().contains(child_id(address@, key@))
                    && v@ == self@.child_substates[child_id(address@, key@)],
                None => !self@.child_substates.dom().contains(child_id(address@, key@)),
            },
    {
        let id = concat_bytes(address, key);
        lookup(&self.child_substates, &id)
    }

    /// Stores `substate` as the child of the encoded address under `key`.
    pub fn put_child_substate(&mut self, address: &[u8], key: &[u8], substate: &[u8])
        requires
            old(self).wf(),
        ensures
            final(self).wf(),
            final(self)@ == (InMemorySubstateStoreModel {
                child_substates: old(self)@.child_substates.insert(child_id(address@, key@), substate@),
                ..old(self)@
            }),
    {
        let id = concat_bytes(address, key);
        let value = slice_to_bytes(substate);
        let ghost old_map = self.child_substates@;
        self.child_substates.insert(id, value);
        proof {
            assert(contents(self.child_substates@) =~= contents(old_map).insert(child_id(address@, key@), substate@));
        }
    }

    /// The current epoch.
    pub fn get_epoch(&self) -> (r: u64)
        ensures
            r == self@.current_epoch,
    {
        self.current_epoch
    }

    /// Sets the current epoch.
    pub fn set_epoch(&mut self, epoch: u64)
        ensures
            final(self).wf() == old(self).wf(),
            final(self)@ == (InMemorySubstateStoreModel { current_epoch: epoch, ..old(self)@ }),
    {
        self.current_epoch = epoch;
    }

    /// The nonce.
    pub fn get_nonce(&self) -> (r: u64)
        ensures
            r == self@.nonce,
    {
        self.nonce
    }

    /// Increases the nonce by one.
    pub fn increase_nonce(&mut self)
        requires
            old(self)@.nonce < u64::MAX,
        ensures
            final(self).wf() == old(self).wf(),
            final(self)@ == (InMemorySubstateStoreModel { nonce: (old(self)@.nonce + 1) as u64, ..old(self)@ }),
    {
        self.nonce = self.nonce + 1;
    }
}

impl Default for InMemorySubstateStore {
    fn default() -> (r: Self)
        ensures
            r.wf(),
            r@.substates == Map::<Seq<u8>, Seq<u8>>::empty(),
            r@.child_substates == Map::<Seq<u8>, Seq<u8>>::empty(),
            r@.current_epoch == 0,
            r@.nonce == 0,
    {
        Self::new()
    }
}

/// Reading a substate gives back what was last put under its address; putting one changes
/// no other address and no child substate.
pub proof fn lemma_put_then_get_substate(m: InMemorySubstateStoreModel, address: Seq<u8>, substate: Seq<u8>, other: Seq<u8>)
    ensures
        ({
            let after = m.substates.insert(address, substate);
            &&& after.dom().contains(address)
            &&& after[address] == substate
            &&& other != address ==> (after.dom().contains(other) == m.substates.dom().contains(other)
                && (m.substates.dom().contains(other) ==> after[other] == m.substates[other]))
        }),
{
}

/// Reading a child substate gives back what was last put under its address and key; putting
/// one leaves every child whose address followed by key differs as it was.
pub proof fn lemma_put_then_get_child_substate(
    m: InMemorySubstateStoreModel,
    address: Seq<u8>,
    key: Seq<u8>,
    substate: Seq<u8>,
    other_address: Seq<u8>,
    other_key: Seq<u8>,
)
    ensures
        ({
            let after = m.child_substates.insert(child_id(address, key), substate);
            &&& after.dom().contains(child_id(address, key))
            &&& after[child_id(address, key)] == substate
            &&& child_id(other_address, other_key) != child_id(address, key) ==> (
                after.dom().contains(child_id(other_address, other_key))
                    == m.child_substates.dom().contains(child_id(other_address, other_key))
                && (m.child_substates.dom().contains(child_id(other_address, other_key))
                    ==> after[child_id(other_address, other_key)] == m.child_substates[child_id(other_address, other_key)]))
        }),
{
}

/// Addresses of the same length never share child substates: under a fixed address length,
/// distinct address and key pairs are kept apart.
pub proof fn lemma_child_ids_distinct(a1: Seq<u8>, k1: Seq<u8>, a2: Seq<u8>, k2: Seq<u8>)
    requires
        a1.len() == a2.len(),
        a1 != a2 || k1 != k2,
    ensures
        child_id(a1, k1) != child_id(a2, k2),
{
    if child_id(a1, k1) == child_id(a2, k2) {
        assert(a1 =~= child_id(a1, k1).take(a1.len() as int));
        assert(a2 =~= child_id(a2, k2).take(a2.len() as int));
        assert(k1 =~= child_id(a1, k1).skip(a1.len() as int));
        assert(k2 =~= child_id(a2, k2).skip(a2.len() as int));
    }
}

} // verus!

verus! {

/// A substate put under an address is what a read gives back after any number of later puts,
/// as long as none of them is under the same address.
pub proof fn lemma_put_survives_later_puts(
    substates: Map<Seq<u8>, Seq<u8>>,
    address: Seq<u8>,
    substate: Seq<u8>,
    later: Seq<(Vec<u8>, Vec<u8>)>,
)
    requires
        forall|i: int| 0 <= i < later.len() ==> (#[trigger] later[i]).0@ != address,
    ensures
        stored_all(substates.insert(address, substate), later).contains_key(address),
        stored_all(substates.insert(address, substate), later)[address] == substate,
    decreases later.len(),
{
    if later.len() > 0 {
        assert forall|i: int| 0 <= i < later.drop_last().len() implies (#[trigger] later.drop_last()[i]).0@ != address by {
            assert(later.drop_last()[i] == later[i]);
        }
        lemma_put_survives_later_puts(substates, address, substate, later.drop_last());
        assert(later[later.len() - 1].0@ != address);
    }
}

} // verus!
