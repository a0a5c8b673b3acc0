use vstd::prelude::*;

use crate::system::HardResourceOrNonFungible;
use crate::types::{Decimal, NonFungibleLocalId, ResourceAddress, copy_bytes};

verus! {

/// The resource methods whose access is governed by a rule.
#[derive(Debug, Clone, Copy, PartialEq, Eq)]
pub enum ResourceMethodAuthKey {
    Mint,
    Burn,
    Withdraw,
    Deposit,
    Recall,
    UpdateMetadata,
    UpdateNonFungibleData,
}

/// Who may call a method.
#[derive(Debug, Clone, PartialEq, Eq)]
pub enum AccessRule {
    AllowAll,
    DenyAll,
    Require(HardResourceOrNonFungible),
}

/// The data of a non-fungible to mint, encoded: its immutable part and its mutable part.
#[derive(Debug, Clone, PartialEq, Eq)]
pub struct EncodedNonFungibleData {
    pub immutable_data: Vec<u8>,
    pub mutable_data: Vec<u8>,
}

/// What to mint.
#[derive(Debug, Clone, PartialEq, Eq)]
pub enum MintParams {
    Fungible { amount: Decimal },
    NonFungible { entries: Vec<(NonFungibleLocalId, EncodedNonFungibleData)> },
}

/// A call on a resource manager, as the environment is asked to perform it.
#[derive(Debug, Clone, PartialEq, Eq)]
pub enum ResourceManagerInvocation {
    UpdateAuth { receiver: ResourceAddress, method: ResourceMethodAuthKey, access_rule: AccessRule },
    LockAuth { receiver: ResourceAddress, method: ResourceMethodAuthKey },
    Mint { receiver: ResourceAddress, mint_params: MintParams },
    UpdateNonFungibleData { receiver: ResourceAddress, id: NonFungibleLocalId, data: Vec<u8> },
    GetNonFungible { receiver: ResourceAddress, id: NonFungibleLocalId },
}

/// A handle on the resource manager of a resource.
#[derive(Debug, Clone, Copy, PartialEq, Eq)]
pub struct ResourceManager(pub ResourceAddress);

/// Whether `i` is the rule update of `method` on `receiver` to `rule`.
pub open spec fn is_update_auth(
    i: ResourceManagerInvocation,
    receiver: ResourceAddress,
    method: ResourceMethodAuthKey,
    rule: AccessRule,
) -> bool {
    i == ResourceManagerInvocation::UpdateAuth { receiver, method, access_rule: rule }
}

/// Whether `i` locks the rule of `method` on `receiver`.
pub open spec fn is_lock_auth(i: ResourceManagerInvocation, receiver: ResourceAddress, method: ResourceMethodAuthKey) -> bool {
    i == ResourceManagerInvocation::LockAuth { receiver, method }
}

impl ResourceManager {
    fn update_auth(&self, method: ResourceMethodAuthKey, access_rule: AccessRule) -> (r: ResourceManagerInvocation)
        ensures
            is_update_auth(r, self.0, method, access_rule),
    {
        ResourceManagerInvocation::UpdateAuth { receiver: self.0, method, access_rule }
    }

    fn lock_auth(&self, method: ResourceMethodAuthKey) -> (r: ResourceManagerInvocation)
        ensures
            is_lock_auth(r, self.0, method),
    {
        ResourceManagerInvocation::LockAuth { receiver: self.0, method }
    }

    /// Sets who may mint.
    pub fn set_mintable(&mut self, access_rule: AccessRule) -> (r: ResourceManagerInvocation)
        ensures
            *final(self) == *old(self),
            is_update_auth(r, old(self).0, ResourceMethodAuthKey::Mint, access_rule),
    {
        self.update_auth(ResourceMethodAuthKey::Mint, access_rule)
    }

    /// Sets who may burn.
    pub fn set_burnable(&mut self, access_rule: AccessRule) -> (r: ResourceManagerInvocation)
        ensures
            *final(self) == *old(self),
            is_update_auth(r, old(self).0, ResourceMethodAuthKey::Burn, access_rule),
    {
        self.update_auth(ResourceMethodAuthKey::Burn, access_rule)
    }

    /// Sets who may withdraw.
    pub fn set_withdrawable(&mut self, access_rule: AccessRule) -> (r: ResourceManagerInvocation)
        ensures
            *final(self) == *old(self),
            is_update_auth(r, old(self).0, ResourceMethodAuthKey::Withdraw, access_rule),
    {
        self.update_auth(ResourceMethodAuthKey::Withdraw, access_rule)
    }

    /// Sets who may deposit.
    pub fn set_depositable(&mut self, access_rule: AccessRule) -> (r: ResourceManagerInvocation)
        ensures
            *final(self) == *old(self),
            is_update_auth(r, old(self).0, ResourceMethodAuthKey::Deposit, access_rule),
    {
        self.update_auth(ResourceMethodAuthKey::Deposit, access_rule)
    }

    /// Sets who may recall.
    pub fn set_recallable(&mut self, access_rule: AccessRule) -> (r: ResourceManagerInvocation)
        ensures
            *final(self) == *old(self),
            is_update_auth(r, old(self).0, ResourceMethodAuthKey::Recall, access_rule),
    {
        self.update_auth(ResourceMethodAuthKey::Recall, access_rule)
    }

    /// Sets who may update the metadata.
    pub fn set_updateable_metadata(&self, access_rule: AccessRule) -> (r: ResourceManagerInvocation)
        ensures
            is_update_auth(r, self.0, ResourceMethodAuthKey::UpdateMetadata, access_rule),
    {
        self.update_auth(ResourceMethodAuthKey::UpdateMetadata, access_rule)
    }

    /// Sets who may update the data of non-fungibles.
    pub fn set_updateable_non_fungible_data(&self, access_rule: AccessRule) -> (r: ResourceManagerInvocation)
        ensures
            is_update_auth(r, self.0, ResourceMethodAuthKey::UpdateNonFungibleData, access_rule),
    {
        self.update_auth(ResourceMethodAuthKey::UpdateNonFungibleData, access_rule)
    }

    /// Locks the rule on minting.
    pub fn lock_mintable(&mut self) -> (r: ResourceManagerInvocation)
        ensures
            *final(self) == *old(self),
            is_lock_auth(r, old(self).0, ResourceMethodAuthKey::Mint),
    {
        self.lock_auth(ResourceMethodAuthKey::Mint)
    }

    /// Locks the rule on burning.
    pub fn lock_burnable(&mut self) -> (r: ResourceManagerInvocation)
        ensures
            *final(self) == *old(self),
            is_lock_auth(r, old(self).0, ResourceMethodAuthKey::Burn),
    {
        self.lock_auth(ResourceMethodAuthKey::Burn)
    }

    /// Locks the rule on withdrawing.
    pub fn lock_withdrawable(&mut self) -> (r: ResourceManagerInvocation)
        ensures
            *final(self) == *old(self),
            is_lock_auth(r, old(self).0, ResourceMethodAuthKey::Withdraw),
    {
        self.lock_auth(ResourceMethodAuthKey::Withdraw)
    }

    /// Locks the rule on depositing.
    pub fn lock_depositable(&mut self) -> (r: ResourceManagerInvocation)
        ensures
            *final(self) == *old(self),
            is_lock_auth(r, old(self).0, ResourceMethodAuthKey::Deposit),
    {
        self.lock_auth(ResourceMethodAuthKey::Deposit)
    }

    /// Locks the rule on recalling.
    pub fn lock_recallable(&mut self) -> (r: ResourceManagerInvocation)
        ensures
            *final(self) == *old(self),
            is_lock_auth(r, old(self).0, ResourceMethodAuthKey::Recall),
    {
        self.lock_auth(ResourceMethodAuthKey::Recall)
    }

    /// Locks the rule on updating the metadata.
    pub fn lock_updateable_metadata(&mut self) -> (r: ResourceManagerInvocation)
        ensures
            *final(self) == *old(self),
            is_lock_auth(r, old(self).0, ResourceMethodAuthKey::UpdateMetadata),
    {
        self.lock_auth(ResourceMethodAuthKey::UpdateMetadata)
    }

    /// Locks the rule on updating the data of non-fungibles.
    pub fn lock_updateable_non_fungible_data(&mut self) -> (r: ResourceManagerInvocation)
        ensures
            *final(self) == *old(self),
            is_lock_auth(r, old(self).0, ResourceMethodAuthKey::UpdateNonFungibleData),
    {
        self.lock_auth(ResourceMethodAuthKey::UpdateNonFungibleData)
    }

    fn mint_internal(&mut self, mint_params: MintParams) -> (r: ResourceManagerInvocation)
        ensures
            *final(self) == *old(self),
            r == (ResourceManagerInvocation::Mint { receiver: old(self).0, mint_params }),
    {
        ResourceManagerInvocation::Mint { receiver: self.0, mint_params }
    }

    /// Mints `amount` of a fungible resource.
    pub fn mint(&mut self, amount: Decimal) -> (r: ResourceManagerInvocation)
        ensures
            *final(self) == *old(self),
            r == (ResourceManagerInvocation::Mint { receiver: old(self).0, mint_params: MintParams::Fungible { amount } }),
    {
        self.mint_internal(MintParams::Fungible { amount })
    }

    /// Mints the non-fungible `id` with the given data.
    pub fn mint_non_fungible(&mut self, id: &NonFungibleLocalId, data: EncodedNonFungibleData) -> (r: ResourceManagerInvocation)
        ensures
            *final(self) == *old(self),
            r matches ResourceManagerInvocation::Mint { receiver, mint_params: MintParams::NonFungible { entries } }
                && receiver == old(self).0
                && entries@.len() == 1
                && entries@[0].0@ == id@
                && entries@[0].1 == data,
    {
        let mut entries: Vec<(NonFungibleLocalId, EncodedNonFungibleData)> = Vec::new();
        entries.push((id.duplicate(), data));
        self.mint_internal(MintParams::NonFungible { entries })
    }

    /// Asks for the data of the non-fungible `id`, both its immutable and its mutable part.
    pub fn get_non_fungible_data(&self, id: &NonFungibleLocalId) -> (r: ResourceManagerInvocation)
        ensures
            r matches ResourceManagerInvocation::GetNonFungible { receiver, id: asked } && receiver == self.0
                && asked@ == id@,
    {
        self.get_non_fungible_data_internal(id.duplicate())
    }

    /// Replaces the mutable part of the data of the non-fungible `id`.
    pub fn update_non_fungible_data(&mut self, id: &NonFungibleLocalId, new_mutable_data: &Vec<u8>) -> (r: ResourceManagerInvocation)
        ensures
            *final(self) == *old(self),
            r matches ResourceManagerInvocation::UpdateNonFungibleData { receiver, id: updated, data }
                && receiver == old(self).0 && updated@ == id@ && data@ == new_mutable_data@,
    {
        self.update_non_fungible_data_internal(id.duplicate(), copy_bytes(new_mutable_data))
    }

    fn update_non_fungible_data_internal(&mut self, id: NonFungibleLocalId, data: Vec<u8>) -> (r: ResourceManagerInvocation)
        ensures
            *final(self) == *old(self),
            r == (ResourceManagerInvocation::UpdateNonFungibleData { receiver: old(self).0, id, data }),
    {
        ResourceManagerInvocation::UpdateNonFungibleData { receiver: self.0, id, data }
    }

    fn get_non_fungible_data_internal(&self, id: NonFungibleLocalId) -> (r: ResourceManagerInvocation)
        ensures
            r == (ResourceManagerInvocation::GetNonFungible { receiver: self.0, id }),
    {
        ResourceManagerInvocation::GetNonFungible { receiver: self.0, id }
    }
}

} // verus!
