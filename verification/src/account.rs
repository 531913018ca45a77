//! The accounts that a call hands to the registry, as the plain values that the
//! operations read: who the account is, who owns it, whether it signed, and the
//! bytes it stores.

use vstd::prelude::*;
use vstd::slice::slice_subrange;

verus! {

/// An account of the call.
#[derive(Debug, Clone, PartialEq, Eq)]
pub struct Account {
    pub key: [u8; 32],
    /// The program that owns the account.
    pub owner: [u8; 32],
    /// Whether the account signed the call.
    pub is_signer: bool,
    /// The account's storage.
    pub data: Vec<u8>,
}

/// An account as contracts speak of it: the storage as a sequence of bytes.
pub struct AccountView {
    pub key: [u8; 32],
    pub owner: [u8; 32],
    pub is_signer: bool,
    pub data: Seq<u8>,
}

impl View for Account {
    type V = AccountView;

    open spec fn view(&self) -> AccountView {
        AccountView { key: self.key, owner: self.owner, is_signer: self.is_signer, data: self.data@ }
    }
}

/// The accounts of a list, each as contracts speak of it.
pub open spec fn views(accounts: Seq<Account>) -> Seq<AccountView> {
    Seq::new(accounts.len(), |i: int| accounts[i]@)
}

/// The storage `slot` after `bytes` were written over its start. What lies behind
/// them stays.
pub open spec fn overwritten(slot: Seq<u8>, bytes: Seq<u8>) -> Seq<u8>
    recommends
        bytes.len() <= slot.len(),
{
    bytes + slot.subrange(bytes.len() as int, slot.len() as int)
}

impl AccountView {
    /// Whether the storage has room for `bytes`.
    pub open spec fn takes(self, bytes: Seq<u8>) -> bool {
        bytes.len() <= self.data.len()
    }

    /// The account after `bytes` were written over the start of its storage.
    pub open spec fn holding(self, bytes: Seq<u8>) -> AccountView {
        AccountView { data: overwritten(self.data, bytes), ..self }
    }
}

/// The list in which the account at `index` holds `bytes` at the start of its
/// storage and all else is as before.
pub open spec fn stored(accounts: Seq<AccountView>, index: int, bytes: Seq<u8>) -> Seq<AccountView>
    recommends
        0 <= index < accounts.len(),
        accounts[index].takes(bytes),
{
    accounts.update(index, accounts[index].holding(bytes))
}

/// Writes `bytes` over the start of the storage of the account at `index`.
pub(crate) fn store(accounts: &mut Vec<Account>, index: usize, bytes: &Vec<u8>)
    requires
        index < old(accounts).len(),
        views(old(accounts)@)[index as int].takes(bytes@),
    ensures
        final(accounts).len() == old(accounts).len(),
        views(final(accounts)@) == stored(views(old(accounts)@), index as int, bytes@),
{
    let mut data: Vec<u8> = Vec::new();
    data.extend_from_slice(bytes.as_slice());
    let slot = accounts[index].data.as_slice();
    data.extend_from_slice(slice_subrange(slot, bytes.len(), slot.len()));
    assert(data@ =~= overwritten(old(accounts)@[index as int].data@, bytes@));
    accounts[index].data = data;
    assert(views(accounts@) =~= stored(views(old(accounts)@), index as int, bytes@));
}

} // verus!
