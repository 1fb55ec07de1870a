//! What the program reads of an account that came with an instruction.

use vstd::prelude::*;
use crate::pubkey::Pubkey;

verus! {

/// An account as it is handed to the program with an instruction.
#[derive(Debug)]
pub struct Account {
    /// The account's identity.
    pub key: Pubkey,
    /// Whether the account signed the transaction.
    pub is_signer: bool,
    /// The program that owns the account, the only one that may write to it.
    pub owner: Pubkey,
    /// The account's storage.
    pub data: Vec<u8>,
}

/// An account as mathematical values.
pub struct AccountView {
    pub key: Seq<u8>,
    pub is_signer: bool,
    pub owner: Seq<u8>,
    pub data: Seq<u8>,
}

impl AccountView {
    /// This account with `data` as its storage.
    pub open spec fn with_data(self, data: Seq<u8>) -> AccountView {
        AccountView { data, ..self }
    }
}

impl View for Account {
    type V = AccountView;

    open spec fn view(&self) -> AccountView {
        AccountView {
            key: self.key@,
            is_signer: self.is_signer,
            owner: self.owner@,
            data: self.data@,
        }
    }
}

impl Clone for Account {
    fn clone(&self) -> (copy: Account)
        ensures
            copy@ == self@,
    {
        let data: Vec<u8> = self.data.clone();
        assert(data@ =~= self.data@);
        Account { key: self.key, is_signer: self.is_signer, owner: self.owner, data }
    }
}

impl Account {
    /// An account of these values.
    pub fn new(key: Pubkey, is_signer: bool, owner: Pubkey, data: Vec<u8>) -> (account: Account)
        ensures
            account@ == (AccountView { key: key@, is_signer, owner: owner@, data: data@ }),
    {
        Account { key, is_signer, owner, data }
    }
}

/// The accounts of an instruction as mathematical values, in their order.
pub open spec fn account_views(accounts: Seq<Account>) -> Seq<AccountView> {
    Seq::new(accounts.len(), |i: int| accounts[i]@)
}

} // verus!
