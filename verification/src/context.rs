//! What the host tells the ledger of a call, and what the ledger asks of the
//! host in return.
use crate::account::AccountId;
use vstd::prelude::*;

verus! {

/// What the host knows of the call that is being served.
pub struct CallContext {
    /// The account that made the call.
    pub predecessor_account_id: AccountId,
    /// The account that signed the transaction of which the call is a part.
    pub signer_account_id: AccountId,
    /// The account of the ledger itself.
    pub current_account_id: AccountId,
    /// What was paid along with the call.
    pub attached_deposit: u128,
    /// What the host charges for keeping one byte.
    pub storage_byte_cost: u128,
}

/// The mathematical value of a [`CallContext`].
pub struct CallContextView {
    pub predecessor_account_id: Seq<char>,
    pub signer_account_id: Seq<char>,
    pub current_account_id: Seq<char>,
    pub attached_deposit: u128,
    pub storage_byte_cost: u128,
}

impl View for CallContext {
    type V = CallContextView;

    open spec fn view(&self) -> CallContextView {
        CallContextView {
            predecessor_account_id: self.predecessor_account_id@,
            signer_account_id: self.signer_account_id@,
            current_account_id: self.current_account_id@,
            attached_deposit: self.attached_deposit,
            storage_byte_cost: self.storage_byte_cost,
        }
    }
}

/// An amount that the host is to send to an account.
pub struct Payment {
    pub receiver_id: AccountId,
    pub amount: u128,
}

} // verus!
