//! The listings of the marketplace.
use crate::account::AccountId;
use crate::collections::Duplicate;
use crate::context::{CallContext, CallContextView};
use crate::contract::{
    index_insert, index_remove, index_with, index_without, sale_key, Contract, ContractView,
    STORAGE_PER_SALE,
};
use crate::errors::LedgerError;
use crate::metadata::{Sale, SaleArgs, SaleView, TokenId};
use crate::theorems::Operation;
use vstd::prelude::*;
use vstd::string::StringExecFns;

verus! {

impl ContractView {
    /// What `account_id` must have deposited to make one more listing.
    pub open spec fn listing_required(self, account_id: Seq<char>) -> nat {
        (self.listing_count(account_id) + 1) * STORAGE_PER_SALE as nat
    }

    /// Why the notification of an approval makes no listing, if it makes
    /// none: it must come from another contract than the signer's own
    /// account, on behalf of the token's owner, who must have deposited
    /// enough for one more listing, and it must carry the terms of the sale.
    pub open spec fn listing_error(
        self,
        ctx: CallContextView,
        owner_id: Seq<char>,
        sale_args: Option<SaleArgs>,
    ) -> Option<LedgerError> {
        if ctx.predecessor_account_id == ctx.signer_account_id {
            Some(LedgerError::NotAGenuineNotification)
        } else if owner_id != ctx.signer_account_id {
            Some(LedgerError::NotAGenuineNotification)
        } else if self.balance_of(ctx.signer_account_id) < self.listing_required(
            ctx.signer_account_id,
        ) {
            Some(
                LedgerError::InsufficientCollateral {
                    required: if self.listing_required(ctx.signer_account_id) > u128::MAX {
                        u128::MAX
                    } else {
                        self.listing_required(ctx.signer_account_id) as u128
                    },
                    available: self.balance_of(ctx.signer_account_id),
                },
            )
        } else if sale_args is None {
            Some(LedgerError::MalformedPayload)
        } else {
            None
        }
    }

    /// The ledger after `sale` was listed: it stands under the key of its
    /// contract and token, in place of what stood there, and is in the set of
    /// its owner and in the set of its contract.
    pub open spec fn listed(self, sale: SaleView) -> ContractView {
        let key = sale_key(sale.nft_contract_id, sale.token_id);
        ContractView {
            sales: self.sales.insert(key, sale),
            sale_by_owner: index_with(self.sale_by_owner, sale.owner_id, key),
            by_nft_contract_id: index_with(
                self.by_nft_contract_id,
                sale.nft_contract_id,
                sale.token_id,
            ),
            ..self
        }
    }

    /// Why the caller cannot take the listing under `key` down, if it
    /// cannot: the call must come with exactly one unit of the base currency,
    /// from the account that made the listing.
    pub open spec fn remove_sale_error(self, ctx: CallContextView, key: Seq<char>) -> Option<
        LedgerError,
    > {
        if ctx.attached_deposit != 1 {
            Some(LedgerError::PaymentRequired)
        } else if !self.sales.contains_key(key) {
            Some(LedgerError::ListingNotFound)
        } else if self.sales[key].owner_id != ctx.predecessor_account_id {
            Some(LedgerError::NotOwner)
        } else {
            None
        }
    }

    /// The ledger after the listing under `key` was taken down.
    pub open spec fn unlisted(self, key: Seq<char>) -> ContractView {
        let sale = self.sales[key];
        ContractView {
            sales: self.sales.remove(key),
            sale_by_owner: index_without(self.sale_by_owner, sale.owner_id, key),
            by_nft_contract_id: index_without(
                self.by_nft_contract_id,
                sale.nft_contract_id,
                sale.token_id,
            ),
            ..self
        }
    }
}

/// A listing by an account that has deposited enough for it keeps the ledger
/// in order.
pub proof fn lemma_listed_wf(s: ContractView, sale: SaleView)
    requires
        s.wf(),
        s.listing_required(sale.owner_id) <= s.balance_of(sale.owner_id),
    ensures
        s.listed(sale).wf(),
{
    let after = s.listed(sale);
    let key = sale_key(sale.nft_contract_id, sale.token_id);
    assert(after.sale_by_owner[sale.owner_id].contains(key));
    assert(after.by_nft_contract_id[sale.nft_contract_id].contains(sale.token_id));
    assert forall|k: Seq<char>| #[trigger] after.sales.contains_key(k) implies {
        &&& k == sale_key(after.sales[k].nft_contract_id, after.sales[k].token_id)
        &&& after.sale_by_owner.contains_key(after.sales[k].owner_id)
        &&& after.sale_by_owner[after.sales[k].owner_id].contains(k)
        &&& after.by_nft_contract_id.contains_key(after.sales[k].nft_contract_id)
        &&& after.by_nft_contract_id[after.sales[k].nft_contract_id].contains(
            after.sales[k].token_id,
        )
    } by {
        if k != key {
            assert(s.sales.contains_key(k));
        }
    }
    assert forall|a: Seq<char>| #[trigger] after.sale_by_owner.contains_key(a) implies {
        &&& after.sale_by_owner[a].finite()
        &&& after.sale_by_owner[a] != Set::<Seq<char>>::empty()
        &&& after.reserved(a) <= after.balance_of(a)
    } by {
        if a == sale.owner_id {
            if s.sale_by_owner.contains_key(a) {
                assert(s.sale_by_owner[a].finite());
                assert(after.sale_by_owner[a].len() <= s.sale_by_owner[a].len() + 1);
            } else {
                assert(after.sale_by_owner[a].len() == 1);
            }
            assert(after.listing_count(a) <= s.listing_count(a) + 1);
        } else {
            assert(s.sale_by_owner.contains_key(a));
            assert(after.sale_by_owner[a] == s.sale_by_owner[a]);
        }
    }
    assert forall|c: Seq<char>| #[trigger]
        after.by_nft_contract_id.contains_key(c) implies after.by_nft_contract_id[c] != Set::<
        Seq<char>,
    >::empty() by {
        if c != sale.nft_contract_id {
            assert(s.by_nft_contract_id.contains_key(c));
        }
    }
}

/// Taking a listing down keeps the ledger in order.
pub proof fn lemma_unlisted_wf(s: ContractView, key: Seq<char>)
    requires
        s.wf(),
        s.sales.contains_key(key),
    ensures
        s.unlisted(key).wf(),
{
    let after = s.unlisted(key);
    let sale = s.sales[key];
    assert forall|k: Seq<char>| #[trigger] after.sales.contains_key(k) implies {
        &&& k == sale_key(after.sales[k].nft_contract_id, after.sales[k].token_id)
        &&& after.sale_by_owner.contains_key(after.sales[k].owner_id)
        &&& after.sale_by_owner[after.sales[k].owner_id].contains(k)
        &&& after.by_nft_contract_id.contains_key(after.sales[k].nft_contract_id)
        &&& after.by_nft_contract_id[after.sales[k].nft_contract_id].contains(
            after.sales[k].token_id,
        )
    } by {
        assert(s.sales.contains_key(k) && k != key);
        let other = s.sales[k];
        if other.owner_id == sale.owner_id {
            assert(s.sale_by_owner[sale.owner_id].remove(key).contains(k));
        }
        if other.nft_contract_id == sale.nft_contract_id {
            assert(other.token_id != sale.token_id);
            assert(s.by_nft_contract_id[sale.nft_contract_id].remove(sale.token_id).contains(
                other.token_id,
            ));
        }
    }
    assert forall|a: Seq<char>| #[trigger] after.sale_by_owner.contains_key(a) implies {
        &&& after.sale_by_owner[a].finite()
        &&& after.sale_by_owner[a] != Set::<Seq<char>>::empty()
        &&& after.reserved(a) <= after.balance_of(a)
    } by {
        assert(s.sale_by_owner.contains_key(a));
        assert(s.sale_by_owner[a].finite());
        if a == sale.owner_id {
            assert(after.sale_by_owner[a] == s.sale_by_owner[a].remove(key));
            assert(after.sale_by_owner[a].len() <= s.sale_by_owner[a].len());
        } else {
            assert(after.sale_by_owner[a] == s.sale_by_owner[a]);
        }
    }
    assert forall|c: Seq<char>| #[trigger]
        after.by_nft_contract_id.contains_key(c) implies after.by_nft_contract_id[c] != Set::<
        Seq<char>,
    >::empty() by {
        assert(s.by_nft_contract_id.contains_key(c));
    }
}

/// The key of the listing of `token_id` of the contract `nft_contract_id`.
pub fn contract_and_token_id(nft_contract_id: &AccountId, token_id: &TokenId) -> (key: String)
    ensures
        key@ == sale_key(nft_contract_id@, token_id@),
{
    let mut key = nft_contract_id.as_str().to_owned();
    key.append(".");
    key.append(token_id.as_str());
    key
}

impl Contract {
    /// The number of listings that `account_id` has made.
    pub fn get_supply_by_owner_id(&self, account_id: AccountId) -> (supply: u64)
        ensures
            supply == self@.listing_count(account_id@),
    {
        match self.sale_by_owner.get(&account_id) {
            Some(sales) => sales.len() as u64,
            None => 0,
        }
    }

    /// Lists a token for sale when the contract on which the token lives
    /// tells of an approval that carries the terms of a sale. The call must
    /// come from that contract on behalf of the token's owner, and the owner
    /// must have deposited enough for one listing more than it has. A
    /// listing of the same token of the same contract is replaced.
    pub fn nft_on_approve(
        &mut self,
        ctx: &CallContext,
        token_id: TokenId,
        owner_id: AccountId,
        approval_id: u64,
        sale_args: Option<SaleArgs>,
    ) -> (done: Result<(), LedgerError>)
        requires
            old(self)@.wf(),
        ensures
            final(self)@.wf(),
            final(self)@ == old(self)@.step(
                Operation::OnApprove {
                    ctx: ctx@,
                    token_id: token_id@,
                    owner_id: owner_id@,
                    approval_id,
                    sale_args,
                },
            ),
            match done {
                Ok(_) => {
                    &&& old(self)@.listing_error(ctx@, owner_id@, sale_args) is None
                    &&& final(self)@ == old(self)@.listed(
                        SaleView {
                            owner_id: owner_id@,
                            approval_id,
                            nft_contract_id: ctx@.predecessor_account_id,
                            token_id: token_id@,
                            sale_conditions: sale_args->0.sale_conditions,
                        },
                    )
                },
                Err(e) => {
                    &&& old(self)@.listing_error(ctx@, owner_id@, sale_args) == Some(e)
                    &&& final(self)@ == old(self)@
                },
            },
    {
        let nft_contract_id = ctx.predecessor_account_id.clone();
        let signer_id = ctx.signer_account_id.clone();
        if nft_contract_id.same_as(&signer_id) {
            return Err(LedgerError::NotAGenuineNotification);
        }
        if !owner_id.same_as(&signer_id) {
            return Err(LedgerError::NotAGenuineNotification);
        }
        let storage_amount = self.storage_minimum_balance();
        let owner_paid_storage = self.storage_balance_of(signer_id.clone());
        let supply: u64 = self.get_supply_by_owner_id(signer_id);
        match (supply as u128 + 1).checked_mul(storage_amount) {
            Some(signer_storage_required) => {
                if owner_paid_storage < signer_storage_required {
                    return Err(
                        LedgerError::InsufficientCollateral {
                            required: signer_storage_required,
                            available: owner_paid_storage,
                        },
                    );
                }
            },
            None => {
                return Err(
                    LedgerError::InsufficientCollateral {
                        required: u128::MAX,
                        available: owner_paid_storage,
                    },
                );
            },
        }
        let sale_conditions = match sale_args {
            Some(args) => args.sale_conditions,
            None => {
                return Err(LedgerError::MalformedPayload);
            },
        };
        let key = contract_and_token_id(&nft_contract_id, &token_id);
        let sale = Sale {
            owner_id: owner_id.clone(),
            approval_id,
            nft_contract_id: nft_contract_id.clone(),
            token_id: token_id.clone(),
            sale_conditions,
        };
        proof {
            lemma_listed_wf(self@, sale@);
        }
        self.sales.insert(key.clone(), sale);
        index_insert(&mut self.sale_by_owner, &owner_id, &key);
        index_insert(&mut self.by_nft_contract_id, &nft_contract_id, &token_id);
        Ok(())
    }

    /// Takes the listing of `token_id` of the contract `nft_contract_id`
    /// down for the account that made it, and hands the listing back. The
    /// call must come from that account, with exactly one unit of the base
    /// currency.
    pub fn remove_sale(&mut self, ctx: &CallContext, nft_contract_id: AccountId, token_id: TokenId) -> (removed:
        Result<Sale, LedgerError>)
        requires
            old(self)@.wf(),
        ensures
            final(self)@.wf(),
            final(self)@ == old(self)@.step(
                Operation::CancelSale {
                    ctx: ctx@,
                    nft_contract_id: nft_contract_id@,
                    token_id: token_id@,
                },
            ),
            match removed {
                Ok(sale) => {
                    &&& old(self)@.remove_sale_error(ctx@, sale_key(nft_contract_id@, token_id@))
                        is None
                    &&& sale@ == old(self)@.sales[sale_key(nft_contract_id@, token_id@)]
                    &&& final(self)@ == old(self)@.unlisted(sale_key(nft_contract_id@, token_id@))
                },
                Err(e) => {
                    &&& old(self)@.remove_sale_error(ctx@, sale_key(nft_contract_id@, token_id@))
                        == Some(e)
                    &&& final(self)@ == old(self)@
                },
            },
    {
        if ctx.attached_deposit != 1 {
            return Err(LedgerError::PaymentRequired);
        }
        let key = contract_and_token_id(&nft_contract_id, &token_id);
        match self.sales.get(&key) {
            Some(sale) => {
                if !sale.owner_id.same_as(&ctx.predecessor_account_id) {
                    return Err(LedgerError::NotOwner);
                }
            },
            None => {
                return Err(LedgerError::ListingNotFound);
            },
        }
        self.internal_remove_sale(nft_contract_id, token_id)
    }

    /// Takes the listing of `token_id` of the contract `nft_contract_id`
    /// down and hands it back.
    pub fn internal_remove_sale(&mut self, nft_contract_id: AccountId, token_id: TokenId) -> (removed:
        Result<Sale, LedgerError>)
        requires
            old(self)@.wf(),
        ensures
            final(self)@.wf(),
            final(self)@ == old(self)@.step(
                Operation::RemoveSale { nft_contract_id: nft_contract_id@, token_id: token_id@ },
            ),
            match removed {
                Ok(sale) => {
                    &&& old(self)@.sales.contains_key(sale_key(nft_contract_id@, token_id@))
                    &&& sale@ == old(self)@.sales[sale_key(nft_contract_id@, token_id@)]
                    &&& final(self)@ == old(self)@.unlisted(sale_key(nft_contract_id@, token_id@))
                },
                Err(e) => {
                    &&& e == LedgerError::ListingNotFound
                    &&& !old(self)@.sales.contains_key(sale_key(nft_contract_id@, token_id@))
                    &&& final(self)@ == old(self)@
                },
            },
    {
        let key = contract_and_token_id(&nft_contract_id, &token_id);
        proof {
            if self@.sales.contains_key(key@) {
                lemma_unlisted_wf(self@, key@);
            }
        }
        let sale = match self.sales.remove(&key) {
            Some(sale) => sale,
            None => {
                assert(self@.sales =~= old(self)@.sales);
                return Err(LedgerError::ListingNotFound);
            },
        };
        index_remove(&mut self.sale_by_owner, &sale.owner_id, &key);
        index_remove(&mut self.by_nft_contract_id, &sale.nft_contract_id, &sale.token_id);
        Ok(sale)
    }
}

} // verus!
