//! Royalties: who is paid how much when a token is sold.
use crate::account::AccountId;
use crate::collections::{AssocMap, Duplicate};
use crate::context::{CallContext, CallContextView};
use crate::contract::{royalty_total, valid_royalty, Contract, ContractView};
use crate::errors::LedgerError;
use crate::internal::{
    payout_share, refund_approved_account_ids, released_bytes, royalty_to_payout, storage_cost,
    transfer_log,
};
use crate::metadata::{Payout, TokenId};
use crate::nft_core::{NonFungibleTokenCore, Transfer};
use crate::sums::{
    lemma_sum_over_congruent, lemma_sum_over_empty, lemma_sum_over_insert, lemma_sum_over_prefix,
    lemma_sum_over_remove, lemma_sum_over_scaled, lemma_sum_over_subset, sum_over,
};
use crate::theorems::Operation;
use vstd::prelude::*;

verus! {

/// What `account_id` is owed of a sale for `balance` as a royalty, where
/// `seller_id` sells: its share, rounded down, and nothing for the seller.
pub open spec fn royalty_due(
    royalty: Map<Seq<char>, u32>,
    seller_id: Seq<char>,
    balance: u128,
    account_id: Seq<char>,
) -> nat {
    if account_id == seller_id {
        0
    } else {
        payout_share(royalty[account_id], balance) as nat
    }
}

/// What the accounts of the royalty are owed in all.
pub open spec fn royalties_due(royalty: Map<Seq<char>, u32>, seller_id: Seq<char>, balance: u128) -> nat {
    sum_over(royalty.dom(), |account_id: Seq<char>| royalty_due(royalty, seller_id, balance, account_id))
}

/// Who is paid how much of a sale for `balance`: each account of the royalty
/// its share, rounded down, and the seller what is left.
pub open spec fn payout_for(royalty: Map<Seq<char>, u32>, seller_id: Seq<char>, balance: u128) -> Map<
    Seq<char>,
    u128,
> {
    Map::new(
        |account_id: Seq<char>| royalty.contains_key(account_id) || account_id == seller_id,
        |account_id: Seq<char>|
            if account_id == seller_id {
                (balance - royalties_due(royalty, seller_id, balance)) as u128
            } else {
                payout_share(royalty[account_id], balance) as u128
            },
    )
}

/// A share of at most the whole is at most the amount.
pub proof fn lemma_share_bounded(percentage: u32, balance: u128)
    ensures
        0 <= payout_share(percentage, balance),
        payout_share(percentage, balance) * 10000 <= percentage * balance,
        percentage <= 10000 ==> payout_share(percentage, balance) <= balance,
{
    let product = percentage as int * balance as int;
    assert(0 <= product) by (nonlinear_arith)
        requires
            product == percentage as int * balance as int,
            0 <= percentage,
            0 <= balance,
    ;
    vstd::arithmetic::div_mod::lemma_fundamental_div_mod(product, 10000);
    assert(0 <= product % 10000 < 10000);
    assert(10000 * (product / 10000) == (product / 10000) * 10000);
    if percentage <= 10000 {
        assert(product <= 10000 * balance) by (nonlinear_arith)
            requires
                product == percentage as int * balance as int,
                percentage <= 10000,
                0 <= balance,
        ;
    }
}

/// The royalties of some of the accounts of a valid royalty come to no more
/// than the amount.
pub proof fn lemma_royalties_bounded(
    royalty: Map<Seq<char>, u32>,
    seller_id: Seq<char>,
    balance: u128,
    accounts: Set<Seq<char>>,
)
    requires
        valid_royalty(royalty),
        accounts.subset_of(royalty.dom()),
    ensures
        sum_over(
            accounts,
            |account_id: Seq<char>| royalty_due(royalty, seller_id, balance, account_id),
        ) <= balance,
        forall|account_id: Seq<char>|
            royalty.contains_key(account_id) ==> #[trigger] royalty[account_id] <= 10000,
{
    let due = |account_id: Seq<char>| royalty_due(royalty, seller_id, balance, account_id);
    let share = |account_id: Seq<char>| royalty[account_id] as nat;
    assert forall|account_id: Seq<char>| royalty.dom().contains(account_id) implies #[trigger] due(
        account_id,
    ) * 10000 <= share(account_id) * (balance as nat) by {
        lemma_share_bounded(royalty[account_id], balance);
    }
    lemma_sum_over_scaled(royalty.dom(), due, share, 10000, balance as nat);
    lemma_sum_over_subset(accounts, royalty.dom(), due);
    assert(sum_over(royalty.dom(), share) == royalty_total(royalty));
    assert(sum_over(royalty.dom(), due) * 10000 <= 10000 * (balance as nat)) by (nonlinear_arith)
        requires
            sum_over(royalty.dom(), due) * 10000 <= sum_over(royalty.dom(), share) * (
            balance as nat),
            sum_over(royalty.dom(), share) <= 10000,
    ;
    assert forall|account_id: Seq<char>| royalty.contains_key(account_id) implies #[trigger] royalty[account_id]
        <= 10000 by {
        lemma_sum_over_remove(royalty.dom(), share, account_id);
    }
}

/// A payout hands out the whole amount, no more and no less: what is lost
/// where a share is rounded down goes to the seller.
pub proof fn theorem_payout_is_whole(royalty: Map<Seq<char>, u32>, seller_id: Seq<char>, balance: u128)
    requires
        valid_royalty(royalty),
    ensures
        sum_over(
            payout_for(royalty, seller_id, balance).dom(),
            |account_id: Seq<char>| payout_for(royalty, seller_id, balance)[account_id] as nat,
        ) == balance,
        forall|account_id: Seq<char>|
            royalty.contains_key(account_id) && account_id != seller_id ==> #[trigger] payout_for(
                royalty,
                seller_id,
                balance,
            )[account_id] == payout_share(royalty[account_id], balance),
{
    let payout = payout_for(royalty, seller_id, balance);
    let paid = |account_id: Seq<char>| payout[account_id] as nat;
    let due = |account_id: Seq<char>| royalty_due(royalty, seller_id, balance, account_id);
    let others = royalty.dom().remove(seller_id);
    lemma_royalties_bounded(royalty, seller_id, balance, royalty.dom());
    assert(payout.dom() =~= others.insert(seller_id));
    assert forall|account_id: Seq<char>| others.contains(account_id) implies #[trigger] paid(account_id)
        == due(account_id) by {
        lemma_share_bounded(royalty[account_id], balance);
    }
    lemma_sum_over_congruent(others, paid, due);
    lemma_sum_over_insert(others, paid, seller_id);
    if royalty.contains_key(seller_id) {
        lemma_sum_over_remove(royalty.dom(), due, seller_id);
    } else {
        assert(others =~= royalty.dom());
    }
    assert forall|account_id: Seq<char>|
        royalty.contains_key(account_id) && account_id != seller_id implies #[trigger] payout[account_id]
        == payout_share(royalty[account_id], balance) by {
        lemma_share_bounded(royalty[account_id], balance);
    }
}

/// What a sale pays out.
pub trait NonFungibleTokenMetadata: View<V = ContractView> + Sized {
    /// Who is paid how much when `account_id` sells the token for `balance`:
    /// each account of the token's royalty its share, rounded down, and the
    /// seller what is left. Fails where the royalty has more entries than
    /// `max_len_payout`.
    fn nft_payout(
        &self,
        token_id: TokenId,
        account_id: AccountId,
        balance: u128,
        max_len_payout: u32,
    ) -> (paid: Result<Payout, LedgerError>)
        requires
            self@.wf(),
        ensures
            match paid {
                Ok(payout) => {
                    &&& self@.payout_error(token_id@, max_len_payout) is None
                    &&& payout@ == payout_for(
                        self@.token_by_id[token_id@].royalty,
                        account_id@,
                        balance,
                    )
                },
                Err(e) => self@.payout_error(token_id@, max_len_payout) == Some(e),
            },
    ;

    /// Moves the token to `receiver_id` as a transfer does, and says who is
    /// paid how much of the `balance` that it was sold for, the owner that
    /// the token had being the seller.
    fn nft_transfer_payout(
        &mut self,
        ctx: &CallContext,
        receiver_id: AccountId,
        token_id: TokenId,
        approval_id: Option<u64>,
        memo: Option<String>,
        balance: u128,
        max_len_payout: u32,
    ) -> (paid: Result<(Payout, Transfer), LedgerError>)
        requires
            old(self)@.wf(),
        ensures
            final(self)@.wf(),
            final(self)@ == old(self)@.step(
                Operation::TransferPayout {
                    ctx: ctx@,
                    receiver_id: receiver_id@,
                    token_id: token_id@,
                    approval_id,
                    max_len_payout,
                },
            ),
            match paid {
                Ok((payout, transfer)) => {
                    &&& old(self)@.transfer_payout_error(
                        ctx@,
                        receiver_id@,
                        token_id@,
                        approval_id,
                        max_len_payout,
                    ) is None
                    &&& final(self)@ == old(self)@.transferred(token_id@, receiver_id@)
                    &&& payout@ == payout_for(
                        old(self)@.token_by_id[token_id@].royalty,
                        old(self)@.token_by_id[token_id@].owner_id,
                        balance,
                    )
                    &&& transfer.refund.receiver_id@ == old(self)@.token_by_id[token_id@].owner_id
                    &&& transfer.refund.amount == storage_cost(
                        released_bytes(
                            old(self)@.token_by_id[token_id@].approved_account_ids.dom(),
                        ),
                        ctx.storage_byte_cost,
                    )
                    &&& transfer.event@ == transfer_log(
                        if approval_id is Some {
                            Some(ctx@.predecessor_account_id)
                        } else {
                            None
                        },
                        old(self)@.token_by_id[token_id@].owner_id,
                        receiver_id@,
                        token_id@,
                        memo.deep_view(),
                    )
                },
                Err(e) => {
                    &&& old(self)@.transfer_payout_error(
                        ctx@,
                        receiver_id@,
                        token_id@,
                        approval_id,
                        max_len_payout,
                    ) == Some(e)
                    &&& final(self)@ == old(self)@
                },
            },
    ;
}

impl ContractView {
    /// Why there is no payout for the token, if there is none.
    pub open spec fn payout_error(self, token_id: Seq<char>, max_len_payout: u32) -> Option<
        LedgerError,
    > {
        if !self.token_by_id.contains_key(token_id) {
            Some(LedgerError::TokenNotFound)
        } else if self.token_by_id[token_id].royalty.len() > max_len_payout {
            Some(LedgerError::TooManyPayouts)
        } else {
            None
        }
    }

    /// Why the token cannot be moved and paid out, if it cannot.
    pub open spec fn transfer_payout_error(
        self,
        ctx: CallContextView,
        receiver_id: Seq<char>,
        token_id: Seq<char>,
        approval_id: Option<u64>,
        max_len_payout: u32,
    ) -> Option<LedgerError> {
        if self.nft_transfer_error(ctx, receiver_id, token_id, approval_id) is Some {
            self.nft_transfer_error(ctx, receiver_id, token_id, approval_id)
        } else {
            self.payout_error(token_id, max_len_payout)
        }
    }
}

/// Who is paid how much of a sale for `balance` by `seller_id`, under a
/// valid royalty.
pub fn payout_of(royalty: &AssocMap<AccountId, u32>, seller_id: &AccountId, balance: u128) -> (payout:
    Payout)
    requires
        valid_royalty(royalty@),
    ensures
        payout@ == payout_for(royalty@, seller_id@, balance),
{
    let n = royalty.len();
    royalty.keys_are_domain();
    let ghost keys = royalty.spec_keys();
    let ghost due = |account_id: Seq<char>| royalty_due(royalty@, seller_id@, balance, account_id);
    let mut paid: AssocMap<AccountId, u128> = AssocMap::new();
    let mut total: u128 = 0;
    let mut i: usize = 0;
    proof {
        lemma_sum_over_empty(due);
        assert(keys.take(0).to_set() =~= Set::<Seq<char>>::empty());
    }
    while i < n
        invariant
            i <= n,
            n == keys.len(),
            keys == royalty.spec_keys(),
            keys.no_duplicates(),
            keys.to_set() == royalty@.dom(),
            valid_royalty(royalty@),
            due == |account_id: Seq<char>| royalty_due(royalty@, seller_id@, balance, account_id),
            total == sum_over(keys.take(i as int).to_set(), due),
            total <= balance,
            forall|k: Seq<char>|
                paid@.contains_key(k) <==> keys.take(i as int).contains(k) && k != seller_id@,
            forall|k: Seq<char>| #[trigger]
                paid@.contains_key(k) ==> paid@[k] == payout_share(royalty@[k], balance),
        decreases n - i,
    {
        let account_id = royalty.key_at(i);
        let share: u32 = *royalty.value_at(i);
        let ghost before = keys.take(i as int);
        let ghost after = keys.take(i + 1);
        proof {
            lemma_sum_over_prefix(keys, i as int, due);
            assert(after.to_set().subset_of(royalty@.dom())) by {
                assert forall|k: Seq<char>| after.to_set().contains(k) implies royalty@.dom().contains(
                    k,
                ) by {
                    let j = choose|j: int| 0 <= j < after.len() && after[j] == k;
                    assert(keys[j] == k);
                    assert(keys.to_set().contains(k));
                }
            }
            lemma_royalties_bounded(royalty@, seller_id@, balance, after.to_set());
            lemma_share_bounded(share, balance);
            assert(royalty@[keys[i as int]] == share);
            assert(after =~= before.push(keys[i as int]));
        }
        if !account_id.same_as(seller_id) {
            let amount = royalty_to_payout(share, balance);
            paid.insert(account_id.duplicate(), amount);
            total = total + amount;
        }
        proof {
            assert forall|k: Seq<char>|
                paid@.contains_key(k) <==> after.contains(k) && k != seller_id@ by {
                if after.contains(k) {
                    let j = choose|j: int| 0 <= j < after.len() && after[j] == k;
                    if j < i {
                        assert(before[j] == k);
                    }
                }
                if before.contains(k) {
                    let j = choose|j: int| 0 <= j < before.len() && before[j] == k;
                    assert(after[j] == k);
                }
                assert(after[i as int] == keys[i as int]);
            }
        }
        i += 1;
    }
    proof {
        assert(keys.take(n as int) =~= keys);
    }
    paid.insert(seller_id.duplicate(), balance - total);
    proof {
        let expected = payout_for(royalty@, seller_id@, balance);
        assert forall|k: Seq<char>| paid@.contains_key(k) <==> expected.contains_key(k) by {
            if royalty@.contains_key(k) {
                assert(keys.to_set().contains(k));
            }
            if keys.contains(k) {
                assert(keys.to_set().contains(k));
            }
        }
        assert forall|k: Seq<char>| #[trigger] paid@.contains_key(k) implies paid@[k] == expected[k] by {
            if k != seller_id@ {
                lemma_share_bounded(royalty@[k], balance);
            }
        }
        assert(paid@ =~= expected);
    }
    Payout { payout: paid }
}

impl NonFungibleTokenMetadata for Contract {
    fn nft_payout(
        &self,
        token_id: TokenId,
        account_id: AccountId,
        balance: u128,
        max_len_payout: u32,
    ) -> (paid: Result<Payout, LedgerError>) {
        let token = match self.token_by_id.get(&token_id) {
            Some(token) => token,
            None => {
                return Err(LedgerError::TokenNotFound);
            },
        };
        if token.royalty.len() > max_len_payout as usize {
            return Err(LedgerError::TooManyPayouts);
        }
        Ok(payout_of(&token.royalty, &account_id, balance))
    }

    fn nft_transfer_payout(
        &mut self,
        ctx: &CallContext,
        receiver_id: AccountId,
        token_id: TokenId,
        approval_id: Option<u64>,
        memo: Option<String>,
        balance: u128,
        max_len_payout: u32,
    ) -> (paid: Result<(Payout, Transfer), LedgerError>) {
        if ctx.attached_deposit != 1 {
            return Err(LedgerError::PaymentRequired);
        }
        if let Err(e) = self.check_transfer(
            &ctx.predecessor_account_id,
            &receiver_id,
            &token_id,
            approval_id,
        ) {
            return Err(e);
        }
        let payout = match self.token_by_id.get(&token_id) {
            Some(token) => {
                if let Err(e) = refund_approved_account_ids(
                    token.owner_id.clone(),
                    &token.approved_account_ids,
                    ctx.storage_byte_cost,
                ) {
                    return Err(e);
                }
                if token.royalty.len() > max_len_payout as usize {
                    return Err(LedgerError::TooManyPayouts);
                }
                payout_of(&token.royalty, &token.owner_id, balance)
            },
            None => {
                return Err(LedgerError::TokenNotFound);
            },
        };
        match self.nft_transfer(ctx, receiver_id, token_id, memo, approval_id) {
            Ok(transfer) => Ok((payout, transfer)),
            Err(e) => Err(e),
        }
    }
}

} // verus!
