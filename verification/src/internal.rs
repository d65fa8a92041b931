//! What the operations share: what storage costs and what is refunded for
//! it, and how a token goes from one owner to another.
use crate::account::AccountId;
use crate::collections::{AssocMap, Duplicate};
use crate::context::{CallContext, Payment};
use crate::contract::{
    index_insert, index_remove, index_with, index_without, valid_royalty, Contract, ContractView,
};
use crate::errors::LedgerError;
use crate::events::{NftTransferLog, NftTransferLogView};
use crate::metadata::{Balance, SeriesId, Token, TokenId, TokenView};
use crate::sums::{lemma_sum_over_empty, lemma_sum_over_prefix, sum_over};
use vstd::arithmetic::div_mod::{lemma_fundamental_div_mod, lemma_hoist_over_denominator};
use vstd::prelude::*;
use vstd::utf8::*;

verus! {

/// The share of `amount_to_pay` that `percentage` basis points come to,
/// rounded down.
pub open spec fn payout_share(percentage: u32, amount_to_pay: u128) -> int {
    (percentage as int * amount_to_pay as int) / 10000
}

/// The share of `amount_to_pay` that `percentage` basis points come to,
/// rounded down.
pub fn royalty_to_payout(percentage: u32, amount_to_pay: Balance) -> (payout: u128)
    requires
        payout_share(percentage, amount_to_pay) <= u128::MAX,
    ensures
        payout == payout_share(percentage, amount_to_pay),
{
    let whole: u128 = amount_to_pay / 10000;
    let rest: u128 = amount_to_pay % 10000;
    let share: u128 = percentage as u128;
    proof {
        let p = percentage as int;
        lemma_fundamental_div_mod(amount_to_pay as int, 10000);
        assert(p * amount_to_pay == p * rest + (p * whole) * 10000) by (nonlinear_arith)
            requires
                amount_to_pay == 10000 * whole + rest,
        ;
        lemma_hoist_over_denominator(p * rest, p * whole, 10000);
        assert(0 <= p * rest) by (nonlinear_arith)
            requires
                0 <= p,
                0 <= rest,
        ;
        assert(p * rest <= 0xffff_ffff * 9999) by (nonlinear_arith)
            requires
                0 <= p <= 0xffff_ffff,
                0 <= rest <= 9999,
        ;
        assert(0 <= (p * rest) / 10000);
        assert((p * rest) / 10000 + p * whole == payout_share(percentage, amount_to_pay));
        assert(whole * share == p * whole && rest * share == p * rest) by (nonlinear_arith)
            requires
                share == p,
        ;
    }
    whole * share + (rest * share) / 10000
}

/// The bytes that the ledger keeps for one approval of the account with this
/// identifier: the identifier with its length, and the number of the
/// approval.
pub open spec fn approved_account_bytes(account_id: Seq<char>) -> nat {
    encode_utf8(account_id).len() + 12
}

/// The bytes that the ledger keeps for one approval of each of `accounts`.
pub open spec fn released_bytes(accounts: Set<Seq<char>>) -> nat {
    sum_over(accounts, |account_id: Seq<char>| approved_account_bytes(account_id))
}

/// The price of `bytes` bytes where one byte costs `byte_cost`.
pub open spec fn storage_cost(bytes: nat, byte_cost: u128) -> nat {
    bytes * byte_cost as nat
}

/// The bytes that the ledger keeps for one approval of `account_id`.
pub fn bytes_for_approved_account_id(account_id: &AccountId) -> (bytes: u64)
    ensures
        bytes == approved_account_bytes(account_id@),
        bytes <= 76,
{
    account_id.len() as u64 + 4 + 8
}

/// The bytes that the ledger keeps for one approval of each account in the
/// row `account_ids`, an account that stands twice counted twice.
pub open spec fn released_bytes_of(account_ids: Seq<Seq<char>>) -> nat
    decreases account_ids.len(),
{
    if account_ids.len() == 0 {
        0
    } else {
        released_bytes_of(account_ids.drop_last()) + approved_account_bytes(account_ids.last())
    }
}

/// What is paid out to `account_id` when one approval of each account in the
/// row `approved_account_ids` is given up: the price of the bytes that they
/// took. Fails with [`LedgerError::Overflow`] where that price is more than
/// any amount.
pub fn refund_approved_account_ids_iter(
    account_id: AccountId,
    approved_account_ids: &[AccountId],
    storage_byte_cost: u128,
) -> (refund: Result<Payment, LedgerError>)
    ensures
        match refund {
            Ok(payment) => {
                &&& payment.receiver_id@ == account_id@
                &&& payment.amount == storage_cost(
                    released_bytes_of(approved_account_ids@.map_values(|a: AccountId| a@)),
                    storage_byte_cost,
                )
            },
            Err(e) => {
                &&& e == LedgerError::Overflow
                &&& storage_cost(
                    released_bytes_of(approved_account_ids@.map_values(|a: AccountId| a@)),
                    storage_byte_cost,
                ) > u128::MAX
            },
        },
{
    let n = approved_account_ids.len();
    let ghost ids = approved_account_ids@.map_values(|a: AccountId| a@);
    let mut storage_released: u128 = 0;
    let mut i: usize = 0;
    while i < n
        invariant
            i <= n,
            n == ids.len(),
            ids == approved_account_ids@.map_values(|a: AccountId| a@),
            storage_released == released_bytes_of(ids.take(i as int)),
            storage_released <= 76 * i,
        decreases n - i,
    {
        let bytes = bytes_for_approved_account_id(&approved_account_ids[i]);
        proof {
            assert(ids.take(i + 1).drop_last() =~= ids.take(i as int));
        }
        storage_released = storage_released + bytes as u128;
        i += 1;
    }
    proof {
        assert(ids.take(n as int) =~= ids);
    }
    match storage_released.checked_mul(storage_byte_cost) {
        Some(amount) => Ok(Payment { receiver_id: account_id, amount }),
        None => Err(LedgerError::Overflow),
    }
}

/// What is paid out to `account_id` when the approvals of
/// `approved_account_ids` are given up: the price of the bytes that they took.
/// Fails with [`LedgerError::Overflow`] where that price is more than any amount.
pub fn refund_approved_account_ids(
    account_id: AccountId,
    approved_account_ids: &AssocMap<AccountId, u64>,
    storage_byte_cost: u128,
) -> (refund: Result<Payment, LedgerError>)
    ensures
        match refund {
            Ok(payment) => {
                &&& payment.receiver_id@ == account_id@
                &&& payment.amount == storage_cost(
                    released_bytes(approved_account_ids@.dom()),
                    storage_byte_cost,
                )
            },
            Err(e) => {
                &&& e == LedgerError::Overflow
                &&& storage_cost(released_bytes(approved_account_ids@.dom()), storage_byte_cost)
                    > u128::MAX
            },
        },
{
    let n = approved_account_ids.len();
    approved_account_ids.keys_are_domain();
    let ghost keys = approved_account_ids.spec_keys();
    let mut storage_released: u128 = 0;
    let mut i: usize = 0;
    proof {
        lemma_sum_over_empty(|account_id: Seq<char>| approved_account_bytes(account_id));
        assert(keys.take(0).to_set() =~= Set::<Seq<char>>::empty());
    }
    while i < n
        invariant
            i <= n,
            n == keys.len(),
            keys == approved_account_ids.spec_keys(),
            keys.no_duplicates(),
            storage_released == released_bytes(keys.take(i as int).to_set()),
            storage_released <= 76 * i,
        decreases n - i,
    {
        let bytes = bytes_for_approved_account_id(approved_account_ids.key_at(i));
        proof {
            lemma_sum_over_prefix(
                keys,
                i as int,
                |account_id: Seq<char>| approved_account_bytes(account_id),
            );
        }
        storage_released = storage_released + bytes as u128;
        i += 1;
    }
    proof {
        assert(keys.take(n as int) =~= keys);
    }
    match storage_released.checked_mul(storage_byte_cost) {
        Some(amount) => Ok(Payment { receiver_id: account_id, amount }),
        None => Err(LedgerError::Overflow),
    }
}

/// What `bytes` bytes cost, as far as an amount can say it: an amount that is
/// more than any other stands for every price beyond it.
pub open spec fn capped_cost(bytes: nat, byte_cost: u128) -> u128 {
    if storage_cost(bytes, byte_cost) > u128::MAX {
        u128::MAX
    } else {
        storage_cost(bytes, byte_cost) as u128
    }
}

/// Settles what a call has to pay for the `storage_used` bytes that it took:
/// the call fails where less than their price was paid along with it, and
/// what was paid beyond the price goes back to the caller.
pub fn refund_deposit(storage_used: u64, ctx: &CallContext) -> (refund: Result<u128, LedgerError>)
    ensures
        match refund {
            Ok(amount) => {
                &&& storage_cost(storage_used as nat, ctx.storage_byte_cost)
                    <= ctx.attached_deposit
                &&& amount == ctx.attached_deposit - storage_cost(
                    storage_used as nat,
                    ctx.storage_byte_cost,
                )
            },
            Err(e) => {
                &&& storage_cost(storage_used as nat, ctx.storage_byte_cost) > ctx.attached_deposit
                &&& e == (LedgerError::InsufficientCollateral {
                    required: capped_cost(storage_used as nat, ctx.storage_byte_cost),
                    available: ctx.attached_deposit,
                })
            },
        },
{
    match ctx.storage_byte_cost.checked_mul(storage_used as u128) {
        Some(required_cost) => {
            assert(required_cost == storage_cost(storage_used as nat, ctx.storage_byte_cost))
                by (nonlinear_arith)
                requires
                    required_cost == ctx.storage_byte_cost * (storage_used as u128),
            ;
            if required_cost <= ctx.attached_deposit {
                Ok(ctx.attached_deposit - required_cost)
            } else {
                Err(
                    LedgerError::InsufficientCollateral {
                        required: required_cost,
                        available: ctx.attached_deposit,
                    },
                )
            }
        },
        None => {
            assert(storage_cost(storage_used as nat, ctx.storage_byte_cost) > u128::MAX)
                by (nonlinear_arith)
                requires
                    ctx.storage_byte_cost * (storage_used as u128) > u128::MAX,
            ;
            Err(
                LedgerError::InsufficientCollateral {
                    required: u128::MAX,
                    available: ctx.attached_deposit,
                },
            )
        },
    }
}

impl ContractView {
    /// Whether `sender_id` may move the token: it owns the token, or it
    /// holds an approval, the one with the number `approval_id` where a
    /// number is given.
    pub open spec fn may_transfer(
        self,
        sender_id: Seq<char>,
        token_id: Seq<char>,
        approval_id: Option<u64>,
    ) -> bool {
        let token = self.token_by_id[token_id];
        sender_id == token.owner_id || (token.approved_account_ids.contains_key(sender_id) && (
        match approval_id {
            Some(id) => token.approved_account_ids[sender_id] == id,
            None => true,
        }))
    }

    /// Why `sender_id` cannot move the token to `receiver_id`, if it cannot.
    pub open spec fn transfer_error(
        self,
        sender_id: Seq<char>,
        receiver_id: Seq<char>,
        token_id: Seq<char>,
        approval_id: Option<u64>,
    ) -> Option<LedgerError> {
        if !self.token_by_id.contains_key(token_id) {
            Some(LedgerError::TokenNotFound)
        } else if !self.may_transfer(sender_id, token_id, approval_id) {
            Some(LedgerError::Unauthorized)
        } else if self.token_by_id[token_id].owner_id == receiver_id {
            Some(LedgerError::SelfTransfer)
        } else {
            None
        }
    }

    /// The ledger after the token got the record `token`: the token left
    /// the set of the owner that it had for the set of the owner that the
    /// record names.
    pub open spec fn with_record(self, token_id: Seq<char>, token: TokenView) -> ContractView {
        ContractView {
            token_per_owner: index_with(
                index_without(
                    self.token_per_owner,
                    self.token_by_id[token_id].owner_id,
                    token_id,
                ),
                token.owner_id,
                token_id,
            ),
            token_by_id: self.token_by_id.insert(token_id, token),
            ..self
        }
    }

    /// The ledger after the token went to `receiver_id`: the token left the
    /// set of its owner for that of the receiver, and its record starts anew,
    /// without approvals.
    pub open spec fn transferred(self, token_id: Seq<char>, receiver_id: Seq<char>) -> ContractView {
        self.with_record(
            token_id,
            TokenView {
                owner_id: receiver_id,
                approved_account_ids: Map::empty(),
                next_approval_id: 0,
                ..self.token_by_id[token_id]
            },
        )
    }
}

/// What the log tells of a transfer of `token_id` from `old_owner_id` to
/// `new_owner_id`.
pub open spec fn transfer_log(
    authorized_id: Option<Seq<char>>,
    old_owner_id: Seq<char>,
    new_owner_id: Seq<char>,
    token_id: Seq<char>,
    memo: Option<Seq<char>>,
) -> NftTransferLogView {
    NftTransferLogView {
        authorized_id,
        old_owner_id,
        new_owner_id,
        token_ids: seq![token_id],
        memo,
    }
}

/// A new record for a token, under whatever owner, keeps the ledger in order
/// where its royalty is valid and its approvals are finitely many.
pub proof fn lemma_with_record_wf(s: ContractView, token_id: Seq<char>, token: TokenView)
    requires
        s.wf(),
        s.token_by_id.contains_key(token_id),
        valid_royalty(token.royalty),
        token.approved_account_ids.dom().finite(),
    ensures
        s.with_record(token_id, token).wf(),
{
    let after = s.with_record(token_id, token);
    let owner_id = s.token_by_id[token_id].owner_id;
    let receiver_id = token.owner_id;
    let left = index_without(s.token_per_owner, owner_id, token_id);
    assert(after.token_per_owner[receiver_id].contains(token_id));
    assert forall|t: Seq<char>| #[trigger] after.token_by_id.contains_key(t) implies {
        &&& after.token_per_owner.contains_key(after.token_by_id[t].owner_id)
        &&& after.token_per_owner[after.token_by_id[t].owner_id].contains(t)
    } by {
        if t != token_id {
            assert(s.token_by_id.contains_key(t));
            let o = s.token_by_id[t].owner_id;
            assert(s.token_per_owner[o].contains(t));
            if o == owner_id {
                assert(s.token_per_owner[owner_id].remove(token_id).contains(t));
            }
        }
    }
    assert forall|a: Seq<char>, t: Seq<char>|
        after.token_per_owner.contains_key(a) && #[trigger] after.token_per_owner[a].contains(
            t,
        ) implies after.token_by_id.contains_key(t) && after.token_by_id[t].owner_id == a by {
        if t == token_id {
            if a != receiver_id {
                assert(left.contains_key(a) && left[a].contains(t));
                if a != owner_id {
                    assert(s.token_per_owner[a].contains(t));
                }
            }
        } else {
            if a == receiver_id {
                assert(left.contains_key(a) && left[a].contains(t));
            }
            assert(s.token_per_owner.contains_key(a) && s.token_per_owner[a].contains(t));
        }
    }
    assert forall|a: Seq<char>| #[trigger]
        after.token_per_owner.contains_key(a) implies after.token_per_owner[a] != Set::<
        Seq<char>,
    >::empty() by {
        if a == receiver_id {
            assert(after.token_per_owner[a].contains(token_id));
        } else if a == owner_id {
        } else {
            assert(after.token_per_owner[a] == s.token_per_owner[a]);
        }
    }
    assert forall|t: Seq<char>| #[trigger] after.token_by_id.contains_key(t) implies {
        &&& after.token_metadata_by_id.contains_key(t)
        &&& valid_royalty(after.token_by_id[t].royalty)
        &&& after.token_by_id[t].approved_account_ids.dom().finite()
    } by {
        if t != token_id {
            assert(s.token_by_id.contains_key(t));
        }
    }
}

impl Contract {
    /// Puts `token_id` into the set of `account_id`.
    pub(crate) fn internal_add_token_to_owner(&mut self, account_id: &AccountId, token_id: &TokenId)
        ensures
            final(self)@ == (ContractView {
                token_per_owner: index_with(old(self)@.token_per_owner, account_id@, token_id@),
                ..old(self)@
            }),
    {
        index_insert(&mut self.token_per_owner, account_id, token_id);
    }

    /// Puts the series with the number `series_id` into the set of
    /// `account_id`.
    pub(crate) fn internal_add_series_to_owner(&mut self, account_id: &AccountId, series_id: &SeriesId)
        ensures
            final(self)@ == (ContractView {
                series_per_owner: index_with(old(self)@.series_per_owner, account_id@, *series_id),
                ..old(self)@
            }),
    {
        index_insert(&mut self.series_per_owner, account_id, series_id);
    }

    /// Takes `token_id` out of the set of `account_id`; an account that owns
    /// nothing else leaves the index.
    pub(crate) fn internal_remove_token_from_owner(
        &mut self,
        account_id: &AccountId,
        token_id: &TokenId,
    )
        ensures
            final(self)@ == (ContractView {
                token_per_owner: index_without(old(self)@.token_per_owner, account_id@, token_id@),
                ..old(self)@
            }),
    {
        index_remove(&mut self.token_per_owner, account_id, token_id);
    }

    /// Says whether `sender_id` can move the token to `receiver_id`, and if
    /// not, why.
    pub(crate) fn check_transfer(
        &self,
        sender_id: &AccountId,
        receiver_id: &AccountId,
        token_id: &TokenId,
        approval_id: Option<u64>,
    ) -> (checked: Result<(), LedgerError>)
        ensures
            match checked {
                Ok(_) => self@.transfer_error(sender_id@, receiver_id@, token_id@, approval_id)
                    is None,
                Err(e) => self@.transfer_error(sender_id@, receiver_id@, token_id@, approval_id)
                    == Some(e),
            },
    {
        let token = match self.token_by_id.get(token_id) {
            Some(token) => token,
            None => {
                return Err(LedgerError::TokenNotFound);
            },
        };
        if !sender_id.same_as(&token.owner_id) {
            match token.approved_account_ids.get(sender_id) {
                None => {
                    return Err(LedgerError::Unauthorized);
                },
                Some(actual_approval_id) => {
                    if let Some(enforced_approval_id) = approval_id {
                        if *actual_approval_id != enforced_approval_id {
                            return Err(LedgerError::Unauthorized);
                        }
                    }
                },
            }
        }
        if token.owner_id.same_as(receiver_id) {
            return Err(LedgerError::SelfTransfer);
        }
        Ok(())
    }

    /// Moves the token to `receiver_id` on behalf of `sender_id`, and hands
    /// back the record that the token had, with what the log is to tell of
    /// the move. Only the owner and the holders of an approval can move a
    /// token, and not to its owner.
    pub(crate) fn internal_transfer(
        &mut self,
        sender_id: &AccountId,
        receiver_id: &AccountId,
        token_id: &TokenId,
        approval_id: Option<u64>,
        memo: Option<String>,
    ) -> (moved: Result<(Token, NftTransferLog), LedgerError>)
        requires
            old(self)@.wf(),
        ensures
            final(self)@.wf(),
            match moved {
                Ok((previous, log)) => {
                    &&& old(self)@.transfer_error(sender_id@, receiver_id@, token_id@, approval_id)
                        is None
                    &&& final(self)@ == old(self)@.transferred(token_id@, receiver_id@)
                    &&& previous@ == old(self)@.token_by_id[token_id@]
                    &&& log@ == transfer_log(
                        if approval_id is Some {
                            Some(sender_id@)
                        } else {
                            None
                        },
                        previous@.owner_id,
                        receiver_id@,
                        token_id@,
                        memo.deep_view(),
                    )
                },
                Err(e) => {
                    &&& old(self)@.transfer_error(sender_id@, receiver_id@, token_id@, approval_id)
                        == Some(e)
                    &&& final(self)@ == old(self)@
                },
            },
    {
        if let Err(e) = self.check_transfer(sender_id, receiver_id, token_id, approval_id) {
            return Err(e);
        }
        let token = match self.token_by_id.get(token_id) {
            Some(token) => token.duplicate(),
            None => {
                return Err(LedgerError::TokenNotFound);
            },
        };
        proof {
            lemma_with_record_wf(
                self@,
                token_id@,
                TokenView {
                    owner_id: receiver_id@,
                    approved_account_ids: Map::empty(),
                    next_approval_id: 0,
                    ..self@.token_by_id[token_id@]
                },
            );
        }
        self.internal_remove_token_from_owner(&token.owner_id, token_id);
        self.internal_add_token_to_owner(receiver_id, token_id);
        let new_token = Token {
            series_id: token.series_id,
            owner_id: receiver_id.clone(),
            approved_account_ids: AssocMap::new(),
            next_approval_id: 0,
            royalty: token.royalty.duplicate(),
        };
        self.token_by_id.insert(token_id.clone(), new_token);
        let authorized_id = if approval_id.is_some() {
            Some(sender_id.as_str().to_owned())
        } else {
            None
        };
        let mut token_ids: Vec<String> = Vec::new();
        token_ids.push(token_id.clone());
        let log = NftTransferLog {
            authorized_id,
            old_owner_id: token.owner_id.as_str().to_owned(),
            new_owner_id: receiver_id.as_str().to_owned(),
            token_ids,
            memo,
        };
        proof {
            assert(log.token_ids.deep_view() =~= seq![token_id@]);
            assert(self@.token_by_id =~= old(self)@.transferred(token_id@, receiver_id@).token_by_id);
        }
        Ok((token, log))
    }
}

} // verus!
