//! Approvals: the right that an owner gives another account to move one of
//! its tokens.
use crate::account::AccountId;
use crate::collections::Duplicate;
use crate::context::{CallContext, CallContextView, Payment};
use crate::contract::{valid_royalty, Contract, ContractView};
use crate::errors::LedgerError;
use crate::internal::{
    approved_account_bytes, bytes_for_approved_account_id, capped_cost, refund_approved_account_ids,
    refund_approved_account_ids_iter, refund_deposit, released_bytes, released_bytes_of,
    storage_cost,
};
use crate::metadata::{Token, TokenId, TokenView};
use crate::sums::lemma_sum_over_empty;
use crate::theorems::Operation;
use vstd::prelude::*;

verus! {

/// What the grantee of an approval is told, where the owner gave a message
/// for it.
pub struct ApprovalNotification {
    /// The grantee: the account to notify.
    pub receiver_id: AccountId,
    pub token_id: TokenId,
    pub owner_id: AccountId,
    pub approval_id: u64,
    pub msg: String,
}

/// What became of a request for an approval.
pub struct Approval {
    /// The number of the approval.
    pub approval_id: u64,
    /// What goes back to the caller of what it paid.
    pub refund: u128,
    /// What the grantee is to be told, if anything.
    pub notification: Option<ApprovalNotification>,
}

impl ContractView {
    /// Whether `account_id` holds an approval for the token: the one with
    /// the number `approval_id` where a number is given, any where none is.
    pub open spec fn is_approved(
        self,
        token_id: Seq<char>,
        account_id: Seq<char>,
        approval_id: Option<u64>,
    ) -> bool {
        let approved = self.token_by_id[token_id].approved_account_ids;
        approved.contains_key(account_id) && (match approval_id {
            Some(id) => approved[account_id] == id,
            None => true,
        })
    }

    /// The bytes that an approval of `account_id` adds to the token: none
    /// where the account holds an approval already.
    pub open spec fn approval_bytes_added(self, token_id: Seq<char>, account_id: Seq<char>) -> nat {
        if self.token_by_id[token_id].approved_account_ids.contains_key(account_id) {
            0
        } else {
            approved_account_bytes(account_id)
        }
    }

    /// Why the caller cannot approve `account_id` for the token, if it
    /// cannot.
    pub open spec fn approve_error(
        self,
        ctx: CallContextView,
        token_id: Seq<char>,
        account_id: Seq<char>,
    ) -> Option<LedgerError> {
        if ctx.attached_deposit != 1 {
            Some(LedgerError::PaymentRequired)
        } else if !self.token_by_id.contains_key(token_id) {
            Some(LedgerError::TokenNotFound)
        } else if ctx.predecessor_account_id != self.token_by_id[token_id].owner_id {
            Some(LedgerError::NotOwner)
        } else if self.token_by_id[token_id].next_approval_id == u64::MAX {
            Some(LedgerError::Overflow)
        } else if storage_cost(self.approval_bytes_added(token_id, account_id), ctx.storage_byte_cost)
            > ctx.attached_deposit {
            Some(
                LedgerError::InsufficientCollateral {
                    required: capped_cost(
                        self.approval_bytes_added(token_id, account_id),
                        ctx.storage_byte_cost,
                    ),
                    available: ctx.attached_deposit,
                },
            )
        } else {
            None
        }
    }

    /// The ledger after `account_id` got the next approval for the token.
    pub open spec fn approved(self, token_id: Seq<char>, account_id: Seq<char>) -> ContractView {
        let token = self.token_by_id[token_id];
        ContractView {
            token_by_id: self.token_by_id.insert(
                token_id,
                TokenView {
                    approved_account_ids: token.approved_account_ids.insert(
                        account_id,
                        token.next_approval_id,
                    ),
                    next_approval_id: (token.next_approval_id + 1) as u64,
                    ..token
                },
            ),
            ..self
        }
    }

    /// Why the caller cannot take the approval of `account_id` back, if it
    /// cannot.
    pub open spec fn revoke_error(
        self,
        ctx: CallContextView,
        token_id: Seq<char>,
        account_id: Seq<char>,
    ) -> Option<LedgerError> {
        if ctx.attached_deposit != 1 {
            Some(LedgerError::PaymentRequired)
        } else if !self.token_by_id.contains_key(token_id) {
            Some(LedgerError::TokenNotFound)
        } else if ctx.predecessor_account_id != self.token_by_id[token_id].owner_id {
            Some(LedgerError::NotOwner)
        } else if self.token_by_id[token_id].approved_account_ids.contains_key(account_id)
            && storage_cost(approved_account_bytes(account_id), ctx.storage_byte_cost) > u128::MAX {
            Some(LedgerError::Overflow)
        } else {
            None
        }
    }

    /// The ledger after the approval of `account_id` for the token was
    /// taken back.
    pub open spec fn revoked(self, token_id: Seq<char>, account_id: Seq<char>) -> ContractView {
        let token = self.token_by_id[token_id];
        ContractView {
            token_by_id: self.token_by_id.insert(
                token_id,
                TokenView {
                    approved_account_ids: token.approved_account_ids.remove(account_id),
                    ..token
                },
            ),
            ..self
        }
    }

    /// Why the caller cannot take all approvals for the token back, if it
    /// cannot.
    pub open spec fn revoke_all_error(self, ctx: CallContextView, token_id: Seq<char>) -> Option<
        LedgerError,
    > {
        if ctx.attached_deposit != 1 {
            Some(LedgerError::PaymentRequired)
        } else if !self.token_by_id.contains_key(token_id) {
            Some(LedgerError::TokenNotFound)
        } else if ctx.predecessor_account_id != self.token_by_id[token_id].owner_id {
            Some(LedgerError::NotOwner)
        } else if storage_cost(
            released_bytes(self.token_by_id[token_id].approved_account_ids.dom()),
            ctx.storage_byte_cost,
        ) > u128::MAX {
            Some(LedgerError::Overflow)
        } else {
            None
        }
    }

    /// The ledger after all approvals for the token were taken back.
    pub open spec fn revoked_all(self, token_id: Seq<char>) -> ContractView {
        let token = self.token_by_id[token_id];
        ContractView {
            token_by_id: self.token_by_id.insert(
                token_id,
                TokenView { approved_account_ids: Map::empty(), ..token },
            ),
            ..self
        }
    }
}

/// A new record for a token keeps the ledger in order where owner and
/// royalty stay and the approvals are finitely many.
pub proof fn lemma_token_updated_wf(s: ContractView, token_id: Seq<char>, token: TokenView)
    requires
        s.wf(),
        s.token_by_id.contains_key(token_id),
        token.owner_id == s.token_by_id[token_id].owner_id,
        token.royalty == s.token_by_id[token_id].royalty,
        token.approved_account_ids.dom().finite(),
    ensures
        (ContractView { token_by_id: s.token_by_id.insert(token_id, token), ..s }).wf(),
{
    let after = ContractView { token_by_id: s.token_by_id.insert(token_id, token), ..s };
    assert forall|t: Seq<char>| #[trigger] after.token_by_id.contains_key(t) implies {
        &&& after.token_per_owner.contains_key(after.token_by_id[t].owner_id)
        &&& after.token_per_owner[after.token_by_id[t].owner_id].contains(t)
        &&& after.token_metadata_by_id.contains_key(t)
        &&& valid_royalty(after.token_by_id[t].royalty)
        &&& after.token_by_id[t].approved_account_ids.dom().finite()
    } by {
        assert(s.token_by_id.contains_key(t));
    }
    assert forall|a: Seq<char>, t: Seq<char>|
        after.token_per_owner.contains_key(a) && #[trigger] after.token_per_owner[a].contains(
            t,
        ) implies after.token_by_id.contains_key(t) && after.token_by_id[t].owner_id == a by {
        assert(s.token_per_owner.contains_key(a) && s.token_per_owner[a].contains(t));
    }
}

/// The approvals of a token.
pub trait NonFungibleTokenCore: View<V = ContractView> + Sized {
    /// Gives `account_id` the right to move the token, under the next
    /// number of the token's approvals. Only the owner can do so, in a call
    /// that comes with exactly one unit of the base currency; an approval of
    /// an account that has none yet is paid for by its bytes.
    fn nft_approve(
        &mut self,
        ctx: &CallContext,
        token_id: TokenId,
        account_id: AccountId,
        msg: Option<String>,
    ) -> (granted: Result<Approval, LedgerError>)
        requires
            old(self)@.wf(),
        ensures
            final(self)@.wf(),
            final(self)@ == old(self)@.step(
                Operation::Approve { ctx: ctx@, token_id: token_id@, account_id: account_id@ },
            ),
            match granted {
                Ok(approval) => {
                    &&& old(self)@.approve_error(ctx@, token_id@, account_id@) is None
                    &&& final(self)@ == old(self)@.approved(token_id@, account_id@)
                    &&& approval.approval_id == old(self)@.token_by_id[token_id@].next_approval_id
                    &&& approval.refund == ctx.attached_deposit - storage_cost(
                        old(self)@.approval_bytes_added(token_id@, account_id@),
                        ctx.storage_byte_cost,
                    )
                    &&& match approval.notification {
                        Some(n) => {
                            &&& msg matches Some(m) && n.msg@ == m@
                            &&& n.receiver_id@ == account_id@
                            &&& n.token_id@ == token_id@
                            &&& n.owner_id@ == old(self)@.token_by_id[token_id@].owner_id
                            &&& n.approval_id == approval.approval_id
                        },
                        None => msg is None,
                    }
                },
                Err(e) => {
                    &&& old(self)@.approve_error(ctx@, token_id@, account_id@) == Some(e)
                    &&& final(self)@ == old(self)@
                },
            },
    ;

    /// Whether `account_id` holds an approval for the token: the one with
    /// the number `approval_id` where a number is given, any where none is.
    fn nft_is_approved(
        &self,
        token_id: TokenId,
        account_id: AccountId,
        approval_id: Option<u64>,
    ) -> (answer: Result<bool, LedgerError>)
        ensures
            match answer {
                Ok(approved) => {
                    &&& self@.token_by_id.contains_key(token_id@)
                    &&& approved == self@.is_approved(token_id@, account_id@, approval_id)
                },
                Err(e) => e == LedgerError::TokenNotFound && !self@.token_by_id.contains_key(token_id@),
            },
    ;

    /// Takes the approval of `account_id` for the token back, and pays the
    /// caller the price of the bytes that it took. Where the account holds no
    /// approval, nothing changes and nothing is paid.
    fn nft_revoke(&mut self, ctx: &CallContext, token_id: TokenId, account_id: AccountId) -> (paid:
        Result<Option<Payment>, LedgerError>)
        requires
            old(self)@.wf(),
        ensures
            final(self)@.wf(),
            final(self)@ == old(self)@.step(
                Operation::Revoke { ctx: ctx@, token_id: token_id@, account_id: account_id@ },
            ),
            match paid {
                Ok(payment) => {
                    &&& old(self)@.revoke_error(ctx@, token_id@, account_id@) is None
                    &&& final(self)@ == old(self)@.revoked(token_id@, account_id@)
                    &&& match payment {
                        Some(p) => {
                            &&& old(self)@.is_approved(token_id@, account_id@, None)
                            &&& p.receiver_id@ == ctx@.predecessor_account_id
                            &&& p.amount == storage_cost(
                                approved_account_bytes(account_id@),
                                ctx.storage_byte_cost,
                            )
                        },
                        None => !old(self)@.is_approved(token_id@, account_id@, None),
                    }
                },
                Err(e) => {
                    &&& old(self)@.revoke_error(ctx@, token_id@, account_id@) == Some(e)
                    &&& final(self)@ == old(self)@
                },
            },
    ;

    /// Takes all approvals for the token back, and pays the caller the price
    /// of the bytes that they took. Where there is no approval, nothing
    /// changes and nothing is paid.
    fn nft_revoke_all(&mut self, ctx: &CallContext, token_id: TokenId) -> (paid: Result<
        Option<Payment>,
        LedgerError,
    >)
        requires
            old(self)@.wf(),
        ensures
            final(self)@.wf(),
            final(self)@ == old(self)@.step(Operation::RevokeAll { ctx: ctx@, token_id: token_id@ }),
            match paid {
                Ok(payment) => {
                    &&& old(self)@.revoke_all_error(ctx@, token_id@) is None
                    &&& final(self)@ == old(self)@.revoked_all(token_id@)
                    &&& match payment {
                        Some(p) => {
                            &&& old(self)@.token_by_id[token_id@].approved_account_ids.len() > 0
                            &&& p.receiver_id@ == ctx@.predecessor_account_id
                            &&& p.amount == storage_cost(
                                released_bytes(
                                    old(self)@.token_by_id[token_id@].approved_account_ids.dom(),
                                ),
                                ctx.storage_byte_cost,
                            )
                        },
                        None => old(self)@.token_by_id[token_id@].approved_account_ids.len() == 0,
                    }
                },
                Err(e) => {
                    &&& old(self)@.revoke_all_error(ctx@, token_id@) == Some(e)
                    &&& final(self)@ == old(self)@
                },
            },
    ;
}

impl Contract {
    /// The record of the token, if the caller owns it and paid the one unit
    /// that a change of approvals takes.
    fn token_of_caller(&self, ctx: &CallContext, token_id: &TokenId) -> (found: Result<Token, LedgerError>)
        ensures
            match found {
                Ok(token) => {
                    &&& ctx.attached_deposit == 1
                    &&& self@.token_by_id.contains_key(token_id@)
                    &&& token@ == self@.token_by_id[token_id@]
                    &&& token@.owner_id == ctx@.predecessor_account_id
                },
                Err(e) => e == (if ctx.attached_deposit != 1 {
                    LedgerError::PaymentRequired
                } else if !self@.token_by_id.contains_key(token_id@) {
                    LedgerError::TokenNotFound
                } else {
                    LedgerError::NotOwner
                }) && !(ctx.attached_deposit == 1 && self@.token_by_id.contains_key(token_id@)
                    && self@.token_by_id[token_id@].owner_id == ctx@.predecessor_account_id),
            },
    {
        if ctx.attached_deposit != 1 {
            return Err(LedgerError::PaymentRequired);
        }
        let token = match self.token_by_id.get(token_id) {
            Some(token) => token.duplicate(),
            None => {
                return Err(LedgerError::TokenNotFound);
            },
        };
        if !ctx.predecessor_account_id.same_as(&token.owner_id) {
            return Err(LedgerError::NotOwner);
        }
        Ok(token)
    }
}

impl NonFungibleTokenCore for Contract {
    fn nft_approve(
        &mut self,
        ctx: &CallContext,
        token_id: TokenId,
        account_id: AccountId,
        msg: Option<String>,
    ) -> (granted: Result<Approval, LedgerError>) {
        let mut token = match self.token_of_caller(ctx, &token_id) {
            Ok(token) => token,
            Err(e) => {
                return Err(e);
            },
        };
        let approval_id: u64 = token.next_approval_id;
        if approval_id == u64::MAX {
            return Err(LedgerError::Overflow);
        }
        let is_new_approval = !token.approved_account_ids.contains_key(&account_id);
        let storage_used: u64 = if is_new_approval {
            bytes_for_approved_account_id(&account_id)
        } else {
            0
        };
        let refund = match refund_deposit(storage_used, ctx) {
            Ok(refund) => refund,
            Err(e) => {
                return Err(e);
            },
        };
        token.approved_account_ids.keys_are_domain();
        token.approved_account_ids.insert(account_id.clone(), approval_id);
        token.next_approval_id = approval_id + 1;
        let owner_id = token.owner_id.clone();
        proof {
            lemma_token_updated_wf(self@, token_id@, token@);
        }
        self.token_by_id.insert(token_id.clone(), token);
        let notification = match msg {
            Some(msg) => Some(
                ApprovalNotification { receiver_id: account_id, token_id, owner_id, approval_id, msg },
            ),
            None => None,
        };
        Ok(Approval { approval_id, refund, notification })
    }

    fn nft_is_approved(
        &self,
        token_id: TokenId,
        account_id: AccountId,
        approval_id: Option<u64>,
    ) -> (answer: Result<bool, LedgerError>) {
        let token = match self.token_by_id.get(&token_id) {
            Some(token) => token,
            None => {
                return Err(LedgerError::TokenNotFound);
            },
        };
        match token.approved_account_ids.get(&account_id) {
            Some(approval) => match approval_id {
                Some(approval_id) => Ok(approval_id == *approval),
                None => Ok(true),
            },
            None => Ok(false),
        }
    }

    fn nft_revoke(&mut self, ctx: &CallContext, token_id: TokenId, account_id: AccountId) -> (paid:
        Result<Option<Payment>, LedgerError>) {
        let mut token = match self.token_of_caller(ctx, &token_id) {
            Ok(token) => token,
            Err(e) => {
                return Err(e);
            },
        };
        if !token.approved_account_ids.contains_key(&account_id) {
            proof {
                assert(token@.approved_account_ids.remove(account_id@) =~= token@.approved_account_ids);
                assert(self@.token_by_id =~= self@.revoked(token_id@, account_id@).token_by_id);
            }
            return Ok(None);
        }
        let mut revoked: Vec<AccountId> = Vec::new();
        revoked.push(account_id);
        proof {
            let ids = revoked@.map_values(|a: AccountId| a@);
            assert(ids.drop_last().len() == 0);
            assert(released_bytes_of(ids) == approved_account_bytes(ids.last())) by {
                reveal_with_fuel(released_bytes_of, 2);
            }
        }
        let payment = match refund_approved_account_ids_iter(
            ctx.predecessor_account_id.clone(),
            revoked.as_slice(),
            ctx.storage_byte_cost,
        ) {
            Ok(payment) => payment,
            Err(e) => {
                return Err(e);
            },
        };
        token.approved_account_ids.keys_are_domain();
        token.approved_account_ids.remove(&revoked[0]);
        proof {
            lemma_token_updated_wf(self@, token_id@, token@);
        }
        self.token_by_id.insert(token_id, token);
        Ok(Some(payment))
    }

    fn nft_revoke_all(&mut self, ctx: &CallContext, token_id: TokenId) -> (paid: Result<
        Option<Payment>,
        LedgerError,
    >) {
        let mut token = match self.token_of_caller(ctx, &token_id) {
            Ok(token) => token,
            Err(e) => {
                return Err(e);
            },
        };
        if token.approved_account_ids.is_empty() {
            proof {
                lemma_sum_over_empty(
                    |account_id: Seq<char>| approved_account_bytes(account_id),
                );
                assert(token@.approved_account_ids.dom() =~= Set::<Seq<char>>::empty());
                assert(released_bytes(token@.approved_account_ids.dom()) == 0);
                assert(storage_cost(0, ctx.storage_byte_cost) == 0) by (nonlinear_arith);
                assert(token@.approved_account_ids =~= Map::<Seq<char>, u64>::empty());
                assert(self@.token_by_id =~= self@.revoked_all(token_id@).token_by_id);
            }
            return Ok(None);
        }
        let payment = match refund_approved_account_ids(
            ctx.predecessor_account_id.clone(),
            &token.approved_account_ids,
            ctx.storage_byte_cost,
        ) {
            Ok(payment) => payment,
            Err(e) => {
                return Err(e);
            },
        };
        token.approved_account_ids.clear();
        proof {
            lemma_token_updated_wf(self@, token_id@, token@);
        }
        self.token_by_id.insert(token_id, token);
        Ok(Some(payment))
    }
}

} // verus!
