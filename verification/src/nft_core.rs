//! Transfers: moving a token to another account, with or without asking the
//! receiver, and settling a transfer once the receiver has answered.
use crate::account::AccountId;
use crate::collections::{AssocMap, Duplicate};
use crate::context::{CallContext, CallContextView, Payment};
use crate::contract::{Contract, ContractView};
use crate::errors::LedgerError;
use crate::events::NftTransferLog;
use crate::internal::{
    lemma_with_record_wf, refund_approved_account_ids, released_bytes, storage_cost, transfer_log,
};
use crate::metadata::{duplicate_text, JsonToken, JsonTokenView, TokenId, TokenView};
use crate::theorems::Operation;
use vstd::prelude::*;

verus! {

/// How a call to another contract ended.
pub enum PromiseResult {
    /// The call has not ended.
    NotReady,
    /// The call returned these bytes.
    Successful(Vec<u8>),
    /// The call failed.
    Failed,
}

/// A space, a line feed, a tabulator or a carriage return.
pub open spec fn is_json_whitespace(b: u8) -> bool {
    b == 0x20 || b == 0x0a || b == 0x09 || b == 0x0d
}

/// `bytes` are the bytes of `word`, with nothing but whitespace before and
/// after them.
pub open spec fn is_json_word(bytes: Seq<u8>, word: Seq<u8>) -> bool {
    exists|start: int|
        {
            &&& 0 <= start
            &&& start + word.len() <= bytes.len()
            &&& #[trigger] bytes.subrange(start, start + word.len()) == word
            &&& forall|i: int| 0 <= i < start ==> is_json_whitespace(#[trigger] bytes[i])
            &&& forall|i: int|
                start + word.len() <= i < bytes.len() ==> is_json_whitespace(#[trigger] bytes[i])
        }
}

/// The truth value that `bytes` spell in JSON, if they spell one: `true` or
/// `false`, with nothing but whitespace around it.
pub open spec fn json_bool(bytes: Seq<u8>) -> Option<bool> {
    if is_json_word(bytes, seq![0x74u8, 0x72u8, 0x75u8, 0x65u8]) {
        Some(true)
    } else if is_json_word(bytes, seq![0x66u8, 0x61u8, 0x6cu8, 0x73u8, 0x65u8]) {
        Some(false)
    } else {
        None
    }
}

/// The error with which `serde_json` refuses bytes. The library looks at
/// nothing in it.
#[verifier::external_type_specification]
#[verifier::external_body]
pub struct ExJsonError(near_sdk::serde_json::Error);

/// Calls `near_sdk::serde_json::from_slice` for a `bool`. It skips
/// whitespace, reads `true` or `false`, and fails where anything but
/// whitespace follows: it decodes exactly what [`json_bool`] describes.
#[verifier::external_body]
fn bool_from_json(value: &[u8]) -> (decoded: Result<bool, near_sdk::serde_json::Error>)
    ensures
        match decoded {
            Ok(b) => json_bool(value@) == Some(b),
            Err(_) => json_bool(value@) is None,
        },
{
    near_sdk::serde_json::from_slice::<bool>(value)
}

/// Whether the receiver's answer leaves the token with the receiver: only
/// an answer that spells `false` does. Any other answer, and a call that
/// failed or has not ended, asks for the token to go back.
pub open spec fn receiver_keeps_token(result: PromiseResult) -> bool {
    result matches PromiseResult::Successful(value) && json_bool(value@) == Some(false)
}

/// Whether the receiver's answer leaves the token with the receiver.
pub fn reply_keeps_token(result: &PromiseResult) -> (keeps: bool)
    ensures
        keeps == receiver_keeps_token(*result),
{
    match result {
        PromiseResult::Successful(value) => {
            match bool_from_json(value.as_slice()) {
                Ok(return_token) => !return_token,
                Err(_) => false,
            }
        },
        _ => false,
    }
}

/// What became of a transfer.
pub struct Transfer {
    /// What the previous owner gets back for the approvals that ended.
    pub refund: Payment,
    /// What the log is to tell.
    pub event: NftTransferLog,
}

/// What became of a transfer that asks the receiver: whom to ask, and what
/// to settle the transfer with once the answer is there.
pub struct TransferCall {
    /// The account to ask.
    pub receiver_id: AccountId,
    pub sender_id: AccountId,
    pub previous_owner_id: AccountId,
    pub token_id: TokenId,
    pub msg: String,
    /// The sender, where it is not the previous owner.
    pub authorized_id: Option<String>,
    /// The approvals that the token had.
    pub approved_account_ids: AssocMap<AccountId, u64>,
    pub memo: Option<String>,
    /// What the log is to tell.
    pub event: NftTransferLog,
}

/// What became of a transfer after the receiver's answer.
pub struct Resolution {
    /// Whether the token stays where the transfer put it.
    pub transferred: bool,
    /// What is paid for the approvals that ended.
    pub refund: Payment,
    /// What the log is to tell, where the token went back.
    pub event: Option<NftTransferLog>,
}

impl ContractView {
    /// Why the caller cannot move the token to `receiver_id`, if it cannot.
    pub open spec fn nft_transfer_error(
        self,
        ctx: CallContextView,
        receiver_id: Seq<char>,
        token_id: Seq<char>,
        approval_id: Option<u64>,
    ) -> Option<LedgerError> {
        if ctx.attached_deposit != 1 {
            Some(LedgerError::PaymentRequired)
        } else if self.transfer_error(ctx.predecessor_account_id, receiver_id, token_id, approval_id)
            is Some {
            self.transfer_error(ctx.predecessor_account_id, receiver_id, token_id, approval_id)
        } else if storage_cost(
            released_bytes(self.token_by_id[token_id].approved_account_ids.dom()),
            ctx.storage_byte_cost,
        ) > u128::MAX {
            Some(LedgerError::Overflow)
        } else {
            None
        }
    }

    /// Why the caller cannot move the token to `receiver_id` and ask it, if
    /// it cannot.
    pub open spec fn nft_transfer_call_error(
        self,
        ctx: CallContextView,
        receiver_id: Seq<char>,
        token_id: Seq<char>,
        approval_id: Option<u64>,
    ) -> Option<LedgerError> {
        if ctx.attached_deposit != 1 {
            Some(LedgerError::PaymentRequired)
        } else {
            self.transfer_error(ctx.predecessor_account_id, receiver_id, token_id, approval_id)
        }
    }

    /// Whether the token goes back when a transfer to `receiver_id` is
    /// settled: the receiver must not have asked to keep it, and must own it
    /// still.
    pub open spec fn goes_back(self, receiver_id: Seq<char>, token_id: Seq<char>, keeps: bool) -> bool {
        &&& !keeps
        &&& self.token_by_id.contains_key(token_id)
        &&& self.token_by_id[token_id].owner_id == receiver_id
    }

    /// The ledger after the token went back to `owner_id` with the approvals
    /// that it had.
    pub open spec fn returned(
        self,
        owner_id: Seq<char>,
        token_id: Seq<char>,
        approved_account_ids: Map<Seq<char>, u64>,
    ) -> ContractView {
        self.with_record(
            token_id,
            TokenView { owner_id, approved_account_ids, ..self.token_by_id[token_id] },
        )
    }

    /// The ledger after a transfer to `receiver_id` was settled.
    pub open spec fn resolved(
        self,
        owner_id: Seq<char>,
        receiver_id: Seq<char>,
        token_id: Seq<char>,
        approved_account_ids: Map<Seq<char>, u64>,
        keeps: bool,
    ) -> ContractView {
        if self.goes_back(receiver_id, token_id, keeps) {
            self.returned(owner_id, token_id, approved_account_ids)
        } else {
            self
        }
    }

    /// The approvals that end when a transfer to `receiver_id` is settled:
    /// those that the receiver gave where the token goes back, and else those
    /// that the token had before the transfer.
    pub open spec fn resolved_approvals(
        self,
        receiver_id: Seq<char>,
        token_id: Seq<char>,
        approved_account_ids: Map<Seq<char>, u64>,
        keeps: bool,
    ) -> Set<Seq<char>> {
        if self.goes_back(receiver_id, token_id, keeps) {
            self.token_by_id[token_id].approved_account_ids.dom()
        } else {
            approved_account_ids.dom()
        }
    }

    /// Why a transfer cannot be settled, if it cannot: only the ledger
    /// itself can settle one.
    pub open spec fn resolve_error(
        self,
        ctx: CallContextView,
        receiver_id: Seq<char>,
        token_id: Seq<char>,
        approved_account_ids: Map<Seq<char>, u64>,
        keeps: bool,
    ) -> Option<LedgerError> {
        if ctx.predecessor_account_id != ctx.current_account_id {
            Some(LedgerError::Unauthorized)
        } else if storage_cost(
            released_bytes(
                self.resolved_approvals(receiver_id, token_id, approved_account_ids, keeps),
            ),
            ctx.storage_byte_cost,
        ) > u128::MAX {
            Some(LedgerError::Overflow)
        } else {
            None
        }
    }

    /// The token as it is shown to the outside.
    pub open spec fn json_token(self, token_id: Seq<char>) -> JsonTokenView {
        JsonTokenView {
            series_id: self.token_by_id[token_id].series_id,
            token_id,
            owner_id: self.token_by_id[token_id].owner_id,
            metadata: self.token_metadata_by_id[token_id],
            approved_account_ids: self.token_by_id[token_id].approved_account_ids,
            royalty: self.token_by_id[token_id].royalty,
        }
    }
}

/// Transfers of a token.
pub trait NonFungibleTokenCore: View<V = ContractView> + Sized {
    /// Moves the token to `receiver_id`. The caller must own the token or
    /// hold an approval for it, the one with the number `approval_id` where
    /// a number is given, and the call must come with exactly one unit of the
    /// base currency. The approvals of the token end, and the previous owner
    /// is paid the price of the bytes that they took.
    fn nft_transfer(
        &mut self,
        ctx: &CallContext,
        receiver_id: AccountId,
        token_id: TokenId,
        memo: Option<String>,
        approval_id: Option<u64>,
    ) -> (moved: Result<Transfer, LedgerError>)
        requires
            old(self)@.wf(),
        ensures
            final(self)@.wf(),
            final(self)@ == old(self)@.step(
                Operation::Transfer {
                    ctx: ctx@,
                    receiver_id: receiver_id@,
                    token_id: token_id@,
                    approval_id,
                },
            ),
            match moved {
                Ok(transfer) => {
                    &&& old(self)@.nft_transfer_error(ctx@, receiver_id@, token_id@, approval_id)
                        is None
                    &&& final(self)@ == old(self)@.transferred(token_id@, receiver_id@)
                    &&& transfer.refund.receiver_id@ == old(self)@.token_by_id[token_id@].owner_id
                    &&& transfer.refund.amount == storage_cost(
                        released_bytes(old(self)@.token_by_id[token_id@].approved_account_ids.dom()),
                        ctx.storage_byte_cost,
                    )
                    &&& transfer.event@ == transfer_log(
                        if approval_id is Some {
                            Some(ctx@.predecessor_account_id)
                        } else {
                            None
                        },
                        old(self)@.token_by_id[token_id@].owner_id,
                        receiver_id@,
                        token_id@,
                        memo.deep_view(),
                    )
                },
                Err(e) => {
                    &&& old(self)@.nft_transfer_error(ctx@, receiver_id@, token_id@, approval_id)
                        == Some(e)
                    &&& final(self)@ == old(self)@
                },
            },
    ;

    /// Moves the token to `receiver_id` as [`Self::nft_transfer`] does, and
    /// hands back what the receiver is to be asked and what the transfer is
    /// to be settled with. Nothing is paid for the approvals that ended
    /// until the transfer is settled.
    fn nft_transfer_call(
        &mut self,
        ctx: &CallContext,
        receiver_id: AccountId,
        token_id: TokenId,
        memo: Option<String>,
        msg: String,
        approval_id: Option<u64>,
    ) -> (moved: Result<TransferCall, LedgerError>)
        requires
            old(self)@.wf(),
        ensures
            final(self)@.wf(),
            final(self)@ == old(self)@.step(
                Operation::TransferCall {
                    ctx: ctx@,
                    receiver_id: receiver_id@,
                    token_id: token_id@,
                    approval_id,
                },
            ),
            match moved {
                Ok(call) => {
                    &&& old(self)@.nft_transfer_call_error(
                        ctx@,
                        receiver_id@,
                        token_id@,
                        approval_id,
                    ) is None
                    &&& final(self)@ == old(self)@.transferred(token_id@, receiver_id@)
                    &&& call.receiver_id@ == receiver_id@
                    &&& call.sender_id@ == ctx@.predecessor_account_id
                    &&& call.previous_owner_id@ == old(self)@.token_by_id[token_id@].owner_id
                    &&& call.token_id@ == token_id@
                    &&& call.msg@ == msg@
                    &&& call.authorized_id.deep_view() == (if ctx@.predecessor_account_id != old(
                        self,
                    )@.token_by_id[token_id@].owner_id {
                        Some(ctx@.predecessor_account_id)
                    } else {
                        None
                    })
                    &&& call.approved_account_ids@ == old(
                        self,
                    )@.token_by_id[token_id@].approved_account_ids
                    &&& call.memo.deep_view() == memo.deep_view()
                    &&& call.event@ == transfer_log(
                        if approval_id is Some {
                            Some(ctx@.predecessor_account_id)
                        } else {
                            None
                        },
                        old(self)@.token_by_id[token_id@].owner_id,
                        receiver_id@,
                        token_id@,
                        memo.deep_view(),
                    )
                },
                Err(e) => {
                    &&& old(self)@.nft_transfer_call_error(
                        ctx@,
                        receiver_id@,
                        token_id@,
                        approval_id,
                    ) == Some(e)
                    &&& final(self)@ == old(self)@
                },
            },
    ;

    /// The token as it is shown to the outside, if there is such a token.
    fn nft_token(&self, token_id: TokenId) -> (shown: Option<JsonToken>)
        requires
            self@.wf(),
        ensures
            match shown {
                Some(token) => self@.token_by_id.contains_key(token_id@) && token@
                    == self@.json_token(token_id@),
                None => !self@.token_by_id.contains_key(token_id@),
            },
    ;
}

impl NonFungibleTokenCore for Contract {
    fn nft_transfer(
        &mut self,
        ctx: &CallContext,
        receiver_id: AccountId,
        token_id: TokenId,
        memo: Option<String>,
        approval_id: Option<u64>,
    ) -> (moved: Result<Transfer, LedgerError>) {
        if ctx.attached_deposit != 1 {
            return Err(LedgerError::PaymentRequired);
        }
        let sender_id = ctx.predecessor_account_id.clone();
        if let Err(e) = self.check_transfer(&sender_id, &receiver_id, &token_id, approval_id) {
            return Err(e);
        }
        let refund = match self.token_by_id.get(&token_id) {
            Some(token) => match refund_approved_account_ids(
                token.owner_id.clone(),
                &token.approved_account_ids,
                ctx.storage_byte_cost,
            ) {
                Ok(refund) => refund,
                Err(e) => {
                    return Err(e);
                },
            },
            None => {
                return Err(LedgerError::TokenNotFound);
            },
        };
        match self.internal_transfer(&sender_id, &receiver_id, &token_id, approval_id, memo) {
            Ok((_, event)) => Ok(Transfer { refund, event }),
            Err(e) => Err(e),
        }
    }

    fn nft_transfer_call(
        &mut self,
        ctx: &CallContext,
        receiver_id: AccountId,
        token_id: TokenId,
        memo: Option<String>,
        msg: String,
        approval_id: Option<u64>,
    ) -> (moved: Result<TransferCall, LedgerError>) {
        if ctx.attached_deposit != 1 {
            return Err(LedgerError::PaymentRequired);
        }
        let sender_id = ctx.predecessor_account_id.clone();
        let memo_copy = duplicate_text(&memo);
        let (previous_token, event) = match self.internal_transfer(
            &sender_id,
            &receiver_id,
            &token_id,
            approval_id,
            memo_copy,
        ) {
            Ok(moved) => moved,
            Err(e) => {
                return Err(e);
            },
        };
        let authorized_id = if !sender_id.same_as(&previous_token.owner_id) {
            Some(sender_id.as_str().to_owned())
        } else {
            None
        };
        Ok(
            TransferCall {
                receiver_id,
                sender_id,
                previous_owner_id: previous_token.owner_id,
                token_id,
                msg,
                authorized_id,
                approved_account_ids: previous_token.approved_account_ids,
                memo,
                event,
            },
        )
    }

    fn nft_token(&self, token_id: TokenId) -> (shown: Option<JsonToken>) {
        match self.token_by_id.get(&token_id) {
            Some(token) => {
                match self.token_metadata_by_id.get(&token_id) {
                    Some(metadata) => Some(
                        JsonToken {
                            series_id: token.series_id,
                            token_id,
                            owner_id: token.owner_id.clone(),
                            metadata: metadata.duplicate(),
                            approved_account_ids: token.approved_account_ids.duplicate(),
                            royalty: token.royalty.duplicate(),
                        },
                    ),
                    None => None,
                }
            },
            None => None,
        }
    }
}

impl Contract {
    /// Settles a transfer that asked the receiver, once the receiver's
    /// answer is there. Where the receiver asked to keep the token, or does
    /// not own it any more, the transfer stands, and the previous owner is
    /// paid for the approvals that the token had. Else the token goes back
    /// to `owner_id` with those approvals, and the receiver is paid for the
    /// approvals that it gave. Only the ledger itself can settle a transfer,
    /// and it is for the host to see that each transfer is settled once.
    pub fn nft_resolve_transfer(
        &mut self,
        ctx: &CallContext,
        authorized_id: Option<String>,
        owner_id: AccountId,
        receiver_id: AccountId,
        token_id: TokenId,
        approved_account_ids: AssocMap<AccountId, u64>,
        memo: Option<String>,
        promise_result: PromiseResult,
    ) -> (settled: Result<Resolution, LedgerError>)
        requires
            old(self)@.wf(),
        ensures
            final(self)@.wf(),
            ({
                let keeps = receiver_keeps_token(promise_result);
                let goes_back = old(self)@.goes_back(receiver_id@, token_id@, keeps);
                &&& final(self)@ == old(self)@.step(
                    Operation::ResolveTransfer {
                        ctx: ctx@,
                        owner_id: owner_id@,
                        receiver_id: receiver_id@,
                        token_id: token_id@,
                        approved_account_ids: approved_account_ids@,
                        keeps,
                    },
                )
                &&& match settled {
                    Ok(resolution) => {
                        &&& old(self)@.resolve_error(
                            ctx@,
                            receiver_id@,
                            token_id@,
                            approved_account_ids@,
                            keeps,
                        ) is None
                        &&& final(self)@ == old(self)@.resolved(
                            owner_id@,
                            receiver_id@,
                            token_id@,
                            approved_account_ids@,
                            keeps,
                        )
                        &&& resolution.transferred == !goes_back
                        &&& resolution.refund.receiver_id@ == (if goes_back {
                            receiver_id@
                        } else {
                            owner_id@
                        })
                        &&& resolution.refund.amount == storage_cost(
                            released_bytes(
                                old(self)@.resolved_approvals(
                                    receiver_id@,
                                    token_id@,
                                    approved_account_ids@,
                                    keeps,
                                ),
                            ),
                            ctx.storage_byte_cost,
                        )
                        &&& match resolution.event {
                            Some(event) => goes_back && event@ == transfer_log(
                                authorized_id.deep_view(),
                                receiver_id@,
                                owner_id@,
                                token_id@,
                                memo.deep_view(),
                            ),
                            None => !goes_back,
                        }
                    },
                    Err(e) => {
                        &&& old(self)@.resolve_error(
                            ctx@,
                            receiver_id@,
                            token_id@,
                            approved_account_ids@,
                            keeps,
                        ) == Some(e)
                        &&& final(self)@ == old(self)@
                    },
                }
            }),
    {
        if !ctx.predecessor_account_id.same_as(&ctx.current_account_id) {
            return Err(LedgerError::Unauthorized);
        }
        let keeps = reply_keeps_token(&promise_result);
        let mut token = match self.token_by_id.get(&token_id) {
            Some(token) => token.duplicate(),
            None => {
                return match refund_approved_account_ids(
                    owner_id,
                    &approved_account_ids,
                    ctx.storage_byte_cost,
                ) {
                    Ok(refund) => Ok(Resolution { transferred: true, refund, event: None }),
                    Err(e) => Err(e),
                };
            },
        };
        if keeps || !token.owner_id.same_as(&receiver_id) {
            return match refund_approved_account_ids(
                owner_id,
                &approved_account_ids,
                ctx.storage_byte_cost,
            ) {
                Ok(refund) => Ok(Resolution { transferred: true, refund, event: None }),
                Err(e) => Err(e),
            };
        }
        let refund = match refund_approved_account_ids(
            receiver_id.clone(),
            &token.approved_account_ids,
            ctx.storage_byte_cost,
        ) {
            Ok(refund) => refund,
            Err(e) => {
                return Err(e);
            },
        };
        approved_account_ids.keys_are_domain();
        token.owner_id = owner_id.clone();
        token.approved_account_ids = approved_account_ids;
        proof {
            lemma_with_record_wf(self@, token_id@, token@);
        }
        self.internal_remove_token_from_owner(&receiver_id, &token_id);
        self.internal_add_token_to_owner(&owner_id, &token_id);
        let mut token_ids: Vec<String> = Vec::new();
        token_ids.push(token_id.clone());
        self.token_by_id.insert(token_id, token);
        let event = NftTransferLog {
            authorized_id,
            old_owner_id: receiver_id.as_str().to_owned(),
            new_owner_id: owner_id.as_str().to_owned(),
            token_ids,
            memo,
        };
        proof {
            assert(event.token_ids.deep_view() =~= seq![token_id@]);
        }
        Ok(Resolution { transferred: false, refund, event: Some(event) })
    }
}

} // verus!
