//! What holds of the ledger whatever is done with it.
use crate::approval::lemma_token_updated_wf;
use crate::context::CallContextView;
use crate::contract::{
    index_with, index_without, lemma_deposited_wf, lemma_withdrawn_wf, sale_key, ContractView,
    STORAGE_PER_SALE,
};
use crate::internal::lemma_with_record_wf;
use crate::metadata::{
    NFTContractMetadataView, SaleArgs, SaleView, SeriesMetadataView, TokenMetadataView, TokenView,
    UserMetadataView,
};
use crate::mint::lemma_minted_wf;
use crate::sale::{lemma_listed_wf, lemma_unlisted_wf};
use crate::series::lemma_with_series_wf;
use vstd::prelude::*;

verus! {

/// One operation on the ledger, with what it is given.
#[allow(inconsistent_fields)]
pub enum Operation {
    Mint {
        token_id: Seq<char>,
        metadata: TokenMetadataView,
        receiver_id: Seq<char>,
        royalty: Map<Seq<char>, u32>,
    },
    Approve { ctx: CallContextView, token_id: Seq<char>, account_id: Seq<char> },
    Revoke { ctx: CallContextView, token_id: Seq<char>, account_id: Seq<char> },
    RevokeAll { ctx: CallContextView, token_id: Seq<char> },
    Transfer {
        ctx: CallContextView,
        receiver_id: Seq<char>,
        token_id: Seq<char>,
        approval_id: Option<u64>,
    },
    TransferCall {
        ctx: CallContextView,
        receiver_id: Seq<char>,
        token_id: Seq<char>,
        approval_id: Option<u64>,
    },
    ResolveTransfer {
        ctx: CallContextView,
        owner_id: Seq<char>,
        receiver_id: Seq<char>,
        token_id: Seq<char>,
        approved_account_ids: Map<Seq<char>, u64>,
        keeps: bool,
    },
    StorageDeposit { ctx: CallContextView, account_id: Option<Seq<char>> },
    StorageWithdraw { ctx: CallContextView },
    OnApprove {
        ctx: CallContextView,
        token_id: Seq<char>,
        owner_id: Seq<char>,
        approval_id: u64,
        sale_args: Option<SaleArgs>,
    },
    RemoveSale { nft_contract_id: Seq<char>, token_id: Seq<char> },
    CancelSale { ctx: CallContextView, nft_contract_id: Seq<char>, token_id: Seq<char> },
    TransferPayout {
        ctx: CallContextView,
        receiver_id: Seq<char>,
        token_id: Seq<char>,
        approval_id: Option<u64>,
        max_len_payout: u32,
    },
    CreateSeries { ctx: CallContextView, metadata: SeriesMetadataView },
    SetUserMetadata { owner_id: Seq<char>, metadata: UserMetadataView },
}

impl Operation {
    /// Whether the operation moves the token `token_id` to another owner.
    pub open spec fn moves(self, token_id: Seq<char>) -> bool {
        match self {
            Operation::Transfer { token_id: t, .. } => t == token_id,
            Operation::TransferCall { token_id: t, .. } => t == token_id,
            Operation::TransferPayout { token_id: t, .. } => t == token_id,
            Operation::ResolveTransfer { token_id: t, .. } => t == token_id,
            _ => false,
        }
    }
}

impl ContractView {
    /// The ledger after `op`: what the operation makes of it where it
    /// succeeds, and the ledger as it was where it fails.
    pub open spec fn step(self, op: Operation) -> ContractView {
        match op {
            Operation::Mint { token_id, metadata, receiver_id, royalty } => {
                if self.mint_error(token_id, royalty) is None {
                    self.minted(token_id, metadata, receiver_id, royalty)
                } else {
                    self
                }
            },
            Operation::Approve { ctx, token_id, account_id } => {
                if self.approve_error(ctx, token_id, account_id) is None {
                    self.approved(token_id, account_id)
                } else {
                    self
                }
            },
            Operation::Revoke { ctx, token_id, account_id } => {
                if self.revoke_error(ctx, token_id, account_id) is None {
                    self.revoked(token_id, account_id)
                } else {
                    self
                }
            },
            Operation::RevokeAll { ctx, token_id } => {
                if self.revoke_all_error(ctx, token_id) is None {
                    self.revoked_all(token_id)
                } else {
                    self
                }
            },
            Operation::Transfer { ctx, receiver_id, token_id, approval_id } => {
                if self.nft_transfer_error(ctx, receiver_id, token_id, approval_id) is None {
                    self.transferred(token_id, receiver_id)
                } else {
                    self
                }
            },
            Operation::TransferCall { ctx, receiver_id, token_id, approval_id } => {
                if self.nft_transfer_call_error(ctx, receiver_id, token_id, approval_id) is None {
                    self.transferred(token_id, receiver_id)
                } else {
                    self
                }
            },
            Operation::ResolveTransfer {
                ctx,
                owner_id,
                receiver_id,
                token_id,
                approved_account_ids,
                keeps,
            } => {
                if approved_account_ids.dom().finite() && self.resolve_error(
                    ctx,
                    receiver_id,
                    token_id,
                    approved_account_ids,
                    keeps,
                ) is None {
                    self.resolved(owner_id, receiver_id, token_id, approved_account_ids, keeps)
                } else {
                    self
                }
            },
            Operation::StorageDeposit { ctx, account_id } => {
                let storage_account_id = match account_id {
                    Some(a) => a,
                    None => ctx.predecessor_account_id,
                };
                if self.deposit_error(storage_account_id, ctx.attached_deposit) is None {
                    self.deposited(storage_account_id, ctx.attached_deposit)
                } else {
                    self
                }
            },
            Operation::StorageWithdraw { ctx } => {
                if ctx.attached_deposit == 1 {
                    self.withdrawn(ctx.predecessor_account_id)
                } else {
                    self
                }
            },
            Operation::OnApprove { ctx, token_id, owner_id, approval_id, sale_args } => {
                if self.listing_error(ctx, owner_id, sale_args) is None {
                    self.listed(
                        SaleView {
                            owner_id,
                            approval_id,
                            nft_contract_id: ctx.predecessor_account_id,
                            token_id,
                            sale_conditions: sale_args->0.sale_conditions,
                        },
                    )
                } else {
                    self
                }
            },
            Operation::RemoveSale { nft_contract_id, token_id } => {
                if self.sales.contains_key(sale_key(nft_contract_id, token_id)) {
                    self.unlisted(sale_key(nft_contract_id, token_id))
                } else {
                    self
                }
            },
            Operation::CancelSale { ctx, nft_contract_id, token_id } => {
                if self.remove_sale_error(ctx, sale_key(nft_contract_id, token_id)) is None {
                    self.unlisted(sale_key(nft_contract_id, token_id))
                } else {
                    self
                }
            },
            Operation::TransferPayout { ctx, receiver_id, token_id, approval_id, max_len_payout } => {
                if self.transfer_payout_error(
                    ctx,
                    receiver_id,
                    token_id,
                    approval_id,
                    max_len_payout,
                ) is None {
                    self.transferred(token_id, receiver_id)
                } else {
                    self
                }
            },
            Operation::CreateSeries { ctx, metadata } => {
                if self.create_series_error() is None {
                    self.with_series(ctx.predecessor_account_id, metadata)
                } else {
                    self
                }
            },
            Operation::SetUserMetadata { owner_id, metadata } => self.with_user_metadata(
                owner_id,
                metadata,
            ),
        }
    }
}

/// Every operation keeps the ledger in order. So what [`ContractView::wf`]
/// says holds at every point in time: each token is in the set of its owner
/// and in no other, and no account has deposited less than its listings
/// take.
pub proof fn theorem_step_keeps_order(s: ContractView, op: Operation)
    requires
        s.wf(),
    ensures
        s.step(op).wf(),
{
    match op {
        Operation::Mint { token_id, metadata, receiver_id, royalty } => {
            if s.mint_error(token_id, royalty) is None {
                lemma_minted_wf(s, token_id, metadata, receiver_id, royalty);
            }
        },
        Operation::Approve { ctx, token_id, account_id } => {
            if s.approve_error(ctx, token_id, account_id) is None {
                lemma_token_updated_wf(s, token_id, s.approved(token_id, account_id).token_by_id[token_id]);
            }
        },
        Operation::Revoke { ctx, token_id, account_id } => {
            if s.revoke_error(ctx, token_id, account_id) is None {
                lemma_token_updated_wf(s, token_id, s.revoked(token_id, account_id).token_by_id[token_id]);
            }
        },
        Operation::RevokeAll { ctx, token_id } => {
            if s.revoke_all_error(ctx, token_id) is None {
                lemma_token_updated_wf(s, token_id, s.revoked_all(token_id).token_by_id[token_id]);
            }
        },
        Operation::Transfer { ctx, receiver_id, token_id, approval_id } => {
            if s.nft_transfer_error(ctx, receiver_id, token_id, approval_id) is None {
                lemma_with_record_wf(s, token_id, s.transferred(token_id, receiver_id).token_by_id[token_id]);
            }
        },
        Operation::TransferCall { ctx, receiver_id, token_id, approval_id } => {
            if s.nft_transfer_call_error(ctx, receiver_id, token_id, approval_id) is None {
                lemma_with_record_wf(s, token_id, s.transferred(token_id, receiver_id).token_by_id[token_id]);
            }
        },
        Operation::ResolveTransfer {
            ctx,
            owner_id,
            receiver_id,
            token_id,
            approved_account_ids,
            keeps,
        } => {
            if approved_account_ids.dom().finite() && s.goes_back(receiver_id, token_id, keeps) {
                lemma_with_record_wf(
                    s,
                    token_id,
                    s.returned(owner_id, token_id, approved_account_ids).token_by_id[token_id],
                );
            }
        },
        Operation::StorageDeposit { ctx, account_id } => {
            let storage_account_id = match account_id {
                Some(a) => a,
                None => ctx.predecessor_account_id,
            };
            if s.deposit_error(storage_account_id, ctx.attached_deposit) is None {
                lemma_deposited_wf(s, storage_account_id, ctx.attached_deposit);
            }
        },
        Operation::StorageWithdraw { ctx } => {
            lemma_withdrawn_wf(s, ctx.predecessor_account_id);
        },
        Operation::OnApprove { ctx, token_id, owner_id, approval_id, sale_args } => {
            if s.listing_error(ctx, owner_id, sale_args) is None {
                lemma_listed_wf(
                    s,
                    SaleView {
                        owner_id,
                        approval_id,
                        nft_contract_id: ctx.predecessor_account_id,
                        token_id,
                        sale_conditions: sale_args->0.sale_conditions,
                    },
                );
            }
        },
        Operation::RemoveSale { nft_contract_id, token_id } => {
            if s.sales.contains_key(sale_key(nft_contract_id, token_id)) {
                lemma_unlisted_wf(s, sale_key(nft_contract_id, token_id));
            }
        },
        Operation::CancelSale { ctx, nft_contract_id, token_id } => {
            if s.remove_sale_error(ctx, sale_key(nft_contract_id, token_id)) is None {
                lemma_unlisted_wf(s, sale_key(nft_contract_id, token_id));
            }
        },
        Operation::TransferPayout { ctx, receiver_id, token_id, approval_id, max_len_payout } => {
            if s.transfer_payout_error(ctx, receiver_id, token_id, approval_id, max_len_payout)
                is None {
                lemma_with_record_wf(s, token_id, s.transferred(token_id, receiver_id).token_by_id[token_id]);
            }
        },
        Operation::CreateSeries { ctx, metadata } => {
            if s.create_series_error() is None {
                lemma_with_series_wf(s, ctx.predecessor_account_id, metadata);
            }
        },
        Operation::SetUserMetadata { owner_id, metadata } => {},
    }
}

impl ContractView {
    /// The ledger after the operations `ops`, one after the other.
    pub open spec fn run(self, ops: Seq<Operation>) -> ContractView
        decreases ops.len(),
    {
        if ops.len() == 0 {
            self
        } else {
            self.run(ops.drop_last()).step(ops.last())
        }
    }
}

/// Whatever is done with a ledger that is in order, it stays in order.
pub proof fn theorem_run_keeps_order(s: ContractView, ops: Seq<Operation>)
    requires
        s.wf(),
    ensures
        s.run(ops).wf(),
    decreases ops.len(),
{
    if ops.len() > 0 {
        theorem_run_keeps_order(s, ops.drop_last());
        theorem_step_keeps_order(s.run(ops.drop_last()), ops.last());
    }
}

/// A new ledger is in order, and so is every ledger that comes of it.
pub proof fn theorem_every_ledger_is_in_order(
    owner_id: Seq<char>,
    metadata: NFTContractMetadataView,
    ops: Seq<Operation>,
)
    ensures
        ContractView::empty(owner_id, metadata).run(ops).wf(),
{
    theorem_run_keeps_order(ContractView::empty(owner_id, metadata), ops);
}

/// In a ledger that is in order, the set of an account holds a token if and
/// only if the account owns the token.
pub proof fn theorem_owner_index_is_exact(s: ContractView, token_id: Seq<char>, account_id: Seq<char>)
    requires
        s.wf(),
        s.token_by_id.contains_key(token_id),
    ensures
        (s.token_per_owner.contains_key(account_id) && s.token_per_owner[account_id].contains(
            token_id,
        )) <==> account_id == s.token_by_id[token_id].owner_id,
{
}

/// The number of an approval is the token's counter, and the approval moves
/// the counter on by one: an approval that follows gets a greater number.
pub proof fn theorem_approval_takes_next_id(
    s: ContractView,
    ctx: CallContextView,
    token_id: Seq<char>,
    account_id: Seq<char>,
)
    requires
        s.approve_error(ctx, token_id, account_id) is None,
    ensures
        s.approved(token_id, account_id).token_by_id[token_id].approved_account_ids[account_id]
            == s.token_by_id[token_id].next_approval_id,
        s.approved(token_id, account_id).token_by_id[token_id].next_approval_id
            == s.token_by_id[token_id].next_approval_id + 1,
{
}

/// No operation takes a token's counter of approvals back, but one that
/// moves the token: as long as a token is not moved, each of its approvals
/// gets a greater number than every approval given before.
pub proof fn theorem_approval_counter_grows(s: ContractView, op: Operation, token_id: Seq<char>)
    requires
        s.wf(),
        s.token_by_id.contains_key(token_id),
        !op.moves(token_id),
    ensures
        s.step(op).token_by_id.contains_key(token_id),
        s.step(op).token_by_id[token_id].next_approval_id
            >= s.token_by_id[token_id].next_approval_id,
{
}

/// As long as a token is not moved, its counter of approvals does not go
/// back, whatever else is done.
pub proof fn theorem_approval_counter_never_falls(
    s: ContractView,
    ops: Seq<Operation>,
    token_id: Seq<char>,
)
    requires
        s.wf(),
        s.token_by_id.contains_key(token_id),
        forall|i: int| 0 <= i < ops.len() ==> !(#[trigger] ops[i]).moves(token_id),
    ensures
        s.run(ops).wf(),
        s.run(ops).token_by_id.contains_key(token_id),
        s.run(ops).token_by_id[token_id].next_approval_id
            >= s.token_by_id[token_id].next_approval_id,
    decreases ops.len(),
{
    if ops.len() > 0 {
        theorem_approval_counter_never_falls(s, ops.drop_last(), token_id);
        assert(!ops[ops.len() - 1].moves(token_id));
        theorem_approval_counter_grows(s.run(ops.drop_last()), ops.last(), token_id);
        theorem_step_keeps_order(s.run(ops.drop_last()), ops.last());
    }
}

/// Of two approvals of a token that is not moved between them, the later
/// one has the greater number, whatever else is done between them.
pub proof fn theorem_later_approval_has_greater_id(
    s: ContractView,
    first: CallContextView,
    first_account_id: Seq<char>,
    ops: Seq<Operation>,
    second: CallContextView,
    second_account_id: Seq<char>,
    token_id: Seq<char>,
)
    requires
        s.wf(),
        s.approve_error(first, token_id, first_account_id) is None,
        forall|i: int| 0 <= i < ops.len() ==> !(#[trigger] ops[i]).moves(token_id),
        s.approved(token_id, first_account_id).run(ops).approve_error(
            second,
            token_id,
            second_account_id,
        ) is None,
    ensures
        s.approved(token_id, first_account_id).run(ops).approved(
            token_id,
            second_account_id,
        ).token_by_id[token_id].approved_account_ids[second_account_id] > s.approved(
            token_id,
            first_account_id,
        ).token_by_id[token_id].approved_account_ids[first_account_id],
{
    let after_first = s.approved(token_id, first_account_id);
    lemma_token_updated_wf(s, token_id, after_first.token_by_id[token_id]);
    theorem_approval_counter_never_falls(after_first, ops, token_id);
}

/// A transfer ends the approvals of the token and sets its counter back:
/// the first approval after a transfer has the number 0.
pub proof fn theorem_transfer_resets_approvals(
    s: ContractView,
    token_id: Seq<char>,
    receiver_id: Seq<char>,
)
    requires
        s.token_by_id.contains_key(token_id),
    ensures
        s.transferred(token_id, receiver_id).token_by_id[token_id].owner_id == receiver_id,
        s.transferred(token_id, receiver_id).token_by_id[token_id].approved_account_ids
            == Map::<Seq<char>, u64>::empty(),
        s.transferred(token_id, receiver_id).token_by_id[token_id].next_approval_id == 0,
{
}

/// A transfer and a transfer back give the token its first owner again, but
/// not its approvals: the ledger is what it was, but for the record of the
/// token, which has no approvals and starts counting anew.
pub proof fn theorem_transfer_round_trip(s: ContractView, token_id: Seq<char>, receiver_id: Seq<char>)
    requires
        s.wf(),
        s.token_by_id.contains_key(token_id),
        s.token_by_id[token_id].owner_id != receiver_id,
    ensures
        s.transferred(token_id, receiver_id).transferred(
            token_id,
            s.token_by_id[token_id].owner_id,
        ) == (ContractView {
            token_by_id: s.token_by_id.insert(
                token_id,
                TokenView {
                    approved_account_ids: Map::empty(),
                    next_approval_id: 0,
                    ..s.token_by_id[token_id]
                },
            ),
            ..s
        }),
{
    let owner_id = s.token_by_id[token_id].owner_id;
    let there = s.transferred(token_id, receiver_id);
    let back = there.transferred(token_id, owner_id);
    lemma_index_round_trip(s, token_id, receiver_id);
    assert(back.token_by_id =~= s.token_by_id.insert(
        token_id,
        TokenView {
            approved_account_ids: Map::empty(),
            next_approval_id: 0,
            ..s.token_by_id[token_id]
        },
    ));
}

/// Moving a token to another account and back leaves the sets of the owners
/// as they were.
proof fn lemma_index_round_trip(s: ContractView, token_id: Seq<char>, receiver_id: Seq<char>)
    requires
        s.wf(),
        s.token_by_id.contains_key(token_id),
        s.token_by_id[token_id].owner_id != receiver_id,
    ensures
        index_with(
            index_without(
                index_with(
                    index_without(s.token_per_owner, s.token_by_id[token_id].owner_id, token_id),
                    receiver_id,
                    token_id,
                ),
                receiver_id,
                token_id,
            ),
            s.token_by_id[token_id].owner_id,
            token_id,
        ) == s.token_per_owner,
{
    let owner_id = s.token_by_id[token_id].owner_id;
    let index = s.token_per_owner;
    let left = index_without(index, owner_id, token_id);
    let there = index_with(left, receiver_id, token_id);
    let gone = index_without(there, receiver_id, token_id);
    let back = index_with(gone, owner_id, token_id);
    assert(index[owner_id].contains(token_id));
    assert(!(index.contains_key(receiver_id) && index[receiver_id].contains(token_id)));
    assert(there[receiver_id].remove(token_id) =~= if left.contains_key(receiver_id) {
        left[receiver_id]
    } else {
        Set::<Seq<char>>::empty()
    });
    if left.contains_key(receiver_id) {
        assert(index.contains_key(receiver_id));
        assert(left[receiver_id] == index[receiver_id]);
        assert(gone =~= left);
    } else {
        assert(gone =~= left);
    }
    assert(index[owner_id].remove(token_id).insert(token_id) =~= index[owner_id]);
    assert(back =~= index);
}

/// Where the receiver of a transfer did not ask to keep the token and owns
/// it still when the transfer is settled, the token goes back: its owner is
/// the owner that it had, and the set of the receiver does not hold it.
pub proof fn theorem_rejected_transfer_goes_back(
    s: ContractView,
    owner_id: Seq<char>,
    receiver_id: Seq<char>,
    token_id: Seq<char>,
    approved_account_ids: Map<Seq<char>, u64>,
)
    requires
        s.wf(),
        s.token_by_id.contains_key(token_id),
        s.token_by_id[token_id].owner_id == receiver_id,
        owner_id != receiver_id,
        approved_account_ids.dom().finite(),
    ensures
        ({
            let settled = s.resolved(owner_id, receiver_id, token_id, approved_account_ids, false);
            &&& settled.wf()
            &&& settled.token_by_id[token_id].owner_id == owner_id
            &&& settled.token_by_id[token_id].approved_account_ids == approved_account_ids
            &&& !(settled.token_per_owner.contains_key(receiver_id)
                && settled.token_per_owner[receiver_id].contains(token_id))
            &&& settled.token_per_owner[owner_id].contains(token_id)
        }),
{
    let settled = s.resolved(owner_id, receiver_id, token_id, approved_account_ids, false);
    lemma_with_record_wf(s, token_id, settled.token_by_id[token_id]);
}

/// Where the receiver of a transfer does not own the token any more when
/// the transfer is settled, settling it changes nothing, whatever the
/// receiver answered: the token stays with whoever holds it.
pub proof fn theorem_settling_leaves_third_party(
    s: ContractView,
    owner_id: Seq<char>,
    receiver_id: Seq<char>,
    token_id: Seq<char>,
    approved_account_ids: Map<Seq<char>, u64>,
    keeps: bool,
)
    requires
        !s.token_by_id.contains_key(token_id) || s.token_by_id[token_id].owner_id != receiver_id,
    ensures
        s.resolved(owner_id, receiver_id, token_id, approved_account_ids, keeps) == s,
{
}

/// Where the receiver of a transfer asked to keep the token, settling the
/// transfer changes nothing.
pub proof fn theorem_accepted_transfer_stands(
    s: ContractView,
    owner_id: Seq<char>,
    receiver_id: Seq<char>,
    token_id: Seq<char>,
    approved_account_ids: Map<Seq<char>, u64>,
)
    ensures
        s.resolved(owner_id, receiver_id, token_id, approved_account_ids, true) == s,
{
}

/// An account without listings that deposits and then withdraws gets back
/// all that it has deposited, and no entry stays: where it had nothing
/// deposited before, it gets back exactly what it put in, and the deposits
/// are what they were.
pub proof fn theorem_deposit_round_trip(s: ContractView, account_id: Seq<char>, amount: u128)
    requires
        s.wf(),
        s.listing_count(account_id) == 0,
        s.deposit_error(account_id, amount) is None,
    ensures
        s.deposited(account_id, amount).withdrawable(account_id) == s.balance_of(account_id)
            + amount,
        s.deposited(account_id, amount).withdrawn(account_id).balance_of(account_id) == 0,
        !s.storage_deposits.contains_key(account_id) ==> {
            &&& s.deposited(account_id, amount).withdrawable(account_id) == amount
            &&& s.deposited(account_id, amount).withdrawn(account_id) == s
        },
{
    let put = s.deposited(account_id, amount);
    assert(put.listing_count(account_id) == 0);
    assert(put.reserved(account_id) == 0);
    assert(amount >= STORAGE_PER_SALE);
    if !s.storage_deposits.contains_key(account_id) {
        assert(put.withdrawn(account_id).storage_deposits =~= s.storage_deposits);
    }
}

} // verus!
