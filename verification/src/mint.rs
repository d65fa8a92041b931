//! Minting: bringing a token into the ledger.
use crate::account::AccountId;
use crate::collections::{AssocMap, Duplicate};
use crate::contract::{index_with, valid_royalty, Contract, ContractView};
use crate::errors::LedgerError;
use crate::metadata::{Token, TokenId, TokenMetadata, TokenMetadataView, TokenView};
use crate::sums::{lemma_sum_over_empty, lemma_sum_over_prefix, sum_over};
use crate::theorems::Operation;
use vstd::prelude::*;

verus! {

/// The record of a token that was just minted for `owner_id`.
pub open spec fn fresh_token(owner_id: Seq<char>, royalty: Map<Seq<char>, u32>) -> TokenView {
    TokenView {
        series_id: 0,
        owner_id,
        approved_account_ids: Map::empty(),
        next_approval_id: 0,
        royalty,
    }
}

impl ContractView {
    /// Why the token cannot be minted, if it cannot.
    pub open spec fn mint_error(self, token_id: Seq<char>, royalty: Map<Seq<char>, u32>) -> Option<
        LedgerError,
    > {
        if !valid_royalty(royalty) {
            Some(LedgerError::InvalidRoyalty)
        } else if self.token_by_id.contains_key(token_id) {
            Some(LedgerError::DuplicateToken)
        } else {
            None
        }
    }

    /// The ledger after the token was minted for `receiver_id`.
    pub open spec fn minted(
        self,
        token_id: Seq<char>,
        metadata: TokenMetadataView,
        receiver_id: Seq<char>,
        royalty: Map<Seq<char>, u32>,
    ) -> ContractView {
        ContractView {
            token_per_owner: index_with(self.token_per_owner, receiver_id, token_id),
            token_by_id: self.token_by_id.insert(token_id, fresh_token(receiver_id, royalty)),
            token_metadata_by_id: self.token_metadata_by_id.insert(token_id, metadata),
            ..self
        }
    }
}

/// Minting a token that is not there, with a valid royalty, keeps the ledger
/// in order.
pub proof fn lemma_minted_wf(
    s: ContractView,
    token_id: Seq<char>,
    metadata: TokenMetadataView,
    receiver_id: Seq<char>,
    royalty: Map<Seq<char>, u32>,
)
    requires
        s.wf(),
        s.mint_error(token_id, royalty) is None,
    ensures
        s.minted(token_id, metadata, receiver_id, royalty).wf(),
{
    let after = s.minted(token_id, metadata, receiver_id, royalty);
    assert(after.token_per_owner[receiver_id].contains(token_id));
    assert forall|t: Seq<char>| #[trigger] after.token_by_id.contains_key(t) implies {
        &&& after.token_per_owner.contains_key(after.token_by_id[t].owner_id)
        &&& after.token_per_owner[after.token_by_id[t].owner_id].contains(t)
        &&& after.token_metadata_by_id.contains_key(t)
        &&& valid_royalty(after.token_by_id[t].royalty)
        &&& after.token_by_id[t].approved_account_ids.dom().finite()
    } by {
        if t != token_id {
            assert(s.token_by_id.contains_key(t));
        }
    }
    assert forall|a: Seq<char>, t: Seq<char>|
        after.token_per_owner.contains_key(a) && #[trigger] after.token_per_owner[a].contains(
            t,
        ) implies after.token_by_id.contains_key(t) && after.token_by_id[t].owner_id == a by {
        if t != token_id {
            assert(s.token_per_owner.contains_key(a) && s.token_per_owner[a].contains(t));
        } else if a != receiver_id {
            assert(s.token_per_owner.contains_key(a) && s.token_per_owner[a].contains(t));
        }
    }
    assert forall|a: Seq<char>| #[trigger]
        after.token_per_owner.contains_key(a) implies after.token_per_owner[a] != Set::<
        Seq<char>,
    >::empty() by {
        if a != receiver_id {
            assert(s.token_per_owner.contains_key(a));
        }
    }
}

/// Whether the royalty has at most six entries whose shares do not add up to
/// more than the whole.
pub fn royalty_is_valid(royalty: &AssocMap<AccountId, u32>) -> (valid: bool)
    ensures
        valid == valid_royalty(royalty@),
{
    let n = royalty.len();
    if n > 6 {
        return false;
    }
    royalty.keys_are_domain();
    let ghost keys = royalty.spec_keys();
    let ghost share = |account_id: Seq<char>| royalty@[account_id] as nat;
    let mut total: u64 = 0;
    let mut i: usize = 0;
    proof {
        lemma_sum_over_empty(share);
        assert(keys.take(0).to_set() =~= Set::<Seq<char>>::empty());
    }
    while i < n
        invariant
            i <= n <= 6,
            n == keys.len(),
            keys == royalty.spec_keys(),
            keys.no_duplicates(),
            share == |account_id: Seq<char>| royalty@[account_id] as nat,
            total == sum_over(keys.take(i as int).to_set(), share),
            total <= 0xffff_ffff * i,
        decreases n - i,
    {
        let amount: u32 = *royalty.value_at(i);
        proof {
            lemma_sum_over_prefix(keys, i as int, share);
        }
        total = total + amount as u64;
        i += 1;
    }
    proof {
        assert(keys.take(n as int) =~= keys);
    }
    total <= 10000
}

impl Contract {
    /// Brings the token `token_id` into the ledger, owned by `receiver_id`,
    /// without approvals, and hands back its record. A token that is there
    /// cannot be minted again, and the royalty must be a valid one; no
    /// royalty at all is valid. What the token takes in storage is for the
    /// host to measure and to settle with
    /// [`refund_deposit`](crate::internal::refund_deposit): a token that is
    /// not paid for must not be kept.
    pub fn nft_mint(
        &mut self,
        token_id: TokenId,
        metadata: TokenMetadata,
        receiver_id: AccountId,
        perpetual_royalties: Option<AssocMap<AccountId, u32>>,
    ) -> (minted: Result<Token, LedgerError>)
        requires
            old(self)@.wf(),
        ensures
            final(self)@.wf(),
            perpetual_royalties is None ==> minted != Err::<Token, LedgerError>(
                LedgerError::InvalidRoyalty,
            ),
            ({
                let royalty = match perpetual_royalties {
                    Some(royalties) => royalties@,
                    None => Map::<Seq<char>, u32>::empty(),
                };
                &&& final(self)@ == old(self)@.step(
                    Operation::Mint {
                        token_id: token_id@,
                        metadata: metadata@,
                        receiver_id: receiver_id@,
                        royalty,
                    },
                )
                &&& match minted {
                    Ok(token) => {
                        &&& old(self)@.mint_error(token_id@, royalty) is None
                        &&& final(self)@ == old(self)@.minted(
                            token_id@,
                            metadata@,
                            receiver_id@,
                            royalty,
                        )
                        &&& token@ == fresh_token(receiver_id@, royalty)
                    },
                    Err(e) => {
                        &&& old(self)@.mint_error(token_id@, royalty) == Some(e)
                        &&& final(self)@ == old(self)@
                    },
                }
            }),
    {
        proof {
            lemma_sum_over_empty(
                |account_id: Seq<char>| Map::<Seq<char>, u32>::empty()[account_id] as nat,
            );
        }
        let royalty: AssocMap<AccountId, u32> = match perpetual_royalties {
            Some(royalties) => royalties,
            None => AssocMap::new(),
        };
        if !royalty_is_valid(&royalty) {
            return Err(LedgerError::InvalidRoyalty);
        }
        if self.token_by_id.contains_key(&token_id) {
            return Err(LedgerError::DuplicateToken);
        }
        let token = Token {
            series_id: 0,
            owner_id: receiver_id,
            approved_account_ids: AssocMap::new(),
            next_approval_id: 0,
            royalty,
        };
        proof {
            lemma_minted_wf(self@, token_id@, metadata@, token@.owner_id, token@.royalty);
        }
        let minted = token.duplicate();
        self.internal_add_token_to_owner(&token.owner_id, &token_id);
        self.token_metadata_by_id.insert(token_id.clone(), metadata);
        self.token_by_id.insert(token_id, token);
        Ok(minted)
    }
}

} // verus!
