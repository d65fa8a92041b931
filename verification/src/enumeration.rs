//! Counting and listing the tokens of the ledger.
use crate::account::AccountId;
use crate::contract::{Contract, ContractView};
use crate::metadata::JsonToken;
use crate::nft_core::NonFungibleTokenCore;
use vstd::prelude::*;

verus! {

/// The part of `items` that a page shows: from the place `from_index` on, at
/// most `limit` items.
pub open spec fn page<A>(items: Seq<A>, from_index: u128, limit: u128) -> Seq<A> {
    if from_index >= items.len() {
        Seq::<A>::empty()
    } else if from_index + limit >= items.len() {
        items.subrange(from_index as int, items.len() as int)
    } else {
        items.subrange(from_index as int, from_index + limit)
    }
}

impl ContractView {
    /// The tokens that `account_id` owns.
    pub open spec fn tokens_of(self, account_id: Seq<char>) -> Set<Seq<char>> {
        if self.token_per_owner.contains_key(account_id) {
            self.token_per_owner[account_id]
        } else {
            Set::empty()
        }
    }
}

impl Contract {
    /// The tokens of the ledger in the order in which they are listed. The
    /// order stays as long as the ledger is not changed.
    pub closed spec fn token_ids(&self) -> Seq<Seq<char>> {
        self.token_by_id.spec_keys()
    }

    /// The tokens of `account_id` in the order in which they are listed. The
    /// order stays as long as the ledger is not changed.
    pub closed spec fn token_ids_of(&self, account_id: Seq<char>) -> Seq<Seq<char>> {
        if self.token_per_owner@.contains_key(account_id) {
            self.token_per_owner.spec_value(account_id).spec_items()
        } else {
            Seq::empty()
        }
    }

    /// The number of tokens.
    pub fn nft_total_supply(&self) -> (supply: u128)
        ensures
            supply == self@.token_by_id.len(),
            supply == self.token_ids().len(),
            self.token_ids().no_duplicates(),
            self.token_ids().to_set() == self@.token_by_id.dom(),
    {
        self.token_by_id.keys_are_domain();
        self.token_by_id.len() as u128
    }

    /// The tokens from the place `from_index` on, at most `limit` of them.
    pub fn nft_tokens(&self, from_index: u128, limit: u128) -> (tokens: Vec<JsonToken>)
        requires
            self@.wf(),
        ensures
            tokens@.len() == page(self.token_ids(), from_index, limit).len(),
            forall|i: int|
                0 <= i < tokens@.len() ==> (#[trigger] tokens@[i])@ == self@.json_token(
                    page(self.token_ids(), from_index, limit)[i],
                ),
    {
        let mut tokens: Vec<JsonToken> = Vec::new();
        let n = self.token_by_id.len();
        self.token_by_id.keys_are_domain();
        if from_index >= n as u128 {
            return tokens;
        }
        let start: usize = from_index as usize;
        let end: usize = if limit >= (n - start) as u128 {
            n
        } else {
            start + limit as usize
        };
        let mut i: usize = start;
        while i < end
            invariant
                start <= i <= end <= n,
                n == self.token_ids().len(),
                self@.wf(),
                tokens@.len() == i - start,
                forall|j: int|
                    0 <= j < tokens@.len() ==> (#[trigger] tokens@[j])@ == self@.json_token(
                        self.token_ids()[start + j],
                    ),
            decreases end - i,
        {
            let token_id = self.token_by_id.key_at(i);
            let shown = self.nft_token(token_id.clone());
            assert(shown is Some);
            if let Some(token) = shown {
                tokens.push(token);
            }
            i += 1;
        }
        tokens
    }

    /// The number of tokens that `account_id` owns.
    pub fn nft_supply_for_owner(&self, account_id: AccountId) -> (supply: u128)
        ensures
            supply == self@.tokens_of(account_id@).len(),
            supply == self.token_ids_of(account_id@).len(),
    {
        match self.token_per_owner.get(&account_id) {
            Some(tokens) => tokens.len() as u128,
            None => 0,
        }
    }

    /// The tokens of `account_id` from the place `from_index` on, at most
    /// `limit` of them.
    pub fn nft_tokens_for_owner(&self, account_id: AccountId, from_index: u128, limit: u128) -> (tokens:
        Vec<JsonToken>)
        requires
            self@.wf(),
        ensures
            tokens@.len() == page(self.token_ids_of(account_id@), from_index, limit).len(),
            forall|i: int|
                0 <= i < tokens@.len() ==> (#[trigger] tokens@[i])@ == self@.json_token(
                    page(self.token_ids_of(account_id@), from_index, limit)[i],
                ),
            self.token_ids_of(account_id@).no_duplicates(),
            self.token_ids_of(account_id@).to_set() == self@.tokens_of(account_id@),
    {
        let mut tokens: Vec<JsonToken> = Vec::new();
        let owned = match self.token_per_owner.get(&account_id) {
            Some(owned) => owned,
            None => {
                assert(self.token_ids_of(account_id@).to_set() =~= Set::<Seq<char>>::empty());
                return tokens;
            },
        };
        let n = owned.len();
        owned.items_are_members();
        if from_index >= n as u128 {
            return tokens;
        }
        let start: usize = from_index as usize;
        let end: usize = if limit >= (n - start) as u128 {
            n
        } else {
            start + limit as usize
        };
        let mut i: usize = start;
        while i < end
            invariant
                start <= i <= end <= n,
                n == owned.spec_items().len(),
                owned.spec_items().to_set() == owned@,
                owned@ == self@.token_per_owner[account_id@],
                self@.token_per_owner.contains_key(account_id@),
                self@.wf(),
                tokens@.len() == i - start,
                forall|j: int|
                    0 <= j < tokens@.len() ==> (#[trigger] tokens@[j])@ == self@.json_token(
                        owned.spec_items()[start + j],
                    ),
            decreases end - i,
        {
            let token_id = owned.item_at(i);
            let shown = self.nft_token(token_id.clone());
            assert(shown is Some);
            if let Some(token) = shown {
                tokens.push(token);
            }
            i += 1;
        }
        tokens
    }
}

} // verus!
