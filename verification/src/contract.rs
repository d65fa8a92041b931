//! The ledger itself: its state, what holds of every state, and the
//! accounting of deposits.
use crate::account::AccountId;
use crate::collections::{AssocMap, AssocSet, Duplicate, MapKey};
use crate::context::{CallContext, Payment};
use crate::errors::LedgerError;
use crate::metadata::{
    Balance, NFTContractMetadata, NFTContractMetadataView, Sale, SaleView, Series, SeriesId,
    SeriesView, Token, TokenId, TokenMetadata, TokenMetadataView, TokenView, UserMetadata,
    UserMetadataView,
};
use crate::sums::sum_over;
use crate::theorems::Operation;
use vstd::prelude::*;

verus! {

/// The version of the metadata standard that the ledger follows.
pub const NFT_METADATA_SPEC: &'static str = "1.0.0";

/// The name of the standard that the ledger's events follow.
pub const NFT_STANDARD_NAME: &'static str = "nep171";

/// What an account must have deposited for each of its listings.
pub const STORAGE_PER_SALE: u128 = 10_000_000_000_000_000_000_000;

/// The ledger: the tokens with their owners and approvals, the deposits of
/// the accounts, and the listings of the marketplace.
pub struct Contract {
    pub(crate) owner_id: AccountId,
    pub(crate) token_per_owner: AssocMap<AccountId, AssocSet<TokenId>>,
    pub(crate) token_by_id: AssocMap<TokenId, Token>,
    pub(crate) token_metadata_by_id: AssocMap<TokenId, TokenMetadata>,
    pub(crate) user_metadata_by_owner: AssocMap<AccountId, UserMetadata>,
    pub(crate) metadata: NFTContractMetadata,
    pub(crate) series_by_id: AssocMap<SeriesId, Series>,
    pub(crate) series_per_owner: AssocMap<AccountId, AssocSet<SeriesId>>,
    pub(crate) storage_deposits: AssocMap<AccountId, Balance>,
    pub(crate) sale_by_owner: AssocMap<AccountId, AssocSet<TokenId>>,
    pub(crate) sales: AssocMap<TokenId, Sale>,
    pub(crate) by_nft_contract_id: AssocMap<AccountId, AssocSet<TokenId>>,
}

/// The mathematical value of the ledger.
pub struct ContractView {
    /// The account that set the ledger up.
    pub owner_id: Seq<char>,
    /// For each account that owns a token, the tokens that it owns.
    pub token_per_owner: Map<Seq<char>, Set<Seq<char>>>,
    /// The record of each token.
    pub token_by_id: Map<Seq<char>, TokenView>,
    pub token_metadata_by_id: Map<Seq<char>, TokenMetadataView>,
    pub user_metadata_by_owner: Map<Seq<char>, UserMetadataView>,
    pub metadata: NFTContractMetadataView,
    pub series_by_id: Map<u64, SeriesView>,
    pub series_per_owner: Map<Seq<char>, Set<u64>>,
    /// What each account has deposited for its listings.
    pub storage_deposits: Map<Seq<char>, u128>,
    /// For each account, the keys of the listings that it made.
    pub sale_by_owner: Map<Seq<char>, Set<Seq<char>>>,
    /// The listings, each under its key.
    pub sales: Map<Seq<char>, SaleView>,
    /// For each contract, the tokens of it that are listed.
    pub by_nft_contract_id: Map<Seq<char>, Set<Seq<char>>>,
}

impl View for Contract {
    type V = ContractView;

    open(crate) spec fn view(&self) -> ContractView {
        ContractView {
            owner_id: self.owner_id@,
            token_per_owner: self.token_per_owner@,
            token_by_id: self.token_by_id@,
            token_metadata_by_id: self.token_metadata_by_id@,
            user_metadata_by_owner: self.user_metadata_by_owner@,
            metadata: self.metadata@,
            series_by_id: self.series_by_id@,
            series_per_owner: self.series_per_owner@,
            storage_deposits: self.storage_deposits@,
            sale_by_owner: self.sale_by_owner@,
            sales: self.sales@,
            by_nft_contract_id: self.by_nft_contract_id@,
        }
    }
}

/// The index `index` after `item` was put under `owner`.
pub open spec fn index_with<T>(index: Map<Seq<char>, Set<T>>, owner: Seq<char>, item: T) -> Map<
    Seq<char>,
    Set<T>,
> {
    index.insert(
        owner,
        if index.contains_key(owner) {
            index[owner].insert(item)
        } else {
            Set::<T>::empty().insert(item)
        },
    )
}

/// The index `index` after `item` was taken from under `owner`: an owner
/// with nothing left leaves the index.
pub open spec fn index_without<T>(index: Map<Seq<char>, Set<T>>, owner: Seq<char>, item: T) -> Map<
    Seq<char>,
    Set<T>,
> {
    if !index.contains_key(owner) {
        index
    } else if index[owner].remove(item) == Set::<T>::empty() {
        index.remove(owner)
    } else {
        index.insert(owner, index[owner].remove(item))
    }
}

/// No owner in `index` has an empty set.
pub open spec fn no_empty_set<T>(index: Map<Seq<char>, Set<T>>) -> bool {
    forall|a: Seq<char>| #[trigger] index.contains_key(a) ==> index[a] != Set::<T>::empty()
}

/// The sum of the shares of a royalty, in basis points.
pub open spec fn royalty_total(royalty: Map<Seq<char>, u32>) -> nat {
    sum_over(royalty.dom(), |account_id: Seq<char>| royalty[account_id] as nat)
}

/// A royalty has at most six entries, and its shares do not add up to more
/// than the whole.
pub open spec fn valid_royalty(royalty: Map<Seq<char>, u32>) -> bool {
    &&& royalty.dom().finite()
    &&& royalty.len() <= 6
    &&& royalty_total(royalty) <= 10000
}

/// The key of the listing of `token_id` of the contract `nft_contract_id`.
pub open spec fn sale_key(nft_contract_id: Seq<char>, token_id: Seq<char>) -> Seq<char> {
    nft_contract_id + "."@ + token_id
}

impl ContractView {
    /// Each token is in the set of its owner and in no other set, and no
    /// account has an empty set.
    pub open spec fn tokens_indexed(self) -> bool {
        &&& forall|t: Seq<char>| #[trigger]
            self.token_by_id.contains_key(t) ==> {
                &&& self.token_per_owner.contains_key(self.token_by_id[t].owner_id)
                &&& self.token_per_owner[self.token_by_id[t].owner_id].contains(t)
            }
        &&& forall|a: Seq<char>, t: Seq<char>|
            self.token_per_owner.contains_key(a) && #[trigger] self.token_per_owner[a].contains(t)
                ==> self.token_by_id.contains_key(t) && self.token_by_id[t].owner_id == a
        &&& no_empty_set(self.token_per_owner)
    }

    /// Each token has metadata, a valid royalty and finitely many approvals.
    pub open spec fn tokens_valid(self) -> bool {
        forall|t: Seq<char>| #[trigger]
            self.token_by_id.contains_key(t) ==> {
                &&& self.token_metadata_by_id.contains_key(t)
                &&& valid_royalty(self.token_by_id[t].royalty)
                &&& self.token_by_id[t].approved_account_ids.dom().finite()
            }
    }

    /// Each listing stands under the key that its contract and token make,
    /// in the set of its owner and in the set of its contract; no account and
    /// no contract has an empty set.
    pub open spec fn sales_indexed(self) -> bool {
        &&& forall|k: Seq<char>| #[trigger]
            self.sales.contains_key(k) ==> {
                &&& k == sale_key(self.sales[k].nft_contract_id, self.sales[k].token_id)
                &&& self.sale_by_owner.contains_key(self.sales[k].owner_id)
                &&& self.sale_by_owner[self.sales[k].owner_id].contains(k)
                &&& self.by_nft_contract_id.contains_key(self.sales[k].nft_contract_id)
                &&& self.by_nft_contract_id[self.sales[k].nft_contract_id].contains(
                    self.sales[k].token_id,
                )
            }
        &&& forall|a: Seq<char>| #[trigger]
            self.sale_by_owner.contains_key(a) ==> self.sale_by_owner[a].finite()
        &&& no_empty_set(self.sale_by_owner)
        &&& no_empty_set(self.by_nft_contract_id)
    }

    /// The number of listings that `account_id` has made.
    pub open spec fn listing_count(self, account_id: Seq<char>) -> nat {
        if self.sale_by_owner.contains_key(account_id) {
            self.sale_by_owner[account_id].len()
        } else {
            0
        }
    }

    /// What `account_id` has deposited.
    pub open spec fn balance_of(self, account_id: Seq<char>) -> u128 {
        if self.storage_deposits.contains_key(account_id) {
            self.storage_deposits[account_id]
        } else {
            0
        }
    }

    /// The part of the deposit of `account_id` that its listings hold.
    pub open spec fn reserved(self, account_id: Seq<char>) -> nat {
        self.listing_count(account_id) * STORAGE_PER_SALE as nat
    }

    /// No account has deposited less than its listings take.
    pub open spec fn listings_covered(self) -> bool {
        forall|a: Seq<char>| #[trigger]
            self.sale_by_owner.contains_key(a) ==> self.reserved(a) <= self.balance_of(a)
    }

    /// Each series that an account is said to own is a series of the
    /// ledger.
    pub open spec fn series_indexed(self) -> bool {
        forall|a: Seq<char>, id: u64|
            self.series_per_owner.contains_key(a) && #[trigger] self.series_per_owner[a].contains(id)
                ==> self.series_by_id.contains_key(id)
    }

    /// What holds of the ledger between any two operations.
    pub open spec fn wf(self) -> bool {
        &&& self.tokens_indexed()
        &&& self.tokens_valid()
        &&& self.sales_indexed()
        &&& self.listings_covered()
        &&& self.series_indexed()
    }
}

/// Puts `item` under `owner` in `index`.
pub(crate) fn index_insert<T: MapKey>(
    index: &mut AssocMap<AccountId, AssocSet<T>>,
    owner: &AccountId,
    item: &T,
)
    ensures
        final(index)@ == index_with(old(index)@, owner@, item@),
{
    let mut items = match index.get(owner) {
        Some(items) => items.duplicate(),
        None => AssocSet::new(),
    };
    items.insert(item.duplicate());
    index.insert(owner.duplicate(), items);
}

/// Takes `item` from under `owner` in `index`.
pub(crate) fn index_remove<T: MapKey>(
    index: &mut AssocMap<AccountId, AssocSet<T>>,
    owner: &AccountId,
    item: &T,
)
    ensures
        final(index)@ == index_without(old(index)@, owner@, item@),
{
    let mut items = match index.get(owner) {
        Some(items) => items.duplicate(),
        None => {
            return ;
        },
    };
    items.remove(item);
    if items.is_empty() {
        index.remove(owner);
    } else {
        index.insert(owner.duplicate(), items);
    }
}

impl Contract {
    /// A ledger without tokens, deposits or listings, with the metadata that
    /// every ledger of this kind starts with.
    pub fn new_default(owner_id: AccountId) -> (contract: Contract)
        ensures
            contract@.wf(),
            contract@ == ContractView::empty(
                owner_id@,
                NFTContractMetadataView {
                    spec: "Pixicle_1.0"@,
                    name: "Pixicle"@,
                    symbol: "PIX"@,
                    icon: None,
                    base_uri: None,
                    reference: None,
                    reference_hash: None,
                },
            ),
    {
        Contract::new(
            owner_id,
            NFTContractMetadata {
                spec: "Pixicle_1.0".to_string(),
                name: "Pixicle".to_string(),
                symbol: "PIX".to_string(),
                icon: None,
                base_uri: None,
                reference: None,
                reference_hash: None,
            },
        )
    }

    /// A ledger without tokens, deposits or listings.
    pub fn new(owner_id: AccountId, metadata: NFTContractMetadata) -> (contract: Contract)
        ensures
            contract@.wf(),
            contract@ == ContractView::empty(owner_id@, metadata@),
    {
        Contract {
            owner_id,
            token_per_owner: AssocMap::new(),
            token_by_id: AssocMap::new(),
            token_metadata_by_id: AssocMap::new(),
            user_metadata_by_owner: AssocMap::new(),
            metadata,
            series_by_id: AssocMap::new(),
            series_per_owner: AssocMap::new(),
            storage_deposits: AssocMap::new(),
            sale_by_owner: AssocMap::new(),
            sales: AssocMap::new(),
            by_nft_contract_id: AssocMap::new(),
        }
    }
}

impl ContractView {
    /// The ledger of `owner_id` before anything was done with it.
    pub open spec fn empty(owner_id: Seq<char>, metadata: NFTContractMetadataView) -> ContractView {
        ContractView {
            owner_id,
            token_per_owner: Map::empty(),
            token_by_id: Map::empty(),
            token_metadata_by_id: Map::empty(),
            user_metadata_by_owner: Map::empty(),
            metadata,
            series_by_id: Map::empty(),
            series_per_owner: Map::empty(),
            storage_deposits: Map::empty(),
            sale_by_owner: Map::empty(),
            sales: Map::empty(),
            by_nft_contract_id: Map::empty(),
        }
    }
}

/// Reads `near_sdk::env::STORAGE_PRICE_PER_BYTE`, the constant that the host
/// library gives for the price of one byte: ten to the power of nineteen.
#[verifier::external_body]
fn storage_price_per_byte() -> (price: u128)
    ensures
        price == 10_000_000_000_000_000_000,
{
    near_sdk::env::STORAGE_PRICE_PER_BYTE
}

impl ContractView {
    /// Why the account cannot deposit `amount`, if it cannot.
    pub open spec fn deposit_error(self, account_id: Seq<char>, amount: u128) -> Option<LedgerError> {
        if amount < STORAGE_PER_SALE {
            Some(LedgerError::BelowMinimumDeposit)
        } else if self.balance_of(account_id) + amount > u128::MAX {
            Some(LedgerError::Overflow)
        } else {
            None
        }
    }

    /// The ledger after `account_id` has deposited `amount` more.
    pub open spec fn deposited(self, account_id: Seq<char>, amount: u128) -> ContractView {
        ContractView {
            storage_deposits: self.storage_deposits.insert(
                account_id,
                (self.balance_of(account_id) + amount) as u128,
            ),
            ..self
        }
    }

    /// What `account_id` can take back: its deposit without the part that
    /// its listings hold.
    pub open spec fn withdrawable(self, account_id: Seq<char>) -> int {
        self.balance_of(account_id) - self.reserved(account_id)
    }

    /// The ledger after `account_id` has taken back what it can: only what
    /// its listings hold stays, and where they hold nothing, no entry stays.
    pub open spec fn withdrawn(self, account_id: Seq<char>) -> ContractView {
        if self.withdrawable(account_id) <= 0 {
            self
        } else if self.reserved(account_id) == 0 {
            ContractView { storage_deposits: self.storage_deposits.remove(account_id), ..self }
        } else {
            ContractView {
                storage_deposits: self.storage_deposits.insert(
                    account_id,
                    self.reserved(account_id) as u128,
                ),
                ..self
            }
        }
    }
}

/// A deposit keeps the ledger in order.
pub proof fn lemma_deposited_wf(s: ContractView, account_id: Seq<char>, amount: u128)
    requires
        s.wf(),
        s.deposit_error(account_id, amount) is None,
    ensures
        s.deposited(account_id, amount).wf(),
{
    let after = s.deposited(account_id, amount);
    assert forall|a: Seq<char>| #[trigger] after.sale_by_owner.contains_key(a) implies after.reserved(
        a,
    ) <= after.balance_of(a) by {
        assert(s.sale_by_owner.contains_key(a));
        assert(after.reserved(a) == s.reserved(a));
    }
}

/// A withdrawal keeps the ledger in order.
pub proof fn lemma_withdrawn_wf(s: ContractView, account_id: Seq<char>)
    requires
        s.wf(),
    ensures
        s.withdrawn(account_id).wf(),
{
    let after = s.withdrawn(account_id);
    assert forall|a: Seq<char>| #[trigger] after.sale_by_owner.contains_key(a) implies after.reserved(
        a,
    ) <= after.balance_of(a) by {
        assert(s.sale_by_owner.contains_key(a));
        assert(after.reserved(a) == s.reserved(a));
        if a == account_id && s.withdrawable(account_id) > 0 && s.reserved(account_id) == 0 {
            let listings = s.sale_by_owner[a];
            assert(listings.finite() && listings != Set::<Seq<char>>::empty());
            if listings.len() == 0 {
                listings.lemma_len0_is_empty();
            }
            assert(listings.len() * STORAGE_PER_SALE as nat > 0) by (nonlinear_arith)
                requires
                    listings.len() > 0,
            ;
        }
    }
}

impl Contract {
    /// Adds what was paid along with the call to the deposit of `account_id`,
    /// or of the caller where no account is named. A deposit of less than one
    /// listing takes is refused.
    pub fn storage_deposit(&mut self, ctx: &CallContext, account_id: Option<AccountId>) -> (done:
        Result<(), LedgerError>)
        requires
            old(self)@.wf(),
        ensures
            final(self)@.wf(),
            final(self)@ == old(self)@.step(
                Operation::StorageDeposit {
                    ctx: ctx@,
                    account_id: match account_id {
                        Some(a) => Some(a@),
                        None => None,
                    },
                },
            ),
            ({
                let storage_account_id = match account_id {
                    Some(a) => a@,
                    None => ctx@.predecessor_account_id,
                };
                match done {
                    Ok(_) => {
                        &&& old(self)@.deposit_error(storage_account_id, ctx.attached_deposit)
                            is None
                        &&& final(self)@ == old(self)@.deposited(
                            storage_account_id,
                            ctx.attached_deposit,
                        )
                    },
                    Err(e) => {
                        &&& old(self)@.deposit_error(storage_account_id, ctx.attached_deposit)
                            == Some(e)
                        &&& final(self)@ == old(self)@
                    },
                }
            }),
    {
        let storage_account_id = match account_id {
            Some(a) => a,
            None => ctx.predecessor_account_id.clone(),
        };
        let deposit = ctx.attached_deposit;
        if deposit < self.storage_minimum_balance() {
            return Err(LedgerError::BelowMinimumDeposit);
        }
        let balance: u128 = match self.storage_deposits.get(&storage_account_id) {
            Some(b) => *b,
            None => 0,
        };
        match balance.checked_add(deposit) {
            Some(total) => {
                proof {
                    lemma_deposited_wf(self@, storage_account_id@, deposit);
                }
                self.storage_deposits.insert(storage_account_id, total);
                Ok(())
            },
            None => Err(LedgerError::Overflow),
        }
    }

    /// Hands the caller back what it has deposited beyond what its listings
    /// hold. Where there is nothing beyond that, nothing changes. The call
    /// must come with exactly one unit of the base currency.
    pub fn storage_withdraw(&mut self, ctx: &CallContext) -> (paid: Result<Option<Payment>, LedgerError>)
        requires
            old(self)@.wf(),
        ensures
            final(self)@.wf(),
            final(self)@ == old(self)@.step(Operation::StorageWithdraw { ctx: ctx@ }),
            match paid {
                Ok(payment) => {
                    &&& ctx.attached_deposit == 1
                    &&& final(self)@ == old(self)@.withdrawn(ctx@.predecessor_account_id)
                    &&& match payment {
                        Some(p) => {
                            &&& p.receiver_id@ == ctx@.predecessor_account_id
                            &&& p.amount == old(self)@.withdrawable(ctx@.predecessor_account_id)
                            &&& p.amount > 0
                        },
                        None => old(self)@.withdrawable(ctx@.predecessor_account_id) <= 0,
                    }
                },
                Err(e) => {
                    &&& ctx.attached_deposit != 1
                    &&& e == LedgerError::PaymentRequired
                    &&& final(self)@ == old(self)@
                },
            },
    {
        if ctx.attached_deposit != 1 {
            return Err(LedgerError::PaymentRequired);
        }
        let owner_id = ctx.predecessor_account_id.clone();
        let amount: u128 = match self.storage_deposits.get(&owner_id) {
            Some(b) => *b,
            None => 0,
        };
        let len: usize = match self.sale_by_owner.get(&owner_id) {
            Some(sales) => sales.len(),
            None => 0,
        };
        proof {
            lemma_withdrawn_wf(self@, owner_id@);
            assert(len == self@.listing_count(owner_id@));
        }
        let diff: u128 = match (len as u128).checked_mul(self.storage_minimum_balance()) {
            Some(diff) => diff,
            None => {
                return Ok(None);
            },
        };
        if amount <= diff {
            return Ok(None);
        }
        if diff > 0 {
            self.storage_deposits.insert(owner_id.clone(), diff);
        } else {
            self.storage_deposits.remove(&owner_id);
        }
        Ok(Some(Payment { receiver_id: owner_id, amount: amount - diff }))
    }

    /// What an account must deposit for one listing.
    pub fn storage_minimum_balance(&self) -> (amount: u128)
        ensures
            amount == STORAGE_PER_SALE,
    {
        1000 * storage_price_per_byte()
    }

    /// What `account_id` has deposited.
    pub fn storage_balance_of(&self, account_id: AccountId) -> (amount: u128)
        ensures
            amount == self@.balance_of(account_id@),
    {
        match self.storage_deposits.get(&account_id) {
            Some(b) => *b,
            None => 0,
        }
    }
}

} // verus!
