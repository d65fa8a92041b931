//! Taking the ledger apart and putting it together again, for a host that
//! keeps it between calls.
use crate::account::AccountId;
use crate::collections::{AssocMap, AssocSet, MapKey};
use crate::contract::{
    no_empty_set, sale_key, valid_royalty, Contract, ContractView, STORAGE_PER_SALE,
};
use crate::metadata::{
    Balance, NFTContractMetadata, Sale, Series, SeriesId, Token, TokenId, TokenMetadata,
    UserMetadata,
};
use crate::mint::royalty_is_valid;
use crate::sale::contract_and_token_id;
use vstd::prelude::*;

verus! {

/// The parts of a ledger. Whoever holds them can change them at will, so
/// they make a ledger again only where they are in order.
pub struct ContractParts {
    pub owner_id: AccountId,
    pub token_per_owner: AssocMap<AccountId, AssocSet<TokenId>>,
    pub token_by_id: AssocMap<TokenId, Token>,
    pub token_metadata_by_id: AssocMap<TokenId, TokenMetadata>,
    pub user_metadata_by_owner: AssocMap<AccountId, UserMetadata>,
    pub metadata: NFTContractMetadata,
    pub series_by_id: AssocMap<SeriesId, Series>,
    pub series_per_owner: AssocMap<AccountId, AssocSet<SeriesId>>,
    pub storage_deposits: AssocMap<AccountId, Balance>,
    pub sale_by_owner: AssocMap<AccountId, AssocSet<TokenId>>,
    pub sales: AssocMap<TokenId, Sale>,
    pub by_nft_contract_id: AssocMap<AccountId, AssocSet<TokenId>>,
}

impl View for ContractParts {
    type V = ContractView;

    open spec fn view(&self) -> ContractView {
        ContractView {
            owner_id: self.owner_id@,
            token_per_owner: self.token_per_owner@,
            token_by_id: self.token_by_id@,
            token_metadata_by_id: self.token_metadata_by_id@,
            user_metadata_by_owner: self.user_metadata_by_owner@,
            metadata: self.metadata@,
            series_by_id: self.series_by_id@,
            series_per_owner: self.series_per_owner@,
            storage_deposits: self.storage_deposits@,
            sale_by_owner: self.sale_by_owner@,
            sales: self.sales@,
            by_nft_contract_id: self.by_nft_contract_id@,
        }
    }
}

/// Whether `item` is in the set of `owner` in `index`.
pub fn index_holds<T: MapKey>(
    index: &AssocMap<AccountId, AssocSet<T>>,
    owner: &AccountId,
    item: &T,
) -> (held: bool)
    ensures
        held == (index@.contains_key(owner@) && index@[owner@].contains(item@)),
{
    match index.get(owner) {
        Some(items) => items.contains(item),
        None => false,
    }
}

/// Whether no owner in `index` has an empty set. The sets of an index are
/// finite in any case.
pub fn no_set_is_empty<T: MapKey>(index: &AssocMap<AccountId, AssocSet<T>>) -> (ok: bool)
    ensures
        ok == no_empty_set(index@),
        forall|a: Seq<char>| #[trigger] index@.contains_key(a) ==> index@[a].finite(),
{
    let n = index.len();
    index.keys_are_domain();
    let ghost keys = index.spec_keys();
    let mut ok = true;
    let mut i: usize = 0;
    while i < n
        invariant
            i <= n,
            n == keys.len(),
            keys == index.spec_keys(),
            keys.to_set() == index@.dom(),
            forall|j: int| 0 <= j < i ==> index@[#[trigger] keys[j]].finite(),
            ok == (forall|j: int| 0 <= j < i ==> index@[#[trigger] keys[j]] != Set::<T::V>::empty()),
        decreases n - i,
    {
        if index.value_at(i).is_empty() {
            ok = false;
        }
        i += 1;
    }
    proof {
        assert forall|a: Seq<char>| #[trigger] index@.contains_key(a) implies index@[a].finite() && (ok
            ==> index@[a] != Set::<T::V>::empty()) by {
            assert(keys.to_set().contains(a));
            let j = choose|j: int| 0 <= j < keys.len() && keys[j] == a;
            assert(index@[keys[j]].finite());
        }
        if !ok {
            let j = choose|j: int| 0 <= j < n && index@[#[trigger] keys[j]] == Set::<T::V>::empty();
            assert(index@.contains_key(keys[j]));
        }
    }
    ok
}

impl ContractParts {
    /// Whether each token has metadata and a valid royalty and is in the set
    /// of its owner.
    fn tokens_are_kept(&self) -> (ok: bool)
        ensures
            ok == (forall|t: Seq<char>| #[trigger]
                self@.token_by_id.contains_key(t) ==> {
                    &&& self@.token_per_owner.contains_key(self@.token_by_id[t].owner_id)
                    &&& self@.token_per_owner[self@.token_by_id[t].owner_id].contains(t)
                    &&& self@.token_metadata_by_id.contains_key(t)
                    &&& valid_royalty(self@.token_by_id[t].royalty)
                    &&& self@.token_by_id[t].approved_account_ids.dom().finite()
                }),
    {
        let n = self.token_by_id.len();
        self.token_by_id.keys_are_domain();
        let ghost keys = self.token_by_id.spec_keys();
        let mut i: usize = 0;
        while i < n
            invariant
                i <= n,
                n == keys.len(),
                keys == self.token_by_id.spec_keys(),
                keys.to_set() == self@.token_by_id.dom(),
                forall|j: int|
                    0 <= j < i ==> {
                        let t = #[trigger] keys[j];
                        &&& self@.token_per_owner.contains_key(self@.token_by_id[t].owner_id)
                        &&& self@.token_per_owner[self@.token_by_id[t].owner_id].contains(t)
                        &&& self@.token_metadata_by_id.contains_key(t)
                        &&& valid_royalty(self@.token_by_id[t].royalty)
                        &&& self@.token_by_id[t].approved_account_ids.dom().finite()
                    },
            decreases n - i,
        {
            let token_id = self.token_by_id.key_at(i);
            let token = self.token_by_id.value_at(i);
            token.approved_account_ids.keys_are_domain();
            if !index_holds(&self.token_per_owner, &token.owner_id, token_id)
                || !self.token_metadata_by_id.contains_key(token_id) || !royalty_is_valid(
                &token.royalty,
            ) {
                assert(self@.token_by_id.contains_key(keys[i as int]));
                return false;
            }
            i += 1;
        }
        proof {
            assert forall|t: Seq<char>| #[trigger] self@.token_by_id.contains_key(t) implies {
                &&& self@.token_per_owner.contains_key(self@.token_by_id[t].owner_id)
                &&& self@.token_per_owner[self@.token_by_id[t].owner_id].contains(t)
                &&& self@.token_metadata_by_id.contains_key(t)
                &&& valid_royalty(self@.token_by_id[t].royalty)
                &&& self@.token_by_id[t].approved_account_ids.dom().finite()
            } by {
                assert(keys.to_set().contains(t));
                let j = choose|j: int| 0 <= j < keys.len() && keys[j] == t;
                assert(keys[j] == t);
            }
        }
        true
    }

    /// Whether each token in the set of an account is a token of that
    /// account.
    fn owners_are_kept(&self) -> (ok: bool)
        ensures
            ok == (forall|a: Seq<char>, t: Seq<char>|
                self@.token_per_owner.contains_key(a) && #[trigger] self@.token_per_owner[a].contains(
                    t,
                ) ==> self@.token_by_id.contains_key(t) && self@.token_by_id[t].owner_id == a),
    {
        let n = self.token_per_owner.len();
        self.token_per_owner.keys_are_domain();
        let ghost keys = self.token_per_owner.spec_keys();
        let mut i: usize = 0;
        while i < n
            invariant
                i <= n,
                n == keys.len(),
                keys == self.token_per_owner.spec_keys(),
                keys.to_set() == self@.token_per_owner.dom(),
                forall|j: int, t: Seq<char>|
                    0 <= j < i && #[trigger] self@.token_per_owner[keys[j]].contains(t)
                        ==> self@.token_by_id.contains_key(t) && self@.token_by_id[t].owner_id
                        == keys[j],
            decreases n - i,
        {
            let account_id = self.token_per_owner.key_at(i);
            let tokens = self.token_per_owner.value_at(i);
            let m = tokens.len();
            tokens.items_are_members();
            let ghost items = tokens.spec_items();
            let mut k: usize = 0;
            while k < m
                invariant
                    k <= m,
                    m == items.len(),
                    items == tokens.spec_items(),
                    items.to_set() == tokens@,
                    i < n,
                    n == keys.len(),
                    keys == self.token_per_owner.spec_keys(),
                    account_id@ == keys[i as int],
                    tokens@ == self@.token_per_owner[keys[i as int]],
                    self@.token_per_owner.contains_key(keys[i as int]),
                    forall|l: int|
                        0 <= l < k ==> self@.token_by_id.contains_key(#[trigger] items[l])
                            && self@.token_by_id[items[l]].owner_id == account_id@,
                decreases m - k,
            {
                let token_id = tokens.item_at(k);
                let kept = match self.token_by_id.get(token_id) {
                    Some(token) => token.owner_id.same_as(account_id),
                    None => false,
                };
                if !kept {
                    assert(self@.token_per_owner[keys[i as int]].contains(items[k as int]));
                    return false;
                }
                k += 1;
            }
            proof {
                assert forall|t: Seq<char>| #[trigger]
                    self@.token_per_owner[keys[i as int]].contains(
                        t,
                    ) implies self@.token_by_id.contains_key(t) && self@.token_by_id[t].owner_id
                    == keys[i as int] by {
                    assert(items.to_set().contains(t));
                    let l = choose|l: int| 0 <= l < items.len() && items[l] == t;
                    assert(items[l] == t);
                }
            }
            i += 1;
        }
        proof {
            assert forall|a: Seq<char>, t: Seq<char>|
                self@.token_per_owner.contains_key(a) && #[trigger] self@.token_per_owner[a].contains(
                    t,
                ) implies self@.token_by_id.contains_key(t) && self@.token_by_id[t].owner_id
                == a by {
                assert(keys.to_set().contains(a));
                let j = choose|j: int| 0 <= j < keys.len() && keys[j] == a;
                assert(self@.token_per_owner[keys[j]].contains(t));
            }
        }
        true
    }

    /// Whether each listing stands under its key, in the set of its owner
    /// and in the set of its contract.
    fn sales_are_kept(&self) -> (ok: bool)
        ensures
            ok == (forall|k: Seq<char>| #[trigger]
                self@.sales.contains_key(k) ==> {
                    &&& k == sale_key(self@.sales[k].nft_contract_id, self@.sales[k].token_id)
                    &&& self@.sale_by_owner.contains_key(self@.sales[k].owner_id)
                    &&& self@.sale_by_owner[self@.sales[k].owner_id].contains(k)
                    &&& self@.by_nft_contract_id.contains_key(self@.sales[k].nft_contract_id)
                    &&& self@.by_nft_contract_id[self@.sales[k].nft_contract_id].contains(
                        self@.sales[k].token_id,
                    )
                }),
    {
        let n = self.sales.len();
        self.sales.keys_are_domain();
        let ghost keys = self.sales.spec_keys();
        let mut i: usize = 0;
        while i < n
            invariant
                i <= n,
                n == keys.len(),
                keys == self.sales.spec_keys(),
                keys.to_set() == self@.sales.dom(),
                forall|j: int|
                    0 <= j < i ==> {
                        let k = #[trigger] keys[j];
                        &&& k == sale_key(self@.sales[k].nft_contract_id, self@.sales[k].token_id)
                        &&& self@.sale_by_owner.contains_key(self@.sales[k].owner_id)
                        &&& self@.sale_by_owner[self@.sales[k].owner_id].contains(k)
                        &&& self@.by_nft_contract_id.contains_key(self@.sales[k].nft_contract_id)
                        &&& self@.by_nft_contract_id[self@.sales[k].nft_contract_id].contains(
                            self@.sales[k].token_id,
                        )
                    },
            decreases n - i,
        {
            let key = self.sales.key_at(i);
            let sale = self.sales.value_at(i);
            let expected = contract_and_token_id(&sale.nft_contract_id, &sale.token_id);
            if *key != expected || !index_holds(&self.sale_by_owner, &sale.owner_id, key)
                || !index_holds(&self.by_nft_contract_id, &sale.nft_contract_id, &sale.token_id) {
                assert(self@.sales.contains_key(keys[i as int]));
                return false;
            }
            i += 1;
        }
        proof {
            assert forall|k: Seq<char>| #[trigger] self@.sales.contains_key(k) implies {
                &&& k == sale_key(self@.sales[k].nft_contract_id, self@.sales[k].token_id)
                &&& self@.sale_by_owner.contains_key(self@.sales[k].owner_id)
                &&& self@.sale_by_owner[self@.sales[k].owner_id].contains(k)
                &&& self@.by_nft_contract_id.contains_key(self@.sales[k].nft_contract_id)
                &&& self@.by_nft_contract_id[self@.sales[k].nft_contract_id].contains(
                    self@.sales[k].token_id,
                )
            } by {
                assert(keys.to_set().contains(k));
                let j = choose|j: int| 0 <= j < keys.len() && keys[j] == k;
                assert(keys[j] == k);
            }
        }
        true
    }

    /// Whether each account has deposited what its listings take.
    fn listings_are_covered(&self) -> (ok: bool)
        ensures
            ok == self@.listings_covered(),
    {
        let n = self.sale_by_owner.len();
        self.sale_by_owner.keys_are_domain();
        let ghost keys = self.sale_by_owner.spec_keys();
        let mut i: usize = 0;
        while i < n
            invariant
                i <= n,
                n == keys.len(),
                keys == self.sale_by_owner.spec_keys(),
                keys.to_set() == self@.sale_by_owner.dom(),
                forall|j: int| 0 <= j < i ==> self@.reserved(#[trigger] keys[j]) <= self@.balance_of(keys[j]),
            decreases n - i,
        {
            let account_id = self.sale_by_owner.key_at(i);
            let listings: usize = self.sale_by_owner.value_at(i).len();
            let balance: u128 = match self.storage_deposits.get(account_id) {
                Some(balance) => *balance,
                None => 0,
            };
            let covered = match (listings as u128).checked_mul(STORAGE_PER_SALE) {
                Some(reserved) => reserved <= balance,
                None => false,
            };
            if !covered {
                assert(self@.sale_by_owner.contains_key(keys[i as int]));
                assert(self@.reserved(keys[i as int]) > self@.balance_of(keys[i as int]));
                return false;
            }
            i += 1;
        }
        proof {
            assert forall|a: Seq<char>| #[trigger] self@.sale_by_owner.contains_key(a) implies self@.reserved(
                a,
            ) <= self@.balance_of(a) by {
                assert(keys.to_set().contains(a));
                let j = choose|j: int| 0 <= j < keys.len() && keys[j] == a;
                assert(keys[j] == a);
            }
        }
        true
    }

    /// Whether each series in the set of an account is a series of the
    /// ledger.
    fn series_are_kept(&self) -> (ok: bool)
        ensures
            ok == self@.series_indexed(),
    {
        let n = self.series_per_owner.len();
        self.series_per_owner.keys_are_domain();
        let ghost keys = self.series_per_owner.spec_keys();
        let mut i: usize = 0;
        while i < n
            invariant
                i <= n,
                n == keys.len(),
                keys == self.series_per_owner.spec_keys(),
                keys.to_set() == self@.series_per_owner.dom(),
                forall|j: int, id: u64|
                    0 <= j < i && #[trigger] self@.series_per_owner[keys[j]].contains(id)
                        ==> self@.series_by_id.contains_key(id),
            decreases n - i,
        {
            let owned = self.series_per_owner.value_at(i);
            let m = owned.len();
            owned.items_are_members();
            let ghost items = owned.spec_items();
            let mut k: usize = 0;
            while k < m
                invariant
                    k <= m,
                    m == items.len(),
                    items == owned.spec_items(),
                    items.to_set() == owned@,
                    i < n,
                    n == keys.len(),
                    keys == self.series_per_owner.spec_keys(),
                    owned@ == self@.series_per_owner[keys[i as int]],
                    self@.series_per_owner.contains_key(keys[i as int]),
                    forall|l: int| 0 <= l < k ==> self@.series_by_id.contains_key(#[trigger] items[l]),
                decreases m - k,
            {
                if !self.series_by_id.contains_key(owned.item_at(k)) {
                    assert(self@.series_per_owner[keys[i as int]].contains(items[k as int]));
                    return false;
                }
                k += 1;
            }
            proof {
                assert forall|id: u64| #[trigger]
                    self@.series_per_owner[keys[i as int]].contains(
                        id,
                    ) implies self@.series_by_id.contains_key(id) by {
                    assert(items.to_set().contains(id));
                    let l = choose|l: int| 0 <= l < items.len() && items[l] == id;
                    assert(items[l] == id);
                }
            }
            i += 1;
        }
        proof {
            assert forall|a: Seq<char>, id: u64|
                self@.series_per_owner.contains_key(a) && #[trigger] self@.series_per_owner[a].contains(
                    id,
                ) implies self@.series_by_id.contains_key(id) by {
                assert(keys.to_set().contains(a));
                let j = choose|j: int| 0 <= j < keys.len() && keys[j] == a;
                assert(self@.series_per_owner[keys[j]].contains(id));
            }
        }
        true
    }

    /// Whether the parts are in order, so that they make a ledger.
    pub fn in_order(&self) -> (ok: bool)
        ensures
            ok == self@.wf(),
    {
        let tokens = self.tokens_are_kept();
        let owners = self.owners_are_kept();
        let owned = no_set_is_empty(&self.token_per_owner);
        let sales = self.sales_are_kept();
        let sellers = no_set_is_empty(&self.sale_by_owner);
        let contracts = no_set_is_empty(&self.by_nft_contract_id);
        let covered = self.listings_are_covered();
        let series = self.series_are_kept();
        tokens && owners && owned && sales && sellers && contracts && covered && series
    }
}

impl Contract {
    /// The parts of the ledger.
    pub fn into_parts(self) -> (parts: ContractParts)
        ensures
            parts@ == self@,
    {
        ContractParts {
            owner_id: self.owner_id,
            token_per_owner: self.token_per_owner,
            token_by_id: self.token_by_id,
            token_metadata_by_id: self.token_metadata_by_id,
            user_metadata_by_owner: self.user_metadata_by_owner,
            metadata: self.metadata,
            series_by_id: self.series_by_id,
            series_per_owner: self.series_per_owner,
            storage_deposits: self.storage_deposits,
            sale_by_owner: self.sale_by_owner,
            sales: self.sales,
            by_nft_contract_id: self.by_nft_contract_id,
        }
    }

    /// The ledger that the parts make, if they are in order.
    pub fn from_parts(parts: ContractParts) -> (ledger: Option<Contract>)
        ensures
            match ledger {
                Some(ledger) => parts@.wf() && ledger@ == parts@,
                None => !parts@.wf(),
            },
    {
        if !parts.in_order() {
            return None;
        }
        Some(
            Contract {
                owner_id: parts.owner_id,
                token_per_owner: parts.token_per_owner,
                token_by_id: parts.token_by_id,
                token_metadata_by_id: parts.token_metadata_by_id,
                user_metadata_by_owner: parts.user_metadata_by_owner,
                metadata: parts.metadata,
                series_by_id: parts.series_by_id,
                series_per_owner: parts.series_per_owner,
                storage_deposits: parts.storage_deposits,
                sale_by_owner: parts.sale_by_owner,
                sales: parts.sales,
                by_nft_contract_id: parts.by_nft_contract_id,
            },
        )
    }
}

} // verus!
