//! Series: collections of tokens under one owner.
use crate::account::AccountId;
use crate::collections::{AssocSet, Duplicate};
use crate::context::CallContext;
use crate::contract::{index_with, Contract, ContractView};
use crate::enumeration::page;
use crate::errors::LedgerError;
use crate::metadata::{
    JsonSeries, JsonSeriesView, Series, SeriesId, SeriesMetadata, SeriesMetadataView, SeriesView,
};
use crate::theorems::Operation;
use vstd::prelude::*;

verus! {

/// The number of series that a page shows where no limit is given.
pub const DEFAULT_PAGE_LIMIT: u64 = 50;

/// A series that was just made by `owner_id`.
pub open spec fn fresh_series(owner_id: Seq<char>, metadata: SeriesMetadataView) -> SeriesView {
    SeriesView {
        royalty: None,
        tokens: Set::empty(),
        price: None,
        volume: None,
        owner_id,
        metadata,
    }
}

impl ContractView {
    /// The series as it is shown to the outside.
    pub open spec fn json_series(self, id: u64) -> JsonSeriesView {
        JsonSeriesView {
            series_id: id,
            metadata: self.series_by_id[id].metadata,
            royalty: self.series_by_id[id].royalty,
            owner_id: self.series_by_id[id].owner_id,
            volume: self.series_by_id[id].volume,
            price: self.series_by_id[id].price,
        }
    }

    /// The number that the next series gets.
    pub open spec fn next_series_id(self) -> nat {
        self.series_by_id.len() + 1
    }

    /// Why no series can be made, if none can.
    pub open spec fn create_series_error(self) -> Option<LedgerError> {
        if self.next_series_id() > u64::MAX {
            Some(LedgerError::Overflow)
        } else if self.series_by_id.contains_key(self.next_series_id() as u64) {
            Some(LedgerError::DuplicateSeries)
        } else {
            None
        }
    }

    /// The ledger after `owner_id` made a series.
    pub open spec fn with_series(self, owner_id: Seq<char>, metadata: SeriesMetadataView) -> ContractView {
        ContractView {
            series_by_id: self.series_by_id.insert(
                self.next_series_id() as u64,
                fresh_series(owner_id, metadata),
            ),
            series_per_owner: index_with(
                self.series_per_owner,
                owner_id,
                self.next_series_id() as u64,
            ),
            ..self
        }
    }

    /// The series of `account_id`.
    pub open spec fn series_of(self, account_id: Seq<char>) -> Set<u64> {
        if self.series_per_owner.contains_key(account_id) {
            self.series_per_owner[account_id]
        } else {
            Set::empty()
        }
    }
}

/// A new series keeps the ledger in order.
pub proof fn lemma_with_series_wf(s: ContractView, owner_id: Seq<char>, metadata: SeriesMetadataView)
    requires
        s.wf(),
        s.create_series_error() is None,
    ensures
        s.with_series(owner_id, metadata).wf(),
{
    let after = s.with_series(owner_id, metadata);
    assert forall|a: Seq<char>, id: u64|
        after.series_per_owner.contains_key(a) && #[trigger] after.series_per_owner[a].contains(
            id,
        ) implies after.series_by_id.contains_key(id) by {
        if id != s.next_series_id() {
            assert(s.series_per_owner.contains_key(a) && s.series_per_owner[a].contains(id));
        }
    }
}

impl Contract {
    /// The series of the ledger in the order in which they are listed. The
    /// order stays as long as the ledger is not changed.
    pub closed spec fn series_ids(&self) -> Seq<u64> {
        self.series_by_id.spec_keys()
    }

    /// The series of `account_id` in the order in which they are listed.
    /// The order stays as long as the ledger is not changed.
    pub closed spec fn series_ids_of(&self, account_id: Seq<char>) -> Seq<u64> {
        if self.series_per_owner@.contains_key(account_id) {
            self.series_per_owner.spec_value(account_id).spec_items()
        } else {
            Seq::empty()
        }
    }

    /// The number of series.
    pub fn get_series_total_supply(&self) -> (supply: u64)
        ensures
            supply == self@.series_by_id.len(),
            supply == self.series_ids().len(),
            self.series_ids().no_duplicates(),
            self.series_ids().to_set() == self@.series_by_id.dom(),
    {
        self.series_by_id.keys_are_domain();
        self.series_by_id.len() as u64
    }

    /// The series from the place `from_index` on, or from the first where
    /// none is given; at most `limit` of them, or fifty where none is given.
    pub fn get_series(&self, from_index: Option<u128>, limit: Option<u64>) -> (shown: Vec<JsonSeries>)
        ensures
            ({
                let ids = page(
                    self.series_ids(),
                    from_index.unwrap_or(0),
                    limit.unwrap_or(DEFAULT_PAGE_LIMIT) as u128,
                );
                &&& shown@.len() == ids.len()
                &&& forall|i: int|
                    0 <= i < shown@.len() ==> (#[trigger] shown@[i])@ == self@.json_series(ids[i])
            }),
    {
        let start: u128 = match from_index {
            Some(from_index) => from_index,
            None => 0,
        };
        let limit: u64 = match limit {
            Some(limit) => limit,
            None => DEFAULT_PAGE_LIMIT,
        };
        let mut shown: Vec<JsonSeries> = Vec::new();
        let n = self.series_by_id.len();
        self.series_by_id.keys_are_domain();
        if start >= n as u128 {
            return shown;
        }
        let first: usize = start as usize;
        let end: usize = if limit as u128 >= (n - first) as u128 {
            n
        } else {
            first + limit as usize
        };
        let mut i: usize = first;
        while i < end
            invariant
                first <= i <= end <= n,
                n == self.series_ids().len(),
                self.series_ids().to_set() == self@.series_by_id.dom(),
                shown@.len() == i - first,
                forall|j: int|
                    0 <= j < shown@.len() ==> (#[trigger] shown@[j])@ == self@.json_series(
                        self.series_ids()[first + j],
                    ),
            decreases end - i,
        {
            let id: u64 = *self.series_by_id.key_at(i);
            let details = self.get_series_details(id);
            assert(details is Some);
            if let Some(series) = details {
                shown.push(series);
            }
            i += 1;
        }
        shown
    }

    /// The series of `owner_id` from the place `from_index` on, or from the
    /// first where none is given; at most `limit` of them, or fifty where
    /// none is given.
    pub fn get_series_by_owner(
        &self,
        owner_id: AccountId,
        from_index: Option<u128>,
        limit: Option<u64>,
    ) -> (shown: Vec<JsonSeries>)
        requires
            self@.wf(),
        ensures
            self.series_ids_of(owner_id@).no_duplicates(),
            self.series_ids_of(owner_id@).to_set() == self@.series_of(owner_id@),
            ({
                let ids = page(
                    self.series_ids_of(owner_id@),
                    from_index.unwrap_or(0),
                    limit.unwrap_or(DEFAULT_PAGE_LIMIT) as u128,
                );
                &&& shown@.len() == ids.len()
                &&& forall|i: int|
                    0 <= i < shown@.len() ==> (#[trigger] shown@[i])@ == self@.json_series(ids[i])
            }),
    {
        let start: u128 = match from_index {
            Some(from_index) => from_index,
            None => 0,
        };
        let limit: u64 = match limit {
            Some(limit) => limit,
            None => DEFAULT_PAGE_LIMIT,
        };
        let mut shown: Vec<JsonSeries> = Vec::new();
        let owned = match self.series_per_owner.get(&owner_id) {
            Some(owned) => owned,
            None => {
                assert(self.series_ids_of(owner_id@).to_set() =~= Set::<u64>::empty());
                return shown;
            },
        };
        let n = owned.len();
        owned.items_are_members();
        if start >= n as u128 {
            return shown;
        }
        let first: usize = start as usize;
        let end: usize = if limit as u128 >= (n - first) as u128 {
            n
        } else {
            first + limit as usize
        };
        let mut i: usize = first;
        while i < end
            invariant
                first <= i <= end <= n,
                n == owned.spec_items().len(),
                owned.spec_items().to_set() == owned@,
                owned@ == self@.series_per_owner[owner_id@],
                self@.series_per_owner.contains_key(owner_id@),
                self@.wf(),
                shown@.len() == i - first,
                forall|j: int|
                    0 <= j < shown@.len() ==> (#[trigger] shown@[j])@ == self@.json_series(
                        owned.spec_items()[first + j],
                    ),
            decreases end - i,
        {
            let id: u64 = *owned.item_at(i);
            let details = self.get_series_details(id);
            assert(details is Some);
            if let Some(series) = details {
                shown.push(series);
            }
            i += 1;
        }
        shown
    }

    /// The series with the number `id` as it is shown to the outside, if
    /// there is one.
    pub fn get_series_details(&self, id: u64) -> (shown: Option<JsonSeries>)
        ensures
            match shown {
                Some(series) => self@.series_by_id.contains_key(id) && series@
                    == self@.json_series(id),
                None => !self@.series_by_id.contains_key(id),
            },
    {
        match self.series_by_id.get(&id) {
            Some(series) => Some(
                JsonSeries {
                    series_id: id,
                    metadata: series.metadata.duplicate(),
                    royalty: match &series.royalty {
                        Some(royalty) => Some(royalty.duplicate()),
                        None => None,
                    },
                    owner_id: series.owner_id.clone(),
                    volume: series.volume,
                    price: series.price,
                },
            ),
            None => None,
        }
    }

    /// The number of tokens in the series with the number `id`; none where
    /// there is no such series.
    pub fn nft_supply_for_series(&self, id: u64) -> (supply: u128)
        ensures
            supply == (if self@.series_by_id.contains_key(id) {
                self@.series_by_id[id].tokens.len()
            } else {
                0
            }),
    {
        match self.series_by_id.get(&id) {
            Some(series) => series.tokens.len() as u128,
            None => 0,
        }
    }

    /// Makes a series for the caller, without tokens, under the number after
    /// the number of series that there are, and hands the number back. What
    /// the series takes in storage is for the host to measure and to settle
    /// with [`refund_deposit`](crate::internal::refund_deposit).
    pub fn create_series(&mut self, ctx: &CallContext, metadata: SeriesMetadata) -> (made: Result<
        SeriesId,
        LedgerError,
    >)
        requires
            old(self)@.wf(),
        ensures
            final(self)@.wf(),
            final(self)@ == old(self)@.step(
                Operation::CreateSeries { ctx: ctx@, metadata: metadata@ },
            ),
            match made {
                Ok(id) => {
                    &&& old(self)@.create_series_error() is None
                    &&& id == old(self)@.next_series_id()
                    &&& final(self)@ == old(self)@.with_series(
                        ctx@.predecessor_account_id,
                        metadata@,
                    )
                },
                Err(e) => {
                    &&& old(self)@.create_series_error() == Some(e)
                    &&& final(self)@ == old(self)@
                },
            },
    {
        let caller = ctx.predecessor_account_id.clone();
        let supply = self.get_series_total_supply();
        if supply == u64::MAX {
            return Err(LedgerError::Overflow);
        }
        let id: u64 = supply + 1;
        if self.series_by_id.contains_key(&id) {
            return Err(LedgerError::DuplicateSeries);
        }
        let series = Series {
            metadata,
            volume: None,
            royalty: None,
            tokens: AssocSet::new(),
            owner_id: caller.clone(),
            price: None,
        };
        proof {
            lemma_with_series_wf(self@, caller@, series@.metadata);
        }
        self.series_by_id.insert(id, series);
        self.internal_add_series_to_owner(&caller, &id);
        Ok(id)
    }
}

} // verus!
