//! The records that the ledger keeps and hands out.
use crate::account::AccountId;
use crate::collections::{AssocMap, AssocSet, Duplicate};
use crate::contract::{Contract, ContractView};
use vstd::prelude::*;

verus! {

/// The identifier of a token: any text.
pub type TokenId = String;

/// The number of a series; the first series has number 1.
pub type SeriesId = u64;

/// An amount of the base currency, in its smallest unit.
pub type Balance = u128;

/// The price of a listing, in the smallest unit of the base currency.
pub type SalePriceInYoctoNear = u128;

/// A copy of an optional text.
pub fn duplicate_text(text: &Option<String>) -> (copy: Option<String>)
    ensures
        copy.deep_view() == text.deep_view(),
{
    match text {
        Some(t) => Some(t.clone()),
        None => None,
    }
}

/// Who is paid how much out of one sale.
pub struct Payout {
    pub payout: AssocMap<AccountId, u128>,
}

impl View for Payout {
    type V = Map<Seq<char>, u128>;

    open spec fn view(&self) -> Map<Seq<char>, u128> {
        self.payout@
    }
}

/// What the contract says of itself.
pub struct NFTContractMetadata {
    pub spec: String,
    pub name: String,
    pub symbol: String,
    pub icon: Option<String>,
    pub base_uri: Option<String>,
    pub reference: Option<String>,
    pub reference_hash: Option<Vec<u8>>,
}

/// The mathematical value of an [`NFTContractMetadata`].
pub struct NFTContractMetadataView {
    pub spec: Seq<char>,
    pub name: Seq<char>,
    pub symbol: Seq<char>,
    pub icon: Option<Seq<char>>,
    pub base_uri: Option<Seq<char>>,
    pub reference: Option<Seq<char>>,
    pub reference_hash: Option<Seq<u8>>,
}

impl View for NFTContractMetadata {
    type V = NFTContractMetadataView;

    open spec fn view(&self) -> NFTContractMetadataView {
        NFTContractMetadataView {
            spec: self.spec@,
            name: self.name@,
            symbol: self.symbol@,
            icon: self.icon.deep_view(),
            base_uri: self.base_uri.deep_view(),
            reference: self.reference.deep_view(),
            reference_hash: match self.reference_hash {
                Some(hash) => Some(hash@),
                None => None,
            },
        }
    }
}

impl Duplicate for NFTContractMetadata {
    fn duplicate(&self) -> (copy: Self) {
        let reference_hash = match &self.reference_hash {
            Some(hash) => {
                let mut bytes: Vec<u8> = Vec::new();
                let mut i: usize = 0;
                while i < hash.len()
                    invariant
                        i <= hash@.len(),
                        bytes@ == hash@.subrange(0, i as int),
                    decreases hash@.len() - i,
                {
                    bytes.push(hash[i]);
                    i += 1;
                    assert(bytes@ =~= hash@.subrange(0, i as int));
                }
                assert(bytes@ =~= hash@);
                Some(bytes)
            },
            None => None,
        };
        NFTContractMetadata {
            spec: self.spec.clone(),
            name: self.name.clone(),
            symbol: self.symbol.clone(),
            icon: duplicate_text(&self.icon),
            base_uri: duplicate_text(&self.base_uri),
            reference: duplicate_text(&self.reference),
            reference_hash,
        }
    }
}

/// What the ledger says of itself.
pub trait NonFungibleTokenMetadata: View<V = ContractView> + Sized {
    /// What the ledger says of itself.
    fn nft_metadata(&self) -> (metadata: NFTContractMetadata)
        ensures
            metadata@ == self@.metadata,
    ;
}

impl NonFungibleTokenMetadata for Contract {
    fn nft_metadata(&self) -> (metadata: NFTContractMetadata) {
        self.metadata.duplicate()
    }
}

/// What is known of one token beyond its owner.
pub struct TokenMetadata {
    pub title: Option<String>,
    pub description: Option<String>,
    pub media: Option<String>,
    pub media_hash: Option<String>,
    pub copies: Option<u64>,
    pub issued_at: Option<String>,
    pub extra: Option<String>,
}

/// The mathematical value of a [`TokenMetadata`].
pub struct TokenMetadataView {
    pub title: Option<Seq<char>>,
    pub description: Option<Seq<char>>,
    pub media: Option<Seq<char>>,
    pub media_hash: Option<Seq<char>>,
    pub copies: Option<u64>,
    pub issued_at: Option<Seq<char>>,
    pub extra: Option<Seq<char>>,
}

impl View for TokenMetadata {
    type V = TokenMetadataView;

    open spec fn view(&self) -> TokenMetadataView {
        TokenMetadataView {
            title: self.title.deep_view(),
            description: self.description.deep_view(),
            media: self.media.deep_view(),
            media_hash: self.media_hash.deep_view(),
            copies: self.copies,
            issued_at: self.issued_at.deep_view(),
            extra: self.extra.deep_view(),
        }
    }
}

impl Duplicate for TokenMetadata {
    fn duplicate(&self) -> (copy: Self) {
        TokenMetadata {
            title: duplicate_text(&self.title),
            description: duplicate_text(&self.description),
            media: duplicate_text(&self.media),
            media_hash: duplicate_text(&self.media_hash),
            copies: self.copies,
            issued_at: duplicate_text(&self.issued_at),
            extra: duplicate_text(&self.extra),
        }
    }
}

/// The ledger's record of one token.
pub struct Token {
    /// The series that the token belongs to; 0 where it belongs to none.
    pub series_id: u64,
    pub owner_id: AccountId,
    /// The accounts that may move the token for its owner, each with the
    /// number of its approval.
    pub approved_account_ids: AssocMap<AccountId, u64>,
    /// The number that the next approval gets.
    pub next_approval_id: u64,
    /// The share of each sale, in basis points, that each account is owed.
    pub royalty: AssocMap<AccountId, u32>,
}

/// The mathematical value of a [`Token`].
pub struct TokenView {
    pub series_id: u64,
    pub owner_id: Seq<char>,
    pub approved_account_ids: Map<Seq<char>, u64>,
    pub next_approval_id: u64,
    pub royalty: Map<Seq<char>, u32>,
}

impl View for Token {
    type V = TokenView;

    open spec fn view(&self) -> TokenView {
        TokenView {
            series_id: self.series_id,
            owner_id: self.owner_id@,
            approved_account_ids: self.approved_account_ids@,
            next_approval_id: self.next_approval_id,
            royalty: self.royalty@,
        }
    }
}

impl Duplicate for Token {
    fn duplicate(&self) -> (copy: Self) {
        Token {
            series_id: self.series_id,
            owner_id: self.owner_id.duplicate(),
            approved_account_ids: self.approved_account_ids.duplicate(),
            next_approval_id: self.next_approval_id,
            royalty: self.royalty.duplicate(),
        }
    }
}

/// What is known of one series.
pub struct SeriesMetadata {
    pub name: Option<String>,
    pub description: Option<String>,
    pub category: Option<String>,
    pub logo_media: Option<String>,
    pub banner_media: Option<String>,
}

/// The mathematical value of a [`SeriesMetadata`].
pub struct SeriesMetadataView {
    pub name: Option<Seq<char>>,
    pub description: Option<Seq<char>>,
    pub category: Option<Seq<char>>,
    pub logo_media: Option<Seq<char>>,
    pub banner_media: Option<Seq<char>>,
}

impl View for SeriesMetadata {
    type V = SeriesMetadataView;

    open spec fn view(&self) -> SeriesMetadataView {
        SeriesMetadataView {
            name: self.name.deep_view(),
            description: self.description.deep_view(),
            category: self.category.deep_view(),
            logo_media: self.logo_media.deep_view(),
            banner_media: self.banner_media.deep_view(),
        }
    }
}

impl Duplicate for SeriesMetadata {
    fn duplicate(&self) -> (copy: Self) {
        SeriesMetadata {
            name: duplicate_text(&self.name),
            description: duplicate_text(&self.description),
            category: duplicate_text(&self.category),
            logo_media: duplicate_text(&self.logo_media),
            banner_media: duplicate_text(&self.banner_media),
        }
    }
}

/// What an account says of itself.
pub struct UserMetadata {
    pub name: Option<String>,
    pub image_url: Option<String>,
    pub banner_url: Option<String>,
}

/// The mathematical value of a [`UserMetadata`].
pub struct UserMetadataView {
    pub name: Option<Seq<char>>,
    pub image_url: Option<Seq<char>>,
    pub banner_url: Option<Seq<char>>,
}

impl View for UserMetadata {
    type V = UserMetadataView;

    open spec fn view(&self) -> UserMetadataView {
        UserMetadataView {
            name: self.name.deep_view(),
            image_url: self.image_url.deep_view(),
            banner_url: self.banner_url.deep_view(),
        }
    }
}

impl Duplicate for UserMetadata {
    fn duplicate(&self) -> (copy: Self) {
        UserMetadata {
            name: duplicate_text(&self.name),
            image_url: duplicate_text(&self.image_url),
            banner_url: duplicate_text(&self.banner_url),
        }
    }
}

/// A collection of tokens under one owner.
pub struct Series {
    /// The royalty of every token of the series.
    pub royalty: Option<AssocMap<AccountId, u32>>,
    pub tokens: AssocSet<TokenId>,
    /// What minting one token of the series costs.
    pub price: Option<Balance>,
    /// What the tokens of the series have been sold for in all.
    pub volume: Option<Balance>,
    pub owner_id: AccountId,
    pub metadata: SeriesMetadata,
}

/// The mathematical value of a [`Series`].
pub struct SeriesView {
    pub royalty: Option<Map<Seq<char>, u32>>,
    pub tokens: Set<Seq<char>>,
    pub price: Option<u128>,
    pub volume: Option<u128>,
    pub owner_id: Seq<char>,
    pub metadata: SeriesMetadataView,
}

impl View for Series {
    type V = SeriesView;

    open spec fn view(&self) -> SeriesView {
        SeriesView {
            royalty: match self.royalty {
                Some(royalty) => Some(royalty@),
                None => None,
            },
            tokens: self.tokens@,
            price: self.price,
            volume: self.volume,
            owner_id: self.owner_id@,
            metadata: self.metadata@,
        }
    }
}

/// A token as it is shown to the outside: the ledger's record together with
/// the token's identifier and metadata.
pub struct JsonToken {
    pub series_id: SeriesId,
    pub token_id: TokenId,
    pub owner_id: AccountId,
    pub metadata: TokenMetadata,
    pub approved_account_ids: AssocMap<AccountId, u64>,
    pub royalty: AssocMap<AccountId, u32>,
}

/// The mathematical value of a [`JsonToken`].
pub struct JsonTokenView {
    pub series_id: u64,
    pub token_id: Seq<char>,
    pub owner_id: Seq<char>,
    pub metadata: TokenMetadataView,
    pub approved_account_ids: Map<Seq<char>, u64>,
    pub royalty: Map<Seq<char>, u32>,
}

impl View for JsonToken {
    type V = JsonTokenView;

    open spec fn view(&self) -> JsonTokenView {
        JsonTokenView {
            series_id: self.series_id,
            token_id: self.token_id@,
            owner_id: self.owner_id@,
            metadata: self.metadata@,
            approved_account_ids: self.approved_account_ids@,
            royalty: self.royalty@,
        }
    }
}

/// A series as it is shown to the outside.
pub struct JsonSeries {
    pub series_id: SeriesId,
    pub metadata: SeriesMetadata,
    pub royalty: Option<AssocMap<AccountId, u32>>,
    pub owner_id: AccountId,
    pub volume: Option<Balance>,
    pub price: Option<Balance>,
}

/// The mathematical value of a [`JsonSeries`].
pub struct JsonSeriesView {
    pub series_id: u64,
    pub metadata: SeriesMetadataView,
    pub royalty: Option<Map<Seq<char>, u32>>,
    pub owner_id: Seq<char>,
    pub volume: Option<u128>,
    pub price: Option<u128>,
}

impl View for JsonSeries {
    type V = JsonSeriesView;

    open spec fn view(&self) -> JsonSeriesView {
        JsonSeriesView {
            series_id: self.series_id,
            metadata: self.metadata@,
            royalty: match self.royalty {
                Some(royalty) => Some(royalty@),
                None => None,
            },
            owner_id: self.owner_id@,
            volume: self.volume,
            price: self.price,
        }
    }
}

/// The terms of a sale, as the owner sends them along with an approval.
pub struct SaleArgs {
    pub sale_conditions: SalePriceInYoctoNear,
}

/// A token that is listed for sale.
pub struct Sale {
    /// Who listed the token.
    pub owner_id: AccountId,
    /// The approval under which the marketplace may move the token.
    pub approval_id: u64,
    /// The contract on which the token lives.
    pub nft_contract_id: AccountId,
    pub token_id: TokenId,
    /// The price asked.
    pub sale_conditions: SalePriceInYoctoNear,
}

/// The mathematical value of a [`Sale`].
pub struct SaleView {
    pub owner_id: Seq<char>,
    pub approval_id: u64,
    pub nft_contract_id: Seq<char>,
    pub token_id: Seq<char>,
    pub sale_conditions: u128,
}

impl View for Sale {
    type V = SaleView;

    open spec fn view(&self) -> SaleView {
        SaleView {
            owner_id: self.owner_id@,
            approval_id: self.approval_id,
            nft_contract_id: self.nft_contract_id@,
            token_id: self.token_id@,
            sale_conditions: self.sale_conditions,
        }
    }
}

impl Duplicate for Sale {
    fn duplicate(&self) -> (copy: Self) {
        Sale {
            owner_id: self.owner_id.duplicate(),
            approval_id: self.approval_id,
            nft_contract_id: self.nft_contract_id.duplicate(),
            token_id: self.token_id.clone(),
            sale_conditions: self.sale_conditions,
        }
    }
}

} // verus!
