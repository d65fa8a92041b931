//! A ledger of non-fungible tokens with an attached marketplace.
//!
//! The ledger records who owns which token, who may move a token for its
//! owner, what each account has deposited to pay for its listings, and which
//! tokens are listed for sale. Every operation takes what the host knows of
//! the current call as a plain value and hands back what the host has to do
//! next: the payments to send, the contracts to notify and the events to log.
pub mod account;
pub mod approval;
pub mod collections;
pub mod context;
pub mod contract;
pub mod enumeration;
pub mod errors;
pub mod events;
pub mod internal;
pub mod metadata;
pub mod mint;
pub mod nft_core;
pub mod royalties;
pub mod sale;
pub mod series;
pub mod state;
pub mod sums;
pub mod theorems;
pub mod user;
