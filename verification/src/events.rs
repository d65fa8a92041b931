//! The events that the ledger asks the host to log.
use crate::contract::{NFT_METADATA_SPEC, NFT_STANDARD_NAME};
use vstd::prelude::*;

verus! {

/// One change of owner, as the log tells it.
pub struct NftTransferLog {
    /// The account that moved the token for its owner, if one did.
    pub authorized_id: Option<String>,
    pub old_owner_id: String,
    pub new_owner_id: String,
    pub token_ids: Vec<String>,
    pub memo: Option<String>,
}

/// The mathematical value of an [`NftTransferLog`].
pub struct NftTransferLogView {
    pub authorized_id: Option<Seq<char>>,
    pub old_owner_id: Seq<char>,
    pub new_owner_id: Seq<char>,
    pub token_ids: Seq<Seq<char>>,
    pub memo: Option<Seq<char>>,
}

impl View for NftTransferLog {
    type V = NftTransferLogView;

    open spec fn view(&self) -> NftTransferLogView {
        NftTransferLogView {
            authorized_id: self.authorized_id.deep_view(),
            old_owner_id: self.old_owner_id@,
            new_owner_id: self.new_owner_id@,
            token_ids: self.token_ids.deep_view(),
            memo: self.memo.deep_view(),
        }
    }
}

/// What an event is about.
pub enum EventLogVariant {
    NftTransfer(Vec<NftTransferLog>),
}

/// An event as it goes to the log: the standard that it follows, the
/// version of that standard, and what it is about.
pub struct EventLog {
    pub standard: String,
    pub version: String,
    pub event: EventLogVariant,
}

impl EventLog {
    /// The event that tells of the one change of owner `log`.
    pub fn nft_transfer(log: NftTransferLog) -> (event: EventLog)
        ensures
            event.standard@ == NFT_STANDARD_NAME@,
            event.version@ == NFT_METADATA_SPEC@,
            event.event matches EventLogVariant::NftTransfer(logs) && logs@.len() == 1 && logs@[0]@
                == log@,
    {
        let mut logs: Vec<NftTransferLog> = Vec::new();
        logs.push(log);
        EventLog {
            standard: NFT_STANDARD_NAME.to_owned(),
            version: NFT_METADATA_SPEC.to_owned(),
            event: EventLogVariant::NftTransfer(logs),
        }
    }
}

} // verus!
