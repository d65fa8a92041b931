//! What the accounts say of themselves.
use crate::account::AccountId;
use crate::collections::Duplicate;
use crate::contract::{Contract, ContractView};
use crate::metadata::{UserMetadata, UserMetadataView};
use crate::theorems::Operation;
use vstd::prelude::*;

verus! {

impl ContractView {
    /// What `owner_id` says of itself; nothing where it has said nothing.
    pub open spec fn user_metadata(self, owner_id: Seq<char>) -> UserMetadataView {
        if self.user_metadata_by_owner.contains_key(owner_id) {
            self.user_metadata_by_owner[owner_id]
        } else {
            UserMetadataView { name: None, image_url: None, banner_url: None }
        }
    }

    /// The ledger after `owner_id` said `metadata` of itself.
    pub open spec fn with_user_metadata(self, owner_id: Seq<char>, metadata: UserMetadataView) -> ContractView {
        ContractView {
            user_metadata_by_owner: self.user_metadata_by_owner.insert(owner_id, metadata),
            ..self
        }
    }
}

impl Contract {
    /// What `owner_id` has said of itself.
    fn user_metadata_or_default(&self, owner_id: &AccountId) -> (metadata: UserMetadata)
        ensures
            metadata@ == self@.user_metadata(owner_id@),
    {
        match self.user_metadata_by_owner.get(owner_id) {
            Some(metadata) => metadata.duplicate(),
            None => UserMetadata { name: None, image_url: None, banner_url: None },
        }
    }

    /// What `owner_id` has said of itself, if anything.
    pub fn get_user_metadata(&self, owner_id: AccountId) -> (metadata: Option<UserMetadata>)
        ensures
            match metadata {
                Some(m) => self@.user_metadata_by_owner.contains_key(owner_id@) && m@
                    == self@.user_metadata_by_owner[owner_id@],
                None => !self@.user_metadata_by_owner.contains_key(owner_id@),
            },
    {
        match self.user_metadata_by_owner.get(&owner_id) {
            Some(metadata) => Some(metadata.duplicate()),
            None => None,
        }
    }

    /// Sets the banner of `owner_id` and keeps what else it has said.
    pub fn set_user_banner_image(&mut self, owner_id: AccountId, img_url: Option<String>) -> (done: bool)
        ensures
            done,
            old(self)@.wf() ==> final(self)@.wf(),
            final(self)@ == old(self)@.step(
                Operation::SetUserMetadata {
                    owner_id: owner_id@,
                    metadata: UserMetadataView {
                        banner_url: img_url.deep_view(),
                        ..old(self)@.user_metadata(owner_id@)
                    },
                },
            ),
    {
        let mut metadata = self.user_metadata_or_default(&owner_id);
        metadata.banner_url = img_url;
        self.user_metadata_by_owner.insert(owner_id, metadata);
        true
    }

    /// Sets the image of `owner_id` and keeps what else it has said.
    pub fn set_user_image(&mut self, owner_id: AccountId, img_url: Option<String>) -> (done: bool)
        ensures
            done,
            old(self)@.wf() ==> final(self)@.wf(),
            final(self)@ == old(self)@.step(
                Operation::SetUserMetadata {
                    owner_id: owner_id@,
                    metadata: UserMetadataView {
                        image_url: img_url.deep_view(),
                        ..old(self)@.user_metadata(owner_id@)
                    },
                },
            ),
    {
        let mut metadata = self.user_metadata_or_default(&owner_id);
        metadata.image_url = img_url;
        self.user_metadata_by_owner.insert(owner_id, metadata);
        true
    }

    /// Sets the name of `owner_id` and keeps what else it has said.
    pub fn set_user_name(&mut self, owner_id: AccountId, name: Option<String>) -> (done: bool)
        ensures
            done,
            old(self)@.wf() ==> final(self)@.wf(),
            final(self)@ == old(self)@.step(
                Operation::SetUserMetadata {
                    owner_id: owner_id@,
                    metadata: UserMetadataView {
                        name: name.deep_view(),
                        ..old(self)@.user_metadata(owner_id@)
                    },
                },
            ),
    {
        let mut metadata = self.user_metadata_or_default(&owner_id);
        metadata.name = name;
        self.user_metadata_by_owner.insert(owner_id, metadata);
        true
    }
}

} // verus!
