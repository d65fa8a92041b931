//! Why an operation of the ledger was refused.
use vstd::prelude::*;

verus! {

/// The reason for which the ledger refuses an operation. A refused operation
/// leaves the ledger as it was.
#[derive(Debug, Clone, Copy, PartialEq, Eq)]
pub enum LedgerError {
    /// No token has this identifier.
    TokenNotFound,
    /// No listing has this key.
    ListingNotFound,
    /// The caller does not own the token.
    NotOwner,
    /// The caller neither owns the token nor holds the approval it named.
    Unauthorized,
    /// The call did not come with exactly one unit of the base currency.
    PaymentRequired,
    /// What was paid or deposited does not cover what is owed.
    InsufficientCollateral { required: u128, available: u128 },
    /// The deposit is less than what one listing takes.
    BelowMinimumDeposit,
    /// A token with this identifier exists.
    DuplicateToken,
    /// A series with this number exists.
    DuplicateSeries,
    /// The receiver owns the token already.
    SelfTransfer,
    /// The royalties have more than six entries or add up to more than the
    /// whole.
    InvalidRoyalty,
    /// The token has more royalty entries than the caller can pay out.
    TooManyPayouts,
    /// The payload of an approval does not hold the terms of a sale.
    MalformedPayload,
    /// The notification did not come from another contract on behalf of the
    /// token's owner.
    NotAGenuineNotification,
    /// An amount or a counter would leave the range of its type.
    Overflow,
}

/// The classes of reasons.
#[derive(Debug, Clone, Copy, PartialEq, Eq)]
pub enum ErrorKind {
    NotFound,
    Unauthorized,
    InsufficientCollateral,
    InvalidRequest,
    NotAGenuineNotification,
}

impl LedgerError {
    /// The class of a reason.
    pub open spec fn spec_kind(self) -> ErrorKind {
        match self {
            LedgerError::TokenNotFound | LedgerError::ListingNotFound => ErrorKind::NotFound,
            LedgerError::NotOwner | LedgerError::Unauthorized => ErrorKind::Unauthorized,
            LedgerError::PaymentRequired
            | LedgerError::InsufficientCollateral { .. }
            | LedgerError::BelowMinimumDeposit => ErrorKind::InsufficientCollateral,
            LedgerError::DuplicateToken
            | LedgerError::DuplicateSeries
            | LedgerError::SelfTransfer
            | LedgerError::InvalidRoyalty
            | LedgerError::TooManyPayouts
            | LedgerError::MalformedPayload
            | LedgerError::Overflow => ErrorKind::InvalidRequest,
            LedgerError::NotAGenuineNotification => ErrorKind::NotAGenuineNotification,
        }
    }

    /// The class of this reason.
    #[verifier::when_used_as_spec(spec_kind)]
    pub fn kind(self) -> (kind: ErrorKind)
        ensures
            kind == self.spec_kind(),
    {
        match self {
            LedgerError::TokenNotFound | LedgerError::ListingNotFound => ErrorKind::NotFound,
            LedgerError::NotOwner | LedgerError::Unauthorized => ErrorKind::Unauthorized,
            LedgerError::PaymentRequired
            | LedgerError::InsufficientCollateral { .. }
            | LedgerError::BelowMinimumDeposit => ErrorKind::InsufficientCollateral,
            LedgerError::DuplicateToken
            | LedgerError::DuplicateSeries
            | LedgerError::SelfTransfer
            | LedgerError::InvalidRoyalty
            | LedgerError::TooManyPayouts
            | LedgerError::MalformedPayload
            | LedgerError::Overflow => ErrorKind::InvalidRequest,
            LedgerError::NotAGenuineNotification => ErrorKind::NotAGenuineNotification,
        }
    }
}

} // verus!
