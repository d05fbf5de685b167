use vstd::prelude::*;

verus! {

/// Why a distribution was refused. Every one of them aborts the whole
/// distribution: nothing is deposited or transferred in part.
#[derive(Clone, Copy, Debug, PartialEq, Eq, Structural)]
pub enum DistributionError {
    /// The recipient list is empty.
    EmptyRecipients,
    /// The recipient list is longer than the policy allows.
    TooManyRecipients,
    /// A recipient's amount is zero or negative.
    NonPositiveAmount,
    /// A recipient is the pool's own account, which the policy forbids.
    RecipientIsPool,
    /// An account appears twice in the recipient list.
    DuplicateRecipient,
    /// The amounts do not sum within the signed 128-bit range.
    TotalOverflow,
    /// The pool reported a negative number of minted claim units.
    InvalidMinted,
    /// The valuation basis is not positive.
    InvalidBasis,
    /// A recipient's amount times the minted units leaves the signed 128-bit range.
    ShareOverflow,
    /// The running sum of assigned shares leaves the signed 128-bit range.
    DistributedOverflow,
    /// The shares already assigned exceed the minted units, so nothing is left
    /// for the last recipient.
    RemainderUnderflow,
}

/// The broad class of a [`DistributionError`].
#[derive(Clone, Copy, Debug, PartialEq, Eq, Structural)]
pub enum ErrorKind {
    /// The request itself is malformed.
    Validation,
    /// Exact integer arithmetic left its range.
    Arithmetic,
    /// The pool answered with a value that cannot be apportioned.
    Downstream,
}

impl DistributionError {
    pub open spec fn spec_kind(self) -> ErrorKind {
        match self {
            DistributionError::EmptyRecipients => ErrorKind::Validation,
            DistributionError::TooManyRecipients => ErrorKind::Validation,
            DistributionError::NonPositiveAmount => ErrorKind::Validation,
            DistributionError::RecipientIsPool => ErrorKind::Validation,
            DistributionError::DuplicateRecipient => ErrorKind::Validation,
            DistributionError::TotalOverflow => ErrorKind::Arithmetic,
            DistributionError::InvalidMinted => ErrorKind::Downstream,
            DistributionError::InvalidBasis => ErrorKind::Downstream,
            DistributionError::ShareOverflow => ErrorKind::Arithmetic,
            DistributionError::DistributedOverflow => ErrorKind::Arithmetic,
            DistributionError::RemainderUnderflow => ErrorKind::Arithmetic,
        }
    }

    /// The class this error belongs to.
    pub fn kind(&self) -> (r: ErrorKind)
        ensures
            r == self.spec_kind(),
    {
        match self {
            DistributionError::EmptyRecipients => ErrorKind::Validation,
            DistributionError::TooManyRecipients => ErrorKind::Validation,
            DistributionError::NonPositiveAmount => ErrorKind::Validation,
            DistributionError::RecipientIsPool => ErrorKind::Validation,
            DistributionError::DuplicateRecipient => ErrorKind::Validation,
            DistributionError::TotalOverflow => ErrorKind::Arithmetic,
            DistributionError::InvalidMinted => ErrorKind::Downstream,
            DistributionError::InvalidBasis => ErrorKind::Downstream,
            DistributionError::ShareOverflow => ErrorKind::Arithmetic,
            DistributionError::DistributedOverflow => ErrorKind::Arithmetic,
            DistributionError::RemainderUnderflow => ErrorKind::Arithmetic,
        }
    }

    /// A short human-readable reason.
    pub fn message(&self) -> &'static str {
        match self {
            DistributionError::EmptyRecipients => "recipients must not be empty",
            DistributionError::TooManyRecipients => "too many recipients",
            DistributionError::NonPositiveAmount => "each recipient amount must be positive",
            DistributionError::RecipientIsPool => "recipient address must not be the pool",
            DistributionError::DuplicateRecipient => "duplicate recipient address",
            DistributionError::TotalOverflow => "total overflow",
            DistributionError::InvalidMinted => "pool minted a negative amount",
            DistributionError::InvalidBasis => "valuation basis must be positive",
            DistributionError::ShareOverflow => "share computation overflow",
            DistributionError::DistributedOverflow => "distributed overflow",
            DistributionError::RemainderUnderflow => "underflow distributing last recipient",
        }
    }
}

} // verus!
