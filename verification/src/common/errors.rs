//! Validation errors shared by every contract.
use vstd::prelude::*;

verus! {

#[derive(Debug, Clone, Copy, PartialEq, Eq, Structural)]
pub enum CommonError {
    NameTooShort,
    NameTooLong,
    InvalidCharacters,
    InvalidLabelBoundary,
    UnsupportedTld,
    MissingTld,
    InvalidName,
    EmptyOwner,
    InvalidRegistrationPeriod,
    EmptyChainName,
}

/// The human-readable description of each error.
pub open spec fn common_error_message(e: CommonError) -> Seq<char> {
    match e {
        CommonError::NameTooShort => "name is too short"@,
        CommonError::NameTooLong => "name is too long"@,
        CommonError::InvalidCharacters => "name contains invalid characters"@,
        CommonError::InvalidLabelBoundary => "name label cannot start or end with a hyphen"@,
        CommonError::UnsupportedTld => "tld is not supported"@,
        CommonError::MissingTld => "name must include a supported tld"@,
        CommonError::InvalidName => "name is malformed"@,
        CommonError::EmptyOwner => "owner must not be empty"@,
        CommonError::InvalidRegistrationPeriod => "registration period is outside the supported range"@,
        CommonError::EmptyChainName => "chain name must not be empty"@,
    }
}

impl CommonError {
    /// The description a user is shown for this error.
    pub fn message(&self) -> (r: &'static str)
        ensures
            r@ == common_error_message(*self),
    {
        match self {
            CommonError::NameTooShort => "name is too short",
            CommonError::NameTooLong => "name is too long",
            CommonError::InvalidCharacters => "name contains invalid characters",
            CommonError::InvalidLabelBoundary => "name label cannot start or end with a hyphen",
            CommonError::UnsupportedTld => "tld is not supported",
            CommonError::MissingTld => "name must include a supported tld",
            CommonError::InvalidName => "name is malformed",
            CommonError::EmptyOwner => "owner must not be empty",
            CommonError::InvalidRegistrationPeriod => "registration period is outside the supported range",
            CommonError::EmptyChainName => "chain name must not be empty",
        }
    }
}

} // verus!
