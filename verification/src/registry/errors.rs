//! Errors of the in-memory registry storage.
use vstd::prelude::*;
use crate::common::errors::{CommonError, common_error_message};

verus! {

#[derive(Debug, Clone, Copy, PartialEq, Eq, Structural)]
pub enum RegistryError {
    AlreadyRegistered,
    NotFound,
    Validation(CommonError),
}

pub open spec fn registry_error_message(e: RegistryError) -> Seq<char> {
    match e {
        RegistryError::AlreadyRegistered => "name is already registered"@,
        RegistryError::NotFound => "name was not found"@,
        RegistryError::Validation(inner) => common_error_message(inner),
    }
}

impl RegistryError {
    /// The description a user is shown for this error.
    pub fn message(&self) -> (r: &'static str)
        ensures
            r@ == registry_error_message(*self),
    {
        match self {
            RegistryError::AlreadyRegistered => "name is already registered",
            RegistryError::NotFound => "name was not found",
            RegistryError::Validation(inner) => inner.message(),
        }
    }
}

impl From<CommonError> for RegistryError {
    fn from(value: CommonError) -> (r: Self)
        ensures
            r == RegistryError::Validation(value),
    {
        RegistryError::Validation(value)
    }
}

impl vstd::std_specs::convert::FromSpecImpl<CommonError> for RegistryError {
    open spec fn obeys_from_spec() -> bool {
        true
    }

    open spec fn from_spec(v: CommonError) -> Self {
        RegistryError::Validation(v)
    }
}

} // verus!
