//! A client that checks requests before they are sent.
use vstd::prelude::*;
use crate::common::text::{is_blank, str_is_blank};
use crate::sdk::errors::SdkError;
use crate::sdk::types::{RegistrationRequest, RenewalRequest, ResolutionResult};

verus! {

#[derive(Debug, Clone)]
pub struct XlmNsClient {
    pub rpc_url: String,
}

impl XlmNsClient {
    pub fn new(rpc_url: &str) -> (r: Self)
        ensures
            r.rpc_url@ == rpc_url@,
    {
        XlmNsClient { rpc_url: rpc_url.to_owned() }
    }

    /// Resolution is not wired to a network yet: the name comes back with no address.
    pub fn resolve(&self, name: &str) -> (r: Result<ResolutionResult, SdkError>)
        ensures
            r matches Ok(res) && res.name@ == name@ && res.address is None,
    {
        Ok(ResolutionResult { name: name.to_owned(), address: None })
    }

    /// Refuses a registration whose label is blank.
    pub fn register(&self, request: RegistrationRequest) -> (r: Result<(), SdkError>)
        ensures
            r is Err <==> is_blank(request.label@),
            r matches Err(e) ==> e matches SdkError::InvalidRequest(m) && m@ == "label must not be empty"@,
    {
        if str_is_blank(request.label.as_str()) {
            return Err(SdkError::InvalidRequest("label must not be empty".to_owned()));
        }
        Ok(())
    }

    /// Refuses a renewal for no additional years.
    pub fn renew(&self, request: RenewalRequest) -> (r: Result<(), SdkError>)
        ensures
            r is Err <==> request.additional_years == 0,
            r matches Err(e) ==> e matches SdkError::InvalidRequest(m)
                && m@ == "additional_years must be greater than zero"@,
    {
        if request.additional_years == 0 {
            return Err(SdkError::InvalidRequest("additional_years must be greater than zero".to_owned()));
        }
        Ok(())
    }
}

} // verus!
