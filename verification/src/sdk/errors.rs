//! Client errors.
use vstd::prelude::*;

verus! {

#[derive(Debug)]
pub enum SdkError {
    InvalidRequest(String),
    Transport(String),
}

pub open spec fn sdk_error_message(e: SdkError) -> Seq<char> {
    match e {
        SdkError::InvalidRequest(m) => "invalid request: "@ + m@,
        SdkError::Transport(m) => "transport error: "@ + m@,
    }
}

impl SdkError {
    /// The description a user is shown for this error.
    pub fn message(&self) -> (r: String)
        ensures
            r@ == sdk_error_message(*self),
    {
        let mut r = String::new();
        match self {
            SdkError::InvalidRequest(m) => {
                r.append("invalid request: ");
                r.append(m.as_str());
            },
            SdkError::Transport(m) => {
                r.append("transport error: ");
                r.append(m.as_str());
            },
        }
        r
    }
}

} // verus!
