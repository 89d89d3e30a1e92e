//! Construction of subdomain names.
use vstd::prelude::*;
use crate::common::errors::CommonError;
use crate::common::validation::{label_error, validate_label};

verus! {

/// `label.parent`.
pub open spec fn subdomain_name(label: Seq<char>, parent: Seq<char>) -> Seq<char> {
    label + seq!['.'] + parent
}

/// The full name of subdomain `label` under `parent`, for a label that passes
/// `validate_label`.
pub fn build_subdomain(label: &str, parent: &str) -> (r: Result<String, CommonError>)
    ensures
        r matches Ok(name) ==> label_error(label@) is None && name@ == subdomain_name(label@, parent@),
        r matches Err(e) ==> label_error(label@) == Some(e),
        r is Ok <==> label_error(label@) is None,
{
    match validate_label(label) {
        Err(e) => {
            return Err(e);
        },
        Ok(()) => {},
    }
    let mut name = label.to_owned();
    name.append(".");
    name.append(parent);
    proof {
        reveal_strlit(".");
    }
    Ok(name)
}

} // verus!
