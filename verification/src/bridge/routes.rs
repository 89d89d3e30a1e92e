//! Supported destination chains and their resolver targets.
use vstd::prelude::*;
use crate::common::text::str_equals;

verus! {

/// The resolver target on each supported destination chain.
pub open spec fn spec_target_for_chain(chain: Seq<char>) -> Option<Seq<char>> {
    if chain == "base"@ {
        Some("0xbaseResolver"@)
    } else {
        None
    }
}

pub fn target_for_chain(chain: &str) -> (r: Option<&'static str>)
    ensures
        match r {
            Some(target) => spec_target_for_chain(chain@) == Some(target@),
            None => spec_target_for_chain(chain@) is None,
        },
{
    if str_equals(chain, "base") {
        Some("0xbaseResolver")
    } else {
        None
    }
}

} // verus!
