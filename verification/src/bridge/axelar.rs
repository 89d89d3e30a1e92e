//! The general-message-passing payload that carries a resolution to another chain.
use vstd::prelude::*;

verus! {

/// `{"type":"xlm-ns-resolution","name":"<name>","destination_chain":"<chain>","resolver":"<resolver>"}`,
/// with the three values inserted as they are.
pub open spec fn gmp_message(name: Seq<char>, destination_chain: Seq<char>, resolver: Seq<char>) -> Seq<char> {
    "{\"type\":\"xlm-ns-resolution\",\"name\":\""@ + name + "\",\"destination_chain\":\""@
        + destination_chain + "\",\"resolver\":\""@ + resolver + "\"}"@
}

pub fn build_gmp_message(name: &str, destination_chain: &str, resolver: &str) -> (r: String)
    ensures
        r@ == gmp_message(name@, destination_chain@, resolver@),
{
    let mut message = String::new();
    message.append("{\"type\":\"xlm-ns-resolution\",\"name\":\"");
    message.append(name);
    message.append("\",\"destination_chain\":\"");
    message.append(destination_chain);
    message.append("\",\"resolver\":\"");
    message.append(resolver);
    message.append("\"}");
    assert(message@ =~= gmp_message(name@, destination_chain@, resolver@));
    message
}

} // verus!
