//! The Bitcoin network that the processor runs on.

use crate::text::{ascii_lowered, law_lower_case_keeps_the_rest, str_eq, to_ascii_lower};
use vstd::prelude::*;

verus! {

/// A Bitcoin network.
#[derive(Clone, Copy, Debug, PartialEq, Eq, Structural)]
pub enum Network {
    Bitcoin,
    Testnet,
    Signet,
    Regtest,
}

/// The network that a configured name stands for: the four names in any ASCII case, and signet
/// for anything else.
pub open spec fn network_named(name: Seq<char>) -> Network {
    let lower = ascii_lowered(name);
    if lower == "mainnet"@ {
        Network::Bitcoin
    } else if lower == "testnet"@ {
        Network::Testnet
    } else if lower == "regtest"@ {
        Network::Regtest
    } else {
        Network::Signet
    }
}

/// Reads a configured network name.
pub fn parse_network(name: &str) -> (network: Network)
    ensures
        network == network_named(name@),
{
    let lower = to_ascii_lower(name);
    if str_eq(lower.as_str(), "mainnet") {
        Network::Bitcoin
    } else if str_eq(lower.as_str(), "testnet") {
        Network::Testnet
    } else if str_eq(lower.as_str(), "regtest") {
        Network::Regtest
    } else {
        Network::Signet
    }
}

/// The name of a network is read in any case, and a name that is none of mainnet, testnet and
/// regtest is signet's.
pub proof fn law_network_is_read_in_any_case(name: Seq<char>)
    ensures
        network_named(name) == network_named(ascii_lowered(name)),
        network_named(name) == Network::Bitcoin <==> ascii_lowered(name) == "mainnet"@,
        network_named(name) == Network::Testnet <==> ascii_lowered(name) == "testnet"@,
        network_named(name) == Network::Regtest <==> ascii_lowered(name) == "regtest"@,
{
    if name.len() > 0 {
        law_lower_case_keeps_the_rest(name, 0);
    } else {
        assert(ascii_lowered(ascii_lowered(name)) =~= ascii_lowered(name));
    }
    reveal_strlit("mainnet");
    reveal_strlit("testnet");
    reveal_strlit("regtest");
    assert("mainnet"@[0] == 'm' && "testnet"@[0] == 't' && "regtest"@[0] == 'r');
}

} // verus!
