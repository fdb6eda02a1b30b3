//! The networks that keys and notifications are bound to.
use vstd::prelude::*;

verus! {

/// A network of the chain; text encodings carry it in their prefix.
#[derive(Clone, Copy, Debug, PartialEq, Eq)]
pub enum Network {
    /// The main network.
    Main,
    /// The public test network.
    Testnet,
    /// A local network for tests.
    RegTest,
}

/// The character that tells the networks apart in human-readable prefixes.
pub open spec fn network_char(network: Network) -> char {
    match network {
        Network::Main => 'm',
        Network::Testnet => 't',
        Network::RegTest => 'r',
    }
}

/// The character that tells the networks apart in human-readable prefixes.
pub fn network_hrp_char(network: Network) -> (r: char)
    ensures
        r == network_char(network),
{
    match network {
        Network::Main => 'm',
        Network::Testnet => 't',
        Network::RegTest => 'r',
    }
}

} // verus!
