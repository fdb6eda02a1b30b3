//! How the sender of a payment tells the receiver about it.
use crate::keys::ReceivingAddress;
use vstd::prelude::*;

verus! {

/// Where a UTXO notification travels.
#[derive(Clone, Copy, Debug, PartialEq, Eq)]
pub enum UtxoNotificationMedium {
    /// In an announcement on chain.
    OnChain,
    /// As a string handed over outside the chain.
    OffChain,
}

impl Default for UtxoNotificationMedium {
    fn default() -> (r: UtxoNotificationMedium)
        ensures
            r == UtxoNotificationMedium::OnChain,
    {
        UtxoNotificationMedium::OnChain
    }
}

/// How a UTXO's secrets reach its receiver, and under which address they are
/// encrypted.
#[derive(Clone, Copy, Debug, PartialEq, Eq)]
pub enum UtxoNotifyMethod {
    /// Encrypted to the address, on chain.
    OnChain(ReceivingAddress),
    /// Encrypted to the address, outside the chain.
    OffChain(ReceivingAddress),
    /// No notification is intended.
    NoNotification,
}

impl UtxoNotifyMethod {
    /// The method that sends to `address` over `medium`.
    pub fn new(medium: UtxoNotificationMedium, address: ReceivingAddress) -> (r: UtxoNotifyMethod)
        ensures
            r == match medium {
                UtxoNotificationMedium::OnChain => UtxoNotifyMethod::OnChain(address),
                UtxoNotificationMedium::OffChain => UtxoNotifyMethod::OffChain(address),
            },
    {
        match medium {
            UtxoNotificationMedium::OnChain => UtxoNotifyMethod::OnChain(address),
            UtxoNotificationMedium::OffChain => UtxoNotifyMethod::OffChain(address),
        }
    }
}

} // verus!
