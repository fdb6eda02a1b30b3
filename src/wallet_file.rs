//! The immutable secret data of a wallet.
use vstd::prelude::*;

verus! {

/// The secret from which every key of a wallet is derived: an element of the
/// cubic extension field, as its three base-field coefficients.
#[derive(Clone, Copy, Debug, PartialEq, Eq)]
pub struct SecretKeyMaterial {
    pub coefficients: [u64; 3],
}

/// The entropy of a wallet, from which its keys are derived.
#[derive(Clone, Copy, Debug, PartialEq, Eq)]
pub struct WalletEntropy {
    pub secret_seed: SecretKeyMaterial,
}

impl WalletEntropy {
    pub fn new(secret_seed: SecretKeyMaterial) -> (r: WalletEntropy)
        ensures
            r.secret_seed == secret_seed,
    {
        WalletEntropy { secret_seed }
    }
}

/// The version of the wallet file layout.
pub const STANDARD_WALLET_VERSION: u8 = 0;

/// Immutable secret data of a wallet, as it is stored in its file.
#[derive(Clone, Debug, PartialEq, Eq)]
pub struct WalletFile {
    pub name: String,
    pub secret_seed: SecretKeyMaterial,
    pub version: u8,
}

/// The name of the standard wallet.
pub open spec fn standard_wallet_name() -> Seq<char> {
    seq!['s', 't', 'a', 'n', 'd', 'a', 'r', 'd', '_', 'w', 'a', 'l', 'l', 'e', 't']
}

impl WalletFile {
    /// The standard wallet with the given secret.
    pub fn new(secret_seed: SecretKeyMaterial) -> (r: WalletFile)
        ensures
            r.name@ == standard_wallet_name(),
            r.secret_seed == secret_seed,
            r.version == STANDARD_WALLET_VERSION,
    {
        let cs = vec!['s', 't', 'a', 'n', 'd', 'a', 'r', 'd', '_', 'w', 'a', 'l', 'l', 'e', 't'];
        assert(cs@ =~= standard_wallet_name());
        WalletFile {
            name: crate::announcement::string_from_chars(&cs),
            secret_seed,
            version: STANDARD_WALLET_VERSION,
        }
    }

    /// The wallet's entropy.
    pub fn entropy(&self) -> (r: WalletEntropy)
        ensures
            r.secret_seed == self.secret_seed,
    {
        WalletEntropy::new(self.secret_seed)
    }

    /// The wallet's secret key material.
    pub fn secret_key(&self) -> (r: SecretKeyMaterial)
        ensures
            r == self.secret_seed,
    {
        self.entropy().secret_seed
    }
}

} // verus!
