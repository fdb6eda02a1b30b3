//! Spending keys, lock scripts and the encrypted UTXO notification protocol
//! of a UTXO-based wallet.
pub mod announcement;
pub mod bech32m;
pub mod block_selector;
pub mod cipher;
pub mod codec;
pub mod field;
pub mod keys;
pub mod laws;
pub mod lock_script;
pub mod native_currency;
pub mod network;
pub mod notification;
pub mod peer;
pub mod symmetric_key;
pub mod transaction_proof_type;
pub mod utxo;
pub mod utxo_notification;
pub mod wallet_file;
