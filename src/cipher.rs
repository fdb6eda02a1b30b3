//! The authenticated cipher and the key-derivation function, behind the
//! outside crates that implement them.
use aead::Aead;
use aead::KeyInit;
use sha3::digest::ExtendableOutput;
use sha3::digest::Update;
use sha3::digest::XofReader;
use vstd::prelude::*;

verus! {

/// The largest plaintext, in bytes, that the cipher accepts.
pub const PLAINTEXT_MAX: u64 = 0x10_0000_0000;

/// The largest message, in bytes, that the cipher opens (`C_MAX` in the
/// crate's source, checked against the ciphertext without its tag).
pub const OPEN_MAX: u64 = 0x10_0000_0010;

/// The ciphertext that AES-256-GCM produces from a 32-byte key, a 12-byte
/// nonce and a plaintext, with no associated data.
pub uninterp spec fn aes_gcm_seal(key: Seq<u8>, nonce: Seq<u8>, plaintext: Seq<u8>) -> Seq<u8>;

/// The first 32 bytes of SHAKE-256 output on `data`.
pub uninterp spec fn shake256_32_of(data: Seq<u8>) -> Seq<u8>;

/// Relies on `aes_gcm::Aes256Gcm` through `aead::Aead::encrypt`: it fails
/// exactly when the plaintext is longer than `2^36` bytes (`P_MAX` in the
/// crate's source), and otherwise returns the ciphertext with a 16-byte tag.
#[verifier::external_body]
pub(crate) fn aes_gcm_encrypt(key: &[u8], nonce: &[u8], plaintext: &[u8]) -> (r: Option<Vec<u8>>)
    requires
        key@.len() == 32,
        nonce@.len() == 12,
    ensures
        r is Some <==> plaintext@.len() <= PLAINTEXT_MAX,
        r matches Some(c) ==> c@ == aes_gcm_seal(key@, nonce@, plaintext@) && c@.len()
            == plaintext@.len() + 16,
{
    let cipher = aes_gcm::Aes256Gcm::new(aead::Key::<aes_gcm::Aes256Gcm>::from_slice(key));
    cipher.encrypt(aes_gcm::Nonce::from_slice(nonce), plaintext).ok()
}

/// Relies on `aes_gcm::Aes256Gcm` through `aead::Aead::decrypt`: it opens
/// what encryption under the same key and nonce sealed, and what it opens is
/// a plaintext that seals to the ciphertext (the tag is recomputed from the
/// plaintext and compared), 16 bytes shorter than the ciphertext and no
/// longer than `C_MAX`.
#[verifier::external_body]
pub(crate) fn aes_gcm_decrypt(key: &[u8], nonce: &[u8], ciphertext: &[u8]) -> (r: Option<Vec<u8>>)
    requires
        key@.len() == 32,
        nonce@.len() == 12,
    ensures
        r is Some ==> aes_gcm_seal(key@, nonce@, r->0@) == ciphertext@ && r->0@.len() + 16
            == ciphertext@.len() && r->0@.len() <= OPEN_MAX,
        forall|p: Seq<u8>|
            p.len() <= OPEN_MAX && #[trigger] aes_gcm_seal(key@, nonce@, p) == ciphertext@
                ==> r is Some && r->0@ == p,
{
    let cipher = aes_gcm::Aes256Gcm::new(aead::Key::<aes_gcm::Aes256Gcm>::from_slice(key));
    cipher.decrypt(aes_gcm::Nonce::from_slice(nonce), ciphertext).ok()
}

/// Relies on `sha3::Shake256`: 32 bytes of its output on `data`, which depend
/// on `data` alone.
#[verifier::external_body]
pub(crate) fn shake256_32(data: &[u8]) -> (r: Vec<u8>)
    ensures
        r@ == shake256_32_of(data@),
        r@.len() == 32,
{
    let mut hasher = sha3::Shake256::default();
    hasher.update(data);
    let mut out = vec![0u8; 32];
    hasher.finalize_xof().read(&mut out);
    out
}

} // verus!
