//! Symmetric keys: every secret and public value of the key is derived from
//! one seed, and UTXO notifications are encrypted with AES-256-GCM under a key
//! derived from it.
use crate::announcement::string_from_chars;
use crate::announcement::Announcement;
use crate::bech32m::bech32m_string_of;
use crate::bech32m::decode_bech32;
use crate::bech32m::decode_post;
use crate::bech32m::decoded_view;
use crate::bech32m::encode_bech32m;
use crate::bech32m::valid_lower_hrp;
use crate::bech32m::DecodedView;
use crate::cipher::aes_gcm_decrypt;
use crate::cipher::aes_gcm_encrypt;
use crate::cipher::aes_gcm_seal;
use crate::cipher::shake256_32;
use crate::cipher::shake256_32_of;
use crate::cipher::OPEN_MAX;
use crate::cipher::PLAINTEXT_MAX;
use crate::codec::bytes_to_words;
use crate::codec::decode_words;
use crate::codec::encode_words;
use crate::codec::is_word_encoding;
use crate::codec::pack;
use crate::codec::pack_bytes;
use crate::codec::u64_le;
use crate::codec::unpack;
use crate::codec::unpack_bytes;
use crate::codec::words_to_bytes;
use crate::field::all_canonical;
use crate::field::all_wf;
use crate::field::digest_hash_of;
use crate::field::hash_varlen;
use crate::field::hash_varlen_of;
use crate::field::vals;
use crate::field::Digest;
use crate::field::FieldElement;
use crate::field::MAX;
use crate::lock_script::hash_lock_program;
use crate::lock_script::LockScript;
use crate::lock_script::LockScriptAndWitness;
use crate::lock_script::NonDeterminism;
use crate::network::network_char;
use crate::network::network_hrp_char;
use crate::network::Network;
use crate::notification::message_bytes;
use crate::notification::message_of;
use crate::notification::notification_hrp;
use crate::notification::EncryptedUtxoNotification;
use crate::utxo::parse_payload;
use crate::utxo::payload_fes;
use crate::utxo::payload_from_fes;
use crate::utxo::payload_to_fes;
use crate::utxo::PayloadView;
use crate::utxo::Utxo;
use crate::utxo::UtxoNotificationPayload;
use vstd::prelude::*;

verus! {

/// The flag that marks notifications encrypted with a symmetric key.
pub const SYMMETRIC_KEY_FLAG_U8: u8 = 80;

/// Why a ciphertext did not decrypt.
#[derive(Clone, Copy, Debug, PartialEq, Eq)]
pub enum DecryptError {
    /// Fewer than two elements: there is no nonce followed by ciphertext.
    MissingNonce,
    /// The ciphertext elements do not hold packed bytes.
    ByteConversionFailed,
    /// The cipher refused the ciphertext: wrong key, or tampered data.
    DecryptionFailed,
    /// The plaintext is not a payload.
    DeserializationFailed,
}

/// Why a payload was not encrypted.
#[derive(Clone, Copy, Debug, PartialEq, Eq)]
pub enum EncryptError {
    /// The plaintext is longer than the cipher accepts.
    EncryptionFailed,
    /// The plaintext does not fit in memory.
    SerializationFailed,
}

/// An AES-256 symmetric key, held as the seed that every value of the key is
/// derived from.
#[derive(Clone, Copy, Debug, PartialEq, Eq)]
pub struct SymmetricKey {
    seed: Digest,
}

impl View for SymmetricKey {
    type V = Seq<u64>;

    closed spec fn view(&self) -> Seq<u64> {
        self.seed@
    }
}

/// The 32-byte cipher key of a seed.
pub open spec fn secret_key_of(seed: Seq<u64>) -> Seq<u8> {
    shake256_32_of(words_to_bytes(seed))
}

/// The receiver preimage of a seed.
pub open spec fn receiver_preimage_of(seed: Seq<u64>) -> Seq<u64> {
    hash_varlen_of(seed + seq![0u64])
}

/// The unlock key of a seed.
pub open spec fn unlock_key_of(seed: Seq<u64>) -> Seq<u64> {
    hash_varlen_of(seed + seq![1u64])
}

/// The public fingerprint of a seed.
pub open spec fn receiver_identifier_of(seed: Seq<u64>) -> u64 {
    hash_varlen_of(seed + seq![2u64])[0]
}

/// The nonce element that encryption derives from a payload.
pub open spec fn nonce_of(p: PayloadView) -> u64 {
    hash_varlen_of(payload_fes(p))[4]
}

/// The cipher nonce: the nonce element's eight big-endian bytes, then four
/// zero bytes.
pub open spec fn nonce_bytes(v: u64) -> Seq<u8> {
    u64_le(v).reverse() + seq![0u8, 0u8, 0u8, 0u8]
}

/// The plaintext of a payload.
pub open spec fn plaintext_of(p: PayloadView) -> Seq<u8> {
    words_to_bytes(payload_fes(p))
}

/// The payload that a plaintext holds, if it holds one.
pub open spec fn payload_from_plaintext(pt: Seq<u8>) -> Option<PayloadView> {
    if is_word_encoding(pt) {
        parse_payload(bytes_to_words(pt))
    } else {
        None
    }
}

/// The ciphertext elements for a payload under a seed: the nonce element,
/// then the sealed plaintext in packed form.
pub open spec fn ciphertext_of(seed: Seq<u64>, p: PayloadView) -> Seq<u64> {
    seq![nonce_of(p)] + pack_bytes(
        aes_gcm_seal(secret_key_of(seed), nonce_bytes(nonce_of(p)), plaintext_of(p)),
    )
}

/// What encryption returns for a payload under a seed.
pub open spec fn encrypt_of(seed: Seq<u64>, p: PayloadView) -> Result<Seq<u64>, EncryptError> {
    if 8 * payload_fes(p).len() > usize::MAX {
        Err(EncryptError::SerializationFailed)
    } else if plaintext_of(p).len() > PLAINTEXT_MAX || aes_gcm_seal(
        secret_key_of(seed),
        nonce_bytes(nonce_of(p)),
        plaintext_of(p),
    ).len() > MAX {
        Err(EncryptError::EncryptionFailed)
    } else {
        Ok(ciphertext_of(seed, p))
    }
}

/// What decryption may return for ciphertext elements `c` under a seed.
/// With the nonce and the sealed bytes taken apart, every plaintext that seals
/// to those bytes decides the result; where none does, decryption fails.
pub open spec fn decrypt_post(seed: Seq<u64>, c: Seq<u64>, r: Result<PayloadView, DecryptError>) -> bool {
    if c.len() < 2 {
        r == Err::<PayloadView, DecryptError>(DecryptError::MissingNonce)
    } else {
        match unpack_bytes(c.subrange(1, c.len() as int)) {
            None => r == Err::<PayloadView, DecryptError>(DecryptError::ByteConversionFailed),
            Some(ct) => {
                let k = secret_key_of(seed);
                let nb = nonce_bytes(c[0]);
                &&& r != Err::<PayloadView, DecryptError>(DecryptError::MissingNonce)
                &&& r != Err::<PayloadView, DecryptError>(DecryptError::ByteConversionFailed)
                &&& (r is Ok ==> exists|pt: Seq<u8>|
                    pt.len() <= OPEN_MAX && #[trigger] aes_gcm_seal(k, nb, pt) == ct
                        && payload_from_plaintext(pt) == Some(r->Ok_0))
                &&& (r == Err::<PayloadView, DecryptError>(DecryptError::DeserializationFailed)
                    ==> exists|pt: Seq<u8>|
                    pt.len() <= OPEN_MAX && #[trigger] aes_gcm_seal(k, nb, pt) == ct
                        && payload_from_plaintext(pt) is None)
                &&& (r == Err::<PayloadView, DecryptError>(DecryptError::DecryptionFailed)
                    ==> forall|pt: Seq<u8>|
                    pt.len() <= OPEN_MAX ==> #[trigger] aes_gcm_seal(k, nb, pt) != ct)
                &&& forall|pt: Seq<u8>|
                    pt.len() <= OPEN_MAX && #[trigger] aes_gcm_seal(k, nb, pt) == ct ==> r
                        == match payload_from_plaintext(pt) {
                        Some(p) => Ok(p),
                        None => Err(DecryptError::DeserializationFailed),
                    }
            },
        }
    }
}

proof fn lemma_decrypt_refused(
    seed: Seq<u64>,
    c: Seq<u64>,
    ct: Seq<u8>,
    r: Result<PayloadView, DecryptError>,
)
    requires
        decrypt_post(seed, c, r),
        c.len() >= 2,
        unpack_bytes(c.subrange(1, c.len() as int)) == Some(ct),
        !exists|pt: Seq<u8>|
            pt.len() <= OPEN_MAX && #[trigger] aes_gcm_seal(secret_key_of(seed), nonce_bytes(c[0]), pt)
                == ct,
    ensures
        r == Err::<PayloadView, DecryptError>(DecryptError::DecryptionFailed),
{
    let k = secret_key_of(seed);
    let nb = nonce_bytes(c[0]);
    match r {
        Ok(_) => {
            let pt = choose|pt: Seq<u8>|
                pt.len() <= OPEN_MAX && #[trigger] aes_gcm_seal(k, nb, pt) == ct
                    && payload_from_plaintext(pt) == Some(r->Ok_0);
            assert(false);
        },
        Err(DecryptError::DeserializationFailed) => {
            let pt = choose|pt: Seq<u8>|
                pt.len() <= OPEN_MAX && #[trigger] aes_gcm_seal(k, nb, pt) == ct
                    && payload_from_plaintext(pt) is None;
            assert(false);
        },
        _ => {},
    }
}

/// What decryption returns is fixed by the ciphertext: two results that
/// decryption may return on the same input are equal.
pub proof fn lemma_decrypt_deterministic(
    seed: Seq<u64>,
    c: Seq<u64>,
    r1: Result<PayloadView, DecryptError>,
    r2: Result<PayloadView, DecryptError>,
)
    requires
        decrypt_post(seed, c, r1),
        decrypt_post(seed, c, r2),
    ensures
        r1 == r2,
{
    if c.len() >= 2 {
        if let Some(ct) = unpack_bytes(c.subrange(1, c.len() as int)) {
            let k = secret_key_of(seed);
            let nb = nonce_bytes(c[0]);
            if exists|pt: Seq<u8>| pt.len() <= OPEN_MAX && #[trigger] aes_gcm_seal(k, nb, pt) == ct {
                let pt = choose|pt: Seq<u8>|
                    pt.len() <= OPEN_MAX && #[trigger] aes_gcm_seal(k, nb, pt) == ct;
                assert(aes_gcm_seal(k, nb, pt) == ct);
            } else {
                lemma_decrypt_refused(seed, c, ct, r1);
                lemma_decrypt_refused(seed, c, ct, r2);
            }
        }
    }
}

/// The plain values of a decryption result.
pub open spec fn decrypt_result_view(r: Result<(Utxo, Digest), DecryptError>) -> Result<
    PayloadView,
    DecryptError,
> {
    match r {
        Ok((u, d)) => Ok((u@, d@)),
        Err(e) => Err(e),
    }
}

/// The human-readable prefix of symmetric keys on `network`.
pub open spec fn key_hrp(network: Network) -> Seq<char> {
    seq!['n', 's', 'y', 'm', 'k', network_char(network)]
}

/// Why a bech32m string is not a symmetric key.
#[derive(Clone, Copy, Debug, PartialEq, Eq)]
pub enum KeyDecodeError {
    /// The string is not bech32 at all.
    InvalidEncoding,
    /// The checksum is that of bech32, not bech32m.
    NotBech32m,
    /// The human-readable prefix is not the one expected.
    WrongPrefix,
    /// The data part does not convert to bytes.
    InvalidData,
    /// The bytes do not hold a seed.
    Deserialization,
}

/// The seed that decoded bech32 parts give for `network`.
pub open spec fn key_from_decoded_of(d: DecodedView, network: Network) -> Result<Seq<u64>, KeyDecodeError> {
    match d {
        None => Err(KeyDecodeError::InvalidEncoding),
        Some((hrp, is_m, data)) => if !is_m {
            Err(KeyDecodeError::NotBech32m)
        } else if hrp != key_hrp(network) {
            Err(KeyDecodeError::WrongPrefix)
        } else {
            match data {
                None => Err(KeyDecodeError::InvalidData),
                Some(bytes) => if is_word_encoding(bytes) && bytes.len() == 40 {
                    Ok(bytes_to_words(bytes))
                } else {
                    Err(KeyDecodeError::Deserialization)
                },
            }
        },
    }
}

/// The plain values of a key-decoding result.
pub open spec fn key_result_view(r: Result<SymmetricKey, KeyDecodeError>) -> Result<Seq<u64>, KeyDecodeError> {
    match r {
        Ok(k) => Ok(k@),
        Err(e) => Err(e),
    }
}

impl SymmetricKey {
    pub open spec fn wf(&self) -> bool {
        self@.len() == 5 && all_canonical(self@)
    }

    /// The key with the given seed.
    pub fn from_seed(seed: Digest) -> (r: SymmetricKey)
        ensures
            r@ == seed@,
            seed.wf() ==> r.wf(),
    {
        SymmetricKey { seed }
    }

    /// The seed.
    pub fn seed(&self) -> (r: Digest)
        ensures
            r@ == self@,
            self.wf() ==> r.wf(),
    {
        self.seed
    }

    /// The 32-byte cipher key, derived from the seed's bytes by SHAKE-256.
    pub fn secret_key(&self) -> (r: Vec<u8>)
        ensures
            r@ == secret_key_of(self@),
            r@.len() == 32,
    {
        let bytes = encode_words(&self.seed.elements());
        shake256_32(bytes.as_slice())
    }

    /// The seed followed by a domain-separation tag.
    fn tagged_seed(&self, tag: u64) -> (r: Vec<FieldElement>)
        ensures
            vals(r@) == self@ + seq![tag],
    {
        let mut v = self.seed.elements();
        let ghost before = v@;
        v.push(FieldElement { value: tag });
        assert(vals(v@) =~= vals(before) + seq![tag]);
        v
    }

    /// The receiver preimage: the hash of the seed tagged with 0.
    pub fn receiver_preimage(&self) -> (r: Digest)
        ensures
            r@ == receiver_preimage_of(self@),
            r.wf(),
    {
        hash_varlen(&self.tagged_seed(0))
    }

    /// The hash of the receiver preimage.
    pub fn receiver_postimage(&self) -> (r: Digest)
        ensures
            r@ == digest_hash_of(receiver_preimage_of(self@)),
            r.wf(),
    {
        self.receiver_preimage().hash()
    }

    /// The privacy preimage, which for this key is the receiver preimage.
    pub fn privacy_preimage(&self) -> (r: Digest)
        ensures
            r@ == receiver_preimage_of(self@),
            r.wf(),
    {
        self.receiver_preimage()
    }

    /// The public fingerprint: the first element of the hash of the seed
    /// tagged with 2.
    pub fn receiver_identifier(&self) -> (r: FieldElement)
        ensures
            r.value == receiver_identifier_of(self@),
            r.wf(),
    {
        let d = hash_varlen(&self.tagged_seed(2));
        FieldElement { value: d.values[0] }
    }

    /// The unlock key: the hash of the seed tagged with 1.
    pub fn unlock_key(&self) -> (r: Digest)
        ensures
            r@ == unlock_key_of(self@),
            r.wf(),
    {
        hash_varlen(&self.tagged_seed(1))
    }

    /// The hash of the unlock key, which the lock script checks.
    pub fn lock_after_image(&self) -> (r: Digest)
        ensures
            r@ == digest_hash_of(unlock_key_of(self@)),
            r.wf(),
    {
        self.unlock_key().hash()
    }

    /// The standard hash lock that the unlock key opens.
    pub fn lock_script(&self) -> (r: LockScript)
        ensures
            r.program@ == hash_lock_program(digest_hash_of(unlock_key_of(self@))),
    {
        LockScript::standard_hash_lock_from_after_image(self.lock_after_image())
    }

    /// The lock script with its witness: the unlock key, last element first.
    pub fn lock_script_and_witness(&self) -> (r: LockScriptAndWitness)
        ensures
            r.program@ == hash_lock_program(digest_hash_of(unlock_key_of(self@))),
            vals(r.nd_tokens@) == unlock_key_of(self@).reverse(),
            all_wf(r.nd_tokens@),
            r.nd_memory@.len() == 0,
            r.nd_digests@.len() == 0,
    {
        let lock_script = self.lock_script();
        let tokens = self.unlock_key().reversed().elements();
        LockScriptAndWitness::new_with_nondeterminism(lock_script.program, NonDeterminism::new(tokens))
    }

    /// Encrypts a payload: the nonce element derived from the payload, then
    /// the sealed plaintext in packed form.
    pub fn encrypt(&self, payload: &UtxoNotificationPayload) -> (r: Result<
        Vec<FieldElement>,
        EncryptError,
    >)
        requires
            payload.wf(),
        ensures
            r matches Ok(c) ==> encrypt_of(self@, payload@) == Ok::<Seq<u64>, EncryptError>(vals(c@)) && all_wf(c@),
            r matches Err(e) ==> encrypt_of(self@, payload@) == Err::<Seq<u64>, EncryptError>(e),
    {
        let fes = payload_to_fes(payload);
        if fes.len() > usize::MAX / 8 {
            return Err(EncryptError::SerializationFailed);
        }
        let nonce = hash_varlen(&fes).values[4];
        let nonce_b = nonce_to_bytes(nonce);
        let plaintext = encode_words(&fes);
        let key = self.secret_key();
        let ciphertext = match aes_gcm_encrypt(key.as_slice(), nonce_b.as_slice(), plaintext.as_slice()) {
            Some(c) => c,
            None => {
                return Err(EncryptError::EncryptionFailed);
            },
        };
        let packed = pack(ciphertext.as_slice());
        let mut out: Vec<FieldElement> = Vec::new();
        out.push(FieldElement { value: nonce });
        let mut i: usize = 0;
        while i < packed.len()
            invariant
                0 <= i <= packed@.len(),
                all_wf(packed@),
                nonce < crate::field::P,
                out@ == seq![FieldElement { value: nonce }] + packed@.take(i as int),
            decreases packed.len() - i,
        {
            out.push(packed[i]);
            assert(out@ =~= seq![FieldElement { value: nonce }] + packed@.take(i + 1));
            i = i + 1;
        }
        assert(packed@.take(packed@.len() as int) =~= packed@);
        assert(vals(out@) =~= seq![nonce] + vals(packed@));
        Ok(out)
    }

    /// Decrypts ciphertext elements into the UTXO and the sender randomness.
    pub fn decrypt(&self, ciphertext_bfes: &[FieldElement]) -> (r: Result<(Utxo, Digest), DecryptError>)
        requires
            all_wf(ciphertext_bfes@),
        ensures
            decrypt_post(self@, vals(ciphertext_bfes@), decrypt_result_view(r)),
            r matches Ok((u, d)) ==> u.wf() && d.wf(),
    {
        let ghost c = vals(ciphertext_bfes@);
        if ciphertext_bfes.len() < 2 {
            return Err(DecryptError::MissingNonce);
        }
        let nonce = ciphertext_bfes[0].value;
        let mut rest: Vec<FieldElement> = Vec::new();
        let mut i: usize = 1;
        while i < ciphertext_bfes.len()
            invariant
                1 <= i <= ciphertext_bfes@.len(),
                rest@ == ciphertext_bfes@.subrange(1, i as int),
            decreases ciphertext_bfes.len() - i,
        {
            rest.push(ciphertext_bfes[i]);
            assert(rest@ =~= ciphertext_bfes@.subrange(1, i + 1));
            i = i + 1;
        }
        assert(vals(rest@) =~= c.subrange(1, c.len() as int));
        let ciphertext = match unpack(rest.as_slice()) {
            Some(b) => b,
            None => {
                return Err(DecryptError::ByteConversionFailed);
            },
        };
        let nonce_b = nonce_to_bytes(nonce);
        let key = self.secret_key();
        let plaintext = match aes_gcm_decrypt(key.as_slice(), nonce_b.as_slice(), ciphertext.as_slice()) {
            Some(p) => p,
            None => {
                return Err(DecryptError::DecryptionFailed);
            },
        };
        let ghost k = secret_key_of(self@);
        let ghost nb = nonce_bytes(c[0]);
        assert(key@ == k && nonce_b@ == nb);
        assert(aes_gcm_seal(k, nb, plaintext@) == ciphertext@);
        assert(forall|pt: Seq<u8>|
            pt.len() <= OPEN_MAX && #[trigger] aes_gcm_seal(k, nb, pt) == ciphertext@ ==> pt
                == plaintext@);
        let words = match decode_words(plaintext.as_slice()) {
            Some(w) => w,
            None => {
                assert(payload_from_plaintext(plaintext@) is None);
                return Err(DecryptError::DeserializationFailed);
            },
        };
        match payload_from_fes(words.as_slice()) {
            Some(p) => {
                assert(payload_from_plaintext(plaintext@) == Some(p@));
                Ok((p.utxo, p.sender_randomness))
            },
            None => {
                assert(payload_from_plaintext(plaintext@) is None);
                Err(DecryptError::DeserializationFailed)
            },
        }
    }

    /// The notification of a payment to this key, in its on-chain form.
    pub fn generate_announcement(&self, utxo_notification_payload: &UtxoNotificationPayload) -> (r:
        Result<Announcement, EncryptError>)
        requires
            utxo_notification_payload.wf(),
        ensures
            r matches Ok(a) ==> encrypt_of(self@, utxo_notification_payload@) matches Ok(c) && a@
                == message_of((SYMMETRIC_KEY_FLAG_U8 as u64, receiver_identifier_of(self@), c))
                && a.wf(),
            r matches Err(e) ==> encrypt_of(self@, utxo_notification_payload@) == Err::<
                Seq<u64>,
                EncryptError,
            >(e),
    {
        let ciphertext = self.encrypt(utxo_notification_payload)?;
        let notification = EncryptedUtxoNotification {
            flag: FieldElement { value: SYMMETRIC_KEY_FLAG_U8 as u64 },
            receiver_identifier: self.receiver_identifier(),
            ciphertext,
        };
        Ok(notification.into_public_announcement())
    }

    /// The notification of a payment to this key, in its off-chain form for
    /// `network`.
    pub fn private_utxo_notification(
        &self,
        utxo_notification_payload: &UtxoNotificationPayload,
        network: Network,
    ) -> (r: Result<String, EncryptError>)
        requires
            utxo_notification_payload.wf(),
        ensures
            r matches Ok(s) ==> encrypt_of(self@, utxo_notification_payload@) matches Ok(c) && s@
                == bech32m_string_of(
                notification_hrp(network),
                message_bytes(message_of((SYMMETRIC_KEY_FLAG_U8 as u64, receiver_identifier_of(self@), c))),
            ),
            r is Ok <==> (encrypt_of(self@, utxo_notification_payload@) matches Ok(c) && c.len()
                <= usize::MAX / 8 - 3),
            r matches Err(e) ==> encrypt_of(self@, utxo_notification_payload@) == Err::<
                Seq<u64>,
                EncryptError,
            >(e) || (e == EncryptError::SerializationFailed && (encrypt_of(
                self@,
                utxo_notification_payload@,
            ) matches Ok(c) && c.len() > usize::MAX / 8 - 3)),
    {
        let ciphertext = match self.encrypt(utxo_notification_payload) {
            Ok(c) => c,
            Err(e) => {
                return Err(e);
            },
        };
        if ciphertext.len() > usize::MAX / 8 - 3 {
            return Err(EncryptError::SerializationFailed);
        }
        let notification = EncryptedUtxoNotification {
            flag: FieldElement { value: SYMMETRIC_KEY_FLAG_U8 as u64 },
            receiver_identifier: self.receiver_identifier(),
            ciphertext,
        };
        Ok(notification.into_bech32m(network))
    }

    /// The human-readable prefix of symmetric keys on `network`.
    pub fn get_hrp(network: Network) -> (r: String)
        ensures
            r@ == key_hrp(network),
    {
        let cs = vec!['n', 's', 'y', 'm', 'k', network_hrp_char(network)];
        assert(cs@ =~= key_hrp(network));
        string_from_chars(&cs)
    }

    /// The key as a bech32m string for `network`. Whoever sees the string can
    /// spend what the key guards.
    pub fn to_bech32m(&self, network: Network) -> (r: String)
        ensures
            r@ == bech32m_string_of(key_hrp(network), words_to_bytes(self@)),
    {
        let hrp = Self::get_hrp(network);
        let payload = encode_words(&self.seed.elements());
        proof {
            lemma_key_hrp_valid(network);
        }
        match encode_bech32m(hrp.as_str(), payload.as_slice()) {
            Some(s) => s,
            None => {
                proof {
                    assert(false);
                }
                String::new()
            },
        }
    }

    /// The receiver preimage as a bech32m string for `network`; it can be
    /// shown without giving the key away.
    pub fn to_display_bech32m(&self, network: Network) -> (r: String)
        ensures
            r@ == bech32m_string_of(key_hrp(network), words_to_bytes(receiver_preimage_of(self@))),
    {
        let hrp = Self::get_hrp(network);
        let payload = encode_words(&self.receiver_preimage().elements());
        proof {
            lemma_key_hrp_valid(network);
        }
        match encode_bech32m(hrp.as_str(), payload.as_slice()) {
            Some(s) => s,
            None => {
                proof {
                    assert(false);
                }
                String::new()
            },
        }
    }

    /// Decodes a key from its bech32m string and checks that it belongs to
    /// `network`.
    pub fn from_bech32m(encoded: &str, network: Network) -> (r: Result<SymmetricKey, KeyDecodeError>)
        ensures
            exists|d: DecodedView|
                decode_post(encoded@, d) && key_result_view(r) == key_from_decoded_of(d, network),
    {
        let decoded = decode_bech32(encoded);
        let r = Self::from_decoded_bech32m(decoded, network);
        assert(decode_post(encoded@, decoded_view(decoded)));
        r
    }

    /// The key that decoded bech32 parts give for `network`: the checksum must
    /// be bech32m, the prefix that of `network`, and the data the 40 bytes of
    /// a seed.
    pub fn from_decoded_bech32m(
        decoded: Option<(String, bool, Option<Vec<u8>>)>,
        network: Network,
    ) -> (r: Result<SymmetricKey, KeyDecodeError>)
        ensures
            key_result_view(r) == key_from_decoded_of(decoded_view(decoded), network),
            r matches Ok(k) ==> k.wf(),
    {
        let (hrp, is_bech32m, data) = match decoded {
            Some(parts) => parts,
            None => {
                return Err(KeyDecodeError::InvalidEncoding);
            },
        };
        if !is_bech32m {
            return Err(KeyDecodeError::NotBech32m);
        }
        let expected = Self::get_hrp(network);
        if !(hrp == expected) {
            return Err(KeyDecodeError::WrongPrefix);
        }
        let bytes = match data {
            Some(b) => b,
            None => {
                return Err(KeyDecodeError::InvalidData);
            },
        };
        if bytes.len() != 40 {
            return Err(KeyDecodeError::Deserialization);
        }
        let words = match decode_words(bytes.as_slice()) {
            Some(w) => w,
            None => {
                return Err(KeyDecodeError::Deserialization);
            },
        };
        let ghost w = vals(words@);
        assert(w.len() == 5);
        let seed = Digest {
            values: [words[0].value, words[1].value, words[2].value, words[3].value, words[4].value],
        };
        assert(seed@ =~= w);
        assert(words@[0].wf() && words@[1].wf() && words@[2].wf() && words@[3].wf() && words@[4].wf());
        Ok(SymmetricKey { seed })
    }
}

proof fn lemma_key_hrp_valid(network: Network)
    ensures
        valid_lower_hrp(key_hrp(network)),
{
}

/// The cipher nonce for a nonce element.
fn nonce_to_bytes(v: u64) -> (r: Vec<u8>)
    ensures
        r@ == nonce_bytes(v),
        r@.len() == 12,
{
    let r = vec![
        ((v >> 56u64) & 0xff) as u8,
        ((v >> 48u64) & 0xff) as u8,
        ((v >> 40u64) & 0xff) as u8,
        ((v >> 32u64) & 0xff) as u8,
        ((v >> 24u64) & 0xff) as u8,
        ((v >> 16u64) & 0xff) as u8,
        ((v >> 8u64) & 0xff) as u8,
        (v & 0xff) as u8,
        0u8,
        0u8,
        0u8,
        0u8,
    ];
    assert(r@ =~= nonce_bytes(v));
    r
}

} // verus!
