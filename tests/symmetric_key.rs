use wallet_keys::field::Digest;
use wallet_keys::field::FieldElement;
use wallet_keys::field::P;
use wallet_keys::lock_script::Instruction;
use wallet_keys::native_currency::NativeCurrencyAmount;
use wallet_keys::network::Network;
use wallet_keys::symmetric_key::DecryptError;
use wallet_keys::symmetric_key::KeyDecodeError;
use wallet_keys::symmetric_key::SymmetricKey;
use wallet_keys::utxo::Coin;
use wallet_keys::utxo::Utxo;
use wallet_keys::utxo::UtxoNotificationPayload;

fn digest(v: u64) -> Digest {
    Digest::new([v, v + 1, v + 2, v + 3, v + 4])
}

fn payload_of(amount: u32, sender_randomness: Digest) -> UtxoNotificationPayload {
    let coin = Coin::new_native_currency(digest(1000), NativeCurrencyAmount::coins(amount));
    let utxo = Utxo::from_parts(digest(2000), vec![coin]);
    UtxoNotificationPayload::new(utxo, sender_randomness)
}

#[test]
fn encrypt_then_decrypt_reproduces_payload_for_zero_seed() {
    let key = SymmetricKey::from_seed(Digest::new([0; 5]));
    let payload = payload_of(100, Digest::new([1; 5]));
    let ciphertext = key.encrypt(&payload).unwrap();
    let (utxo, sender_randomness) = key.decrypt(&ciphertext).unwrap();
    assert_eq!(utxo, payload.utxo);
    assert_eq!(sender_randomness, payload.sender_randomness);
    assert_eq!(key.receiver_identifier(), key.receiver_identifier());
    let again = SymmetricKey::from_seed(Digest::new([0; 5]));
    assert_eq!(key.receiver_identifier(), again.receiver_identifier());
}

#[test]
fn encryption_is_deterministic_and_hides_the_plaintext() {
    let key = SymmetricKey::from_seed(digest(7));
    let payload = payload_of(5, digest(9));
    let c1 = key.encrypt(&payload).unwrap();
    let c2 = key.encrypt(&payload).unwrap();
    assert_eq!(c1, c2);
    let other = payload_of(5, digest(10));
    let c3 = key.encrypt(&other).unwrap();
    assert_ne!(c1[0], c3[0]);
    let plain = wallet_keys::utxo::payload_to_fes(&payload);
    assert!(c1.len() > plain.len());
    assert!(c1.iter().all(|e| e.value() < P));
}

#[test]
fn decrypt_with_another_key_fails() {
    let key = SymmetricKey::from_seed(digest(7));
    let other = SymmetricKey::from_seed(digest(8));
    let ciphertext = key.encrypt(&payload_of(3, digest(1))).unwrap();
    assert_eq!(other.decrypt(&ciphertext), Err(DecryptError::DecryptionFailed));
}

#[test]
fn decrypt_of_tampered_ciphertext_fails() {
    let key = SymmetricKey::from_seed(digest(7));
    let mut ciphertext = key.encrypt(&payload_of(3, digest(1))).unwrap();
    let last = ciphertext.len() - 1;
    ciphertext[last] = FieldElement::new(ciphertext[last].value() ^ 1);
    assert_eq!(key.decrypt(&ciphertext), Err(DecryptError::DecryptionFailed));
}

#[test]
fn decrypt_without_nonce_fails() {
    let key = SymmetricKey::from_seed(digest(7));
    assert_eq!(key.decrypt(&[]), Err(DecryptError::MissingNonce));
    assert_eq!(key.decrypt(&[FieldElement::new(5)]), Err(DecryptError::MissingNonce));
}

#[test]
fn decrypt_of_unpackable_elements_fails() {
    let key = SymmetricKey::from_seed(digest(7));
    let bad_count = [FieldElement::new(1), FieldElement::new(100), FieldElement::new(0)];
    assert_eq!(key.decrypt(&bad_count), Err(DecryptError::ByteConversionFailed));
    let too_wide = [FieldElement::new(1), FieldElement::new(7), FieldElement::new(1 << 60)];
    assert_eq!(key.decrypt(&too_wide), Err(DecryptError::ByteConversionFailed));
}

#[test]
fn derived_values_differ_from_the_seed_and_from_each_other() {
    let key = SymmetricKey::from_seed(digest(11));
    let preimage = key.receiver_preimage();
    let unlock = key.unlock_key();
    assert_ne!(preimage, unlock);
    assert_ne!(preimage, key.seed());
    assert_eq!(key.receiver_postimage(), preimage.hash());
    assert_eq!(key.lock_after_image(), unlock.hash());
    assert_ne!(key.lock_after_image(), unlock);
    assert_eq!(key.privacy_preimage(), preimage);
    let secret = key.secret_key();
    assert_eq!(secret.len(), 32);
    assert_ne!(secret, vec![0u8; 32]);
    let other = SymmetricKey::from_seed(digest(12));
    assert_ne!(other.secret_key(), secret);
    assert_ne!(other.receiver_identifier(), key.receiver_identifier());
}

#[test]
fn lock_script_checks_the_unlock_key() {
    let key = SymmetricKey::from_seed(digest(11));
    let after = key.lock_after_image().values;
    let witness = key.lock_script_and_witness();
    let expected = vec![
        Instruction::Divine(5),
        Instruction::Hash,
        Instruction::Push(FieldElement::new(after[4])),
        Instruction::Push(FieldElement::new(after[3])),
        Instruction::Push(FieldElement::new(after[2])),
        Instruction::Push(FieldElement::new(after[1])),
        Instruction::Push(FieldElement::new(after[0])),
        Instruction::AssertVector,
        Instruction::ReadIo(5),
        Instruction::Halt,
    ];
    assert_eq!(witness.program, expected);
    assert_eq!(key.lock_script().program, expected);
    let unlock = key.unlock_key().values;
    let tokens: Vec<u64> = witness.nd_tokens.iter().map(|e| e.value()).collect();
    assert_eq!(tokens, vec![unlock[4], unlock[3], unlock[2], unlock[1], unlock[0]]);
}

#[test]
fn key_bech32m_round_trip() {
    let key = SymmetricKey::from_seed(digest(21));
    let encoded = key.to_bech32m(Network::Testnet);
    assert!(encoded.starts_with("nsymkt1"));
    let decoded = SymmetricKey::from_bech32m(&encoded, Network::Testnet).unwrap();
    assert_eq!(decoded, key);
}

#[test]
fn key_bech32m_rejects_other_network() {
    let key = SymmetricKey::from_seed(digest(21));
    let encoded = key.to_bech32m(Network::Main);
    assert_eq!(
        SymmetricKey::from_bech32m(&encoded, Network::Testnet),
        Err(KeyDecodeError::WrongPrefix)
    );
    assert_eq!(
        SymmetricKey::from_bech32m(&encoded, Network::RegTest),
        Err(KeyDecodeError::WrongPrefix)
    );
}

#[test]
fn key_bech32m_rejects_garbage() {
    assert_eq!(
        SymmetricKey::from_bech32m("not a bech32 string", Network::Main),
        Err(KeyDecodeError::InvalidEncoding)
    );
}

#[test]
fn display_bech32m_does_not_reveal_the_seed() {
    let key = SymmetricKey::from_seed(digest(21));
    let shown = key.to_display_bech32m(Network::Main);
    assert!(shown.starts_with("nsymkm1"));
    assert_ne!(shown, key.to_bech32m(Network::Main));
}

#[test]
fn native_currency_amount_encodes_as_four_limbs() {
    let amount = NativeCurrencyAmount::coins(100);
    let limbs = amount.encode();
    let nau: u128 = 100 * 250_000_000_000_000_000_000_000_000_000;
    let expected: Vec<u64> = (0..4).map(|i| ((nau >> (32 * i)) & 0xffff_ffff) as u64).collect();
    assert_eq!(limbs.iter().map(|e| e.value()).collect::<Vec<u64>>(), expected);
    assert_eq!(NativeCurrencyAmount::decode(&limbs), Some(amount));
    let negative = NativeCurrencyAmount { nau: -5 };
    assert_eq!(NativeCurrencyAmount::decode(&negative.encode()), Some(negative));
    assert_eq!(NativeCurrencyAmount::decode(&limbs[..3]), None);
    assert_eq!(NativeCurrencyAmount::decode(&[FieldElement::new(1 << 32), limbs[1], limbs[2], limbs[3]]), None);
    let coin = Coin::new_native_currency(digest(1000), amount);
    assert_eq!(coin.state, limbs);
    let utxo = Utxo::new_native_currency(&wallet_keys::lock_script::LockScript::anyone_can_spend(), digest(1000), amount);
    assert_eq!(utxo.coins(), &[coin][..]);
}
