use wallet_keys::announcement::Announcement;
use wallet_keys::field::Digest;
use wallet_keys::field::FieldElement;
use wallet_keys::keys::AddressableKey;
use wallet_keys::keys::BaseKeyType;
use wallet_keys::keys::BaseSpendingKey;
use wallet_keys::keys::HashLockKey;
use wallet_keys::keys::ReceivingAddress;
use wallet_keys::symmetric_key::SymmetricKey;
use wallet_keys::utxo::Coin;
use wallet_keys::utxo::Utxo;
use wallet_keys::utxo::UtxoNotificationPayload;

fn fe(v: u64) -> FieldElement {
    FieldElement::new(v)
}

fn payload(n: u64) -> UtxoNotificationPayload {
    let coin = Coin::new(Digest::new([n, 1, 2, 3, 4]), vec![fe(n), fe(n * 2)]);
    UtxoNotificationPayload::new(
        Utxo::from_parts(Digest::new([5, 6, 7, 8, n]), vec![coin]),
        Digest::new([n, n, n, n, n + 1]),
    )
}

#[test]
fn scan_returns_exactly_the_utxos_for_the_key() {
    let key = SymmetricKey::from_seed(Digest::new([1, 2, 3, 4, 5]));
    let other = SymmetricKey::from_seed(Digest::new([5, 4, 3, 2, 1]));
    let mine1 = key.generate_announcement(&payload(10)).unwrap();
    let mine2 = key.generate_announcement(&payload(11)).unwrap();
    let theirs = other.generate_announcement(&payload(12)).unwrap();
    let truncated = Announcement::new(vec![fe(80)]);
    let empty = Announcement::new(vec![]);
    let generation_flag = Announcement::new(vec![fe(79), key.receiver_identifier(), fe(1), fe(2)]);
    let mut garbage_for_key = mine1.message.clone();
    garbage_for_key.truncate(3);
    let garbage = Announcement::new(garbage_for_key);
    let batch = vec![
        theirs,
        mine1,
        truncated,
        empty,
        generation_flag,
        garbage,
        mine2,
    ];
    let found = AddressableKey::Symmetric(key).scan_for_announced_utxos(&batch);
    assert_eq!(found.len(), 2);
    assert_eq!(found[0].utxo, payload(10).utxo);
    assert_eq!(found[0].sender_randomness, payload(10).sender_randomness);
    assert_eq!(found[0].receiver_preimage, key.privacy_preimage());
    assert_eq!(found[1].utxo, payload(11).utxo);
    let base = BaseSpendingKey::Symmetric(key).scan_for_announced_utxos(&batch);
    assert_eq!(base, found);
}

#[test]
fn scan_of_empty_batch_is_empty() {
    let key = SymmetricKey::from_seed(Digest::new([1, 2, 3, 4, 5]));
    assert!(AddressableKey::Symmetric(key).scan_for_announced_utxos(&[]).is_empty());
}

#[test]
fn hash_lock_key_has_no_address_and_finds_nothing() {
    let key = BaseSpendingKey::RawHashLock(HashLockKey::from_preimage(Digest::new([9, 8, 7, 6, 5])));
    assert_eq!(key.to_address(), None);
    assert_eq!(key.receiver_identifier(), None);
    assert_eq!(key.privacy_preimage(), None);
    assert_eq!(key.decrypt(&[fe(1), fe(2)]), None);
    let sym = SymmetricKey::from_seed(Digest::new([1, 2, 3, 4, 5]));
    let a = sym.generate_announcement(&payload(1)).unwrap();
    assert!(key.scan_for_announced_utxos(&[a]).is_empty());
    assert_eq!(key.key_type(), BaseKeyType::RawHashLock);
}

#[test]
fn hash_lock_key_lock_script_uses_the_preimage() {
    let preimage = Digest::new([9, 8, 7, 6, 5]);
    let key = HashLockKey::from_preimage(preimage);
    assert_eq!(key.after_image(), preimage.hash());
    let w = key.lock_script_and_witness();
    let tokens: Vec<u64> = w.nd_tokens.iter().map(|e| e.value()).collect();
    assert_eq!(tokens, vec![5, 6, 7, 8, 9]);
    assert_eq!(w.program, key.lock_script().program);
    assert_eq!(key.lock_script_hash(), key.lock_script().hash());
    let base = BaseSpendingKey::RawHashLock(key);
    assert_eq!(base.lock_script_hash(), key.lock_script_hash());
}

#[test]
fn addressable_key_matches_its_base_key() {
    let sym = SymmetricKey::from_seed(Digest::new([1, 1, 2, 3, 5]));
    let key = AddressableKey::Symmetric(sym);
    let base = key.to_base();
    assert_eq!(base.receiver_identifier(), Some(key.receiver_identifier()));
    assert_eq!(base.privacy_preimage(), Some(key.privacy_preimage()));
    assert_eq!(base.lock_script_hash(), key.lock_script_hash());
    assert_eq!(key.to_address(), ReceivingAddress::Symmetric(sym));
    assert_eq!(base.to_address(), Some(ReceivingAddress::Symmetric(sym)));
    assert_ne!(key.lock_script_hash(), sym.lock_after_image());
}

#[test]
fn key_type_of_announcement() {
    assert_eq!(BaseKeyType::try_from_announcement(&Announcement::new(vec![fe(80)])), Some(BaseKeyType::Symmetric));
    assert_eq!(BaseKeyType::try_from_announcement(&Announcement::new(vec![fe(79)])), Some(BaseKeyType::Generation));
    assert_eq!(BaseKeyType::try_from_announcement(&Announcement::new(vec![fe(0)])), None);
    assert_eq!(BaseKeyType::try_from_announcement(&Announcement::new(vec![])), None);
    assert_eq!(BaseKeyType::Symmetric.flag().value(), 80);
    assert_eq!(BaseKeyType::Generation.flag().value(), 79);
    assert_eq!(BaseKeyType::RawHashLock.flag().value(), 0);
    assert_eq!(BaseKeyType::all_types().len(), 3);
}

#[test]
fn base_key_from_addressable_key_gives_same_witness() {
    let sym = SymmetricKey::from_seed(Digest::new([2, 3, 5, 7, 11]));
    let ak = AddressableKey::Symmetric(sym);
    let from_addressable = ak.lock_script_and_witness();
    let from_base = ak.to_base().lock_script_and_witness();
    assert_eq!(from_addressable, from_base);
    assert!(from_base.nd_memory.is_empty());
    assert!(from_base.nd_digests.is_empty());
    let h = HashLockKey::from_preimage(Digest::new([1, 2, 3, 4, 5]));
    assert_eq!(BaseSpendingKey::RawHashLock(h).lock_script_and_witness(), h.lock_script_and_witness());
}
