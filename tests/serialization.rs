use serde::de::DeserializeOwned;
use serde::Serialize;
use wallet_keys::announcement::Announcement;
use wallet_keys::announcement::PublicAnnouncement;
use wallet_keys::codec::encode_words;
use wallet_keys::field::Digest;
use wallet_keys::field::FieldElement;
use wallet_keys::keys::AddressableKey;
use wallet_keys::keys::AddressableKeyType;
use wallet_keys::keys::BaseKeyType;
use wallet_keys::keys::BaseSpendingKey;
use wallet_keys::keys::HashLockKey;
use wallet_keys::keys::ReceivingAddress;
use wallet_keys::lock_script::Instruction;
use wallet_keys::lock_script::LockScript;
use wallet_keys::lock_script::LockScriptAndWitness;
use wallet_keys::lock_script::NonDeterminism;
use wallet_keys::notification::EncryptedUtxoNotification;
use wallet_keys::symmetric_key::SymmetricKey;
use wallet_keys::utxo::payload_from_fes;
use wallet_keys::utxo::payload_to_fes;
use wallet_keys::utxo::Coin;
use wallet_keys::utxo::Utxo;
use wallet_keys::utxo::UtxoNotificationPayload;
use wallet_keys::utxo_notification::UtxoNotificationMedium;
use wallet_keys::utxo_notification::UtxoNotifyMethod;

#[derive(Clone, Copy)]
enum Codec {
    Bincode,
    Json,
    JsonWasm,
}

/// Serializes the plain values, reads them back and checks that a second
/// serialization gives the same bytes.
fn round_trip<T: Serialize + DeserializeOwned>(codec: Codec, value: &T) -> T {
    let (encoded, decoded): (Vec<u8>, T) = match codec {
        Codec::Bincode => {
            let e = bincode::serialize(value).unwrap();
            let d = bincode::deserialize(&e).unwrap();
            (e, d)
        }
        Codec::Json => {
            let e = serde_json::to_vec(value).unwrap();
            let d = serde_json::from_slice(&e).unwrap();
            (e, d)
        }
        Codec::JsonWasm => {
            let e = serde_json_wasm::to_vec(value).unwrap();
            let d = serde_json_wasm::from_slice(&e).unwrap();
            (e, d)
        }
    };
    let again = match codec {
        Codec::Bincode => bincode::serialize(&decoded).unwrap(),
        Codec::Json => serde_json::to_vec(&decoded).unwrap(),
        Codec::JsonWasm => serde_json_wasm::to_vec(&decoded).unwrap(),
    };
    assert_eq!(encoded, again);
    decoded
}

fn fe(v: u64) -> FieldElement {
    FieldElement::new(v)
}

fn seed() -> Digest {
    Digest::new([11, 22, 33, 44, 55])
}

fn payload() -> UtxoNotificationPayload {
    let coin = Coin::new(Digest::new([1, 2, 3, 4, 5]), vec![fe(100), fe(0), fe(7)]);
    UtxoNotificationPayload::new(
        Utxo::from_parts(Digest::new([6, 7, 8, 9, 10]), vec![coin]),
        Digest::new([1, 1, 1, 1, 1]),
    )
}

fn symmetric_key(codec: Codec) {
    let key = SymmetricKey::from_seed(seed());
    let values = round_trip(codec, &key.seed().values);
    assert_eq!(SymmetricKey::from_seed(Digest::new(values)), key);
    if let Codec::Bincode = codec {
        let bytes = encode_words(&key.seed().elements());
        assert_eq!(bytes, bincode::serialize(&key.seed().values).unwrap());
    }
}

#[test]
fn test_bincode_serialization_for_symmetric_key() {
    symmetric_key(Codec::Bincode);
}

#[test]
fn test_serde_json_serialization_for_symmetric_key() {
    symmetric_key(Codec::Json);
}

#[test]
fn test_serde_json_wasm_serialization_for_symmetric_key() {
    symmetric_key(Codec::JsonWasm);
}

fn hash_lock_key(codec: Codec) {
    let key = HashLockKey::from_preimage(seed());
    let values = round_trip(codec, &key.preimage().values);
    assert_eq!(HashLockKey::from_preimage(Digest::new(values)), key);
}

#[test]
fn test_bincode_serialization_for_hash_lock_key() {
    hash_lock_key(Codec::Bincode);
}

#[test]
fn test_serde_json_serialization_for_hash_lock_key() {
    hash_lock_key(Codec::Json);
}

#[test]
fn test_serde_json_wasm_serialization_for_hash_lock_key() {
    hash_lock_key(Codec::JsonWasm);
}

fn encrypted_utxo_notification(codec: Codec) {
    let n = EncryptedUtxoNotification::from_message(vec![fe(1), fe(2)]).unwrap();
    let values: Vec<u64> = n.clone().into_message().iter().map(|e| e.value()).collect();
    let back = round_trip(codec, &values);
    let message = back.into_iter().map(fe).collect();
    assert_eq!(EncryptedUtxoNotification::from_message(message), Ok(n));
}

#[test]
fn test_bincode_serialization_for_encrypted_utxo_notification() {
    encrypted_utxo_notification(Codec::Bincode);
}

#[test]
fn test_serde_json_serialization_for_encrypted_utxo_notification() {
    encrypted_utxo_notification(Codec::Json);
}

#[test]
fn test_serde_json_wasm_serialization_for_encrypted_utxo_notification() {
    encrypted_utxo_notification(Codec::JsonWasm);
}

fn announcement(codec: Codec) {
    let a = Announcement::new(vec![fe(80), fe(3), fe(1 << 40)]);
    let text = round_trip(codec, &a.to_display_string());
    assert_eq!(Announcement::try_from_str(&text), Ok(a));
}

#[test]
fn test_bincode_serialization_for_announcement() {
    announcement(Codec::Bincode);
}

#[test]
fn announcement_test_serde_json_serialization_for_public_announcement() {
    announcement(Codec::Json);
}

#[test]
fn announcement_test_serde_json_wasm_serialization_for_public_announcement() {
    announcement(Codec::JsonWasm);
}

fn utxo_notification_payload(codec: Codec) {
    let p = payload();
    let values: Vec<u64> = payload_to_fes(&p).iter().map(|e| e.value()).collect();
    let back: Vec<FieldElement> = round_trip(codec, &values).into_iter().map(fe).collect();
    assert_eq!(payload_from_fes(&back), Some(p.clone()));
    if let Codec::Bincode = codec {
        let layout = encode_words(&payload_to_fes(&p));
        let coin = &p.utxo.coins[0];
        let state: Vec<u64> = coin.state.iter().map(|e| e.value()).collect();
        let as_bincode = bincode::serialize(&(
            (p.utxo.lock_script_hash.values, vec![(coin.type_script_hash.values, state)]),
            p.sender_randomness.values,
        ))
        .unwrap();
        assert_eq!(layout, as_bincode);
    }
}

#[test]
fn test_bincode_serialization_for_utxo_notification_payload() {
    utxo_notification_payload(Codec::Bincode);
}

#[test]
fn test_serde_json_serialization_for_utxo_notification_payload() {
    utxo_notification_payload(Codec::Json);
}

#[test]
fn test_serde_json_wasm_serialization_for_utxo_notification_payload() {
    utxo_notification_payload(Codec::JsonWasm);
}

fn utxo(codec: Codec) {
    let u = payload().utxo;
    let coins: Vec<([u64; 5], Vec<u64>)> = u
        .coins()
        .iter()
        .map(|c| (c.type_script_hash.values, c.state.iter().map(|e| e.value()).collect()))
        .collect();
    let (lock, coins) = round_trip(codec, &(u.lock_script_hash().values, coins));
    let rebuilt = Utxo::from_parts(
        Digest::new(lock),
        coins
            .into_iter()
            .map(|(h, s)| Coin::new(Digest::new(h), s.into_iter().map(fe).collect()))
            .collect(),
    );
    assert_eq!(rebuilt, u);
}

#[test]
fn test_bincode_serialization_for_utxo() {
    utxo(Codec::Bincode);
}

#[test]
fn test_serde_json_serialization_for_utxo() {
    utxo(Codec::Json);
}

#[test]
fn test_serde_json_wasm_serialization_for_utxo() {
    utxo(Codec::JsonWasm);
}

fn coin(codec: Codec) {
    let c = Coin::new(Digest::new([5, 4, 3, 2, 1]), vec![fe(9), fe(8)]);
    let state: Vec<u64> = c.state.iter().map(|e| e.value()).collect();
    let (h, s) = round_trip(codec, &(c.type_script_hash.values, state));
    assert_eq!(Coin::new(Digest::new(h), s.into_iter().map(fe).collect()), c);
}

#[test]
fn test_bincode_serialization_for_coin() {
    coin(Codec::Bincode);
}

#[test]
fn test_serde_json_serialization_for_coin() {
    coin(Codec::Json);
}

#[test]
fn test_serde_json_wasm_serialization_for_coin() {
    coin(Codec::JsonWasm);
}

fn base_key_type(codec: Codec) {
    for t in BaseKeyType::all_types() {
        let flag = round_trip(codec, &t.flag().value());
        let found = BaseKeyType::all_types().into_iter().find(|u| u.flag().value() == flag);
        assert_eq!(found, Some(t));
    }
}

#[test]
fn test_bincode_serialization_for_base_key_type() {
    base_key_type(Codec::Bincode);
}

#[test]
fn test_serde_json_serialization_for_base_key_type() {
    base_key_type(Codec::Json);
}

#[test]
fn test_serde_json_wasm_serialization_for_base_key_type() {
    base_key_type(Codec::JsonWasm);
}

fn addressable_key_type(codec: Codec) {
    for t in AddressableKeyType::all_types() {
        let flag = round_trip(codec, &t.flag().value());
        let found = AddressableKeyType::all_types().into_iter().find(|u| u.flag().value() == flag);
        assert_eq!(found, Some(t));
    }
}

#[test]
fn test_bincode_serialization_for_addressable_key_type() {
    addressable_key_type(Codec::Bincode);
}

#[test]
fn test_serde_json_serialization_for_addressable_key_type() {
    addressable_key_type(Codec::Json);
}

#[test]
fn test_serde_json_wasm_serialization_for_addressable_key_type() {
    addressable_key_type(Codec::JsonWasm);
}

fn base_spending_key(codec: Codec) {
    let keys = [
        BaseSpendingKey::RawHashLock(HashLockKey::from_preimage(seed())),
        BaseSpendingKey::Symmetric(SymmetricKey::from_seed(seed())),
    ];
    for key in keys {
        let plain = match key {
            BaseSpendingKey::RawHashLock(k) => (0u8, k.preimage().values),
            BaseSpendingKey::Symmetric(k) => (1u8, k.seed().values),
        };
        let (tag, values) = round_trip(codec, &plain);
        let rebuilt = if tag == 0 {
            BaseSpendingKey::RawHashLock(HashLockKey::from_preimage(Digest::new(values)))
        } else {
            BaseSpendingKey::Symmetric(SymmetricKey::from_seed(Digest::new(values)))
        };
        assert_eq!(rebuilt, key);
    }
}

#[test]
fn test_bincode_serialization_for_base_spending_key() {
    base_spending_key(Codec::Bincode);
}

#[test]
fn test_serde_json_serialization_for_base_spending_key() {
    base_spending_key(Codec::Json);
}

#[test]
fn test_serde_json_wasm_serialization_for_base_spending_key() {
    base_spending_key(Codec::JsonWasm);
}

fn addressable_key(codec: Codec) {
    let key = AddressableKey::Symmetric(SymmetricKey::from_seed(seed()));
    let AddressableKey::Symmetric(k) = key;
    let values = round_trip(codec, &k.seed().values);
    assert_eq!(AddressableKey::Symmetric(SymmetricKey::from_seed(Digest::new(values))), key);
}

#[test]
fn test_bincode_serialization_for_addressable_key() {
    addressable_key(Codec::Bincode);
}

#[test]
fn test_serde_json_serialization_for_addressable_key() {
    addressable_key(Codec::Json);
}

#[test]
fn test_serde_json_wasm_serialization_for_addressable_key() {
    addressable_key(Codec::JsonWasm);
}

fn utxo_notification_medium(codec: Codec) {
    for m in [UtxoNotificationMedium::OnChain, UtxoNotificationMedium::OffChain] {
        let on_chain = round_trip(codec, &(m == UtxoNotificationMedium::OnChain));
        let back = if on_chain {
            UtxoNotificationMedium::OnChain
        } else {
            UtxoNotificationMedium::OffChain
        };
        assert_eq!(back, m);
    }
}

#[test]
fn test_bincode_serialization_for_utxo_notification_medium() {
    utxo_notification_medium(Codec::Bincode);
}

#[test]
fn test_serde_json_serialization_for_utxo_notification_medium() {
    utxo_notification_medium(Codec::Json);
}

#[test]
fn test_serde_json_wasm_serialization_for_utxo_notification_medium() {
    utxo_notification_medium(Codec::JsonWasm);
}

fn public_announcement(codec: Codec) {
    let a: PublicAnnouncement = PublicAnnouncement::new(vec![fe(1), fe(2), fe(3)]);
    let values: Vec<u64> = a.message.iter().map(|e| e.value()).collect();
    let back = round_trip(codec, &values);
    assert_eq!(PublicAnnouncement::new(back.into_iter().map(fe).collect()), a);
}

#[test]
fn test_bincode_serialization_for_public_announcement() {
    public_announcement(Codec::Bincode);
}

#[test]
fn public_announcement_test_serde_json_serialization_for_public_announcement() {
    public_announcement(Codec::Json);
}

#[test]
fn public_announcement_test_serde_json_wasm_serialization_for_public_announcement() {
    public_announcement(Codec::JsonWasm);
}

/// An instruction as a tag and an argument.
fn instruction_pair(i: &Instruction) -> (u8, u64) {
    match i {
        Instruction::Divine(n) => (0, *n),
        Instruction::Hash => (1, 0),
        Instruction::Push(e) => (2, e.value()),
        Instruction::AssertVector => (3, 0),
        Instruction::ReadIo(n) => (4, *n),
        Instruction::Halt => (5, 0),
        Instruction::Assert(id) => (6, *id),
    }
}

fn instruction_of_pair((tag, arg): (u8, u64)) -> Instruction {
    match tag {
        0 => Instruction::Divine(arg),
        1 => Instruction::Hash,
        2 => Instruction::Push(fe(arg)),
        3 => Instruction::AssertVector,
        4 => Instruction::ReadIo(arg),
        5 => Instruction::Halt,
        _ => Instruction::Assert(arg),
    }
}

fn program_round_trip(codec: Codec, program: &[Instruction]) -> Vec<Instruction> {
    let pairs: Vec<(u8, u64)> = program.iter().map(instruction_pair).collect();
    round_trip(codec, &pairs).into_iter().map(instruction_of_pair).collect()
}

fn lock_script(codec: Codec) {
    let script = HashLockKey::from_preimage(seed()).lock_script();
    let back = LockScript::new(program_round_trip(codec, &script.program));
    assert_eq!(back.hash(), script.hash());
    assert_eq!(back, script);
}

#[test]
fn test_bincode_serialization_for_lock_script() {
    lock_script(Codec::Bincode);
}

#[test]
fn test_serde_json_serialization_for_lock_script() {
    lock_script(Codec::Json);
}

#[test]
fn test_serde_json_wasm_serialization_for_lock_script() {
    lock_script(Codec::JsonWasm);
}

fn non_determinism_values(nd: &NonDeterminism) -> (Vec<u64>, Vec<[u64; 5]>, Vec<(u64, u64)>) {
    (
        nd.individual_tokens.iter().map(|e| e.value()).collect(),
        nd.digests.iter().map(|d| d.values).collect(),
        nd.ram.iter().map(|(a, b)| (a.value(), b.value())).collect(),
    )
}

fn non_determinism_of(v: (Vec<u64>, Vec<[u64; 5]>, Vec<(u64, u64)>)) -> NonDeterminism {
    NonDeterminism::new(v.0.into_iter().map(fe).collect())
        .with_digests(v.1.into_iter().map(Digest::new).collect())
        .with_ram(v.2.into_iter().map(|(a, b)| (fe(a), fe(b))).collect())
}

fn non_determinism(codec: Codec) {
    let nd = NonDeterminism::new(vec![fe(1), fe(2)])
        .with_digests(vec![seed()])
        .with_ram(vec![(fe(7), fe(8))]);
    let back = non_determinism_of(round_trip(codec, &non_determinism_values(&nd)));
    assert_eq!(back, nd);
}

#[test]
fn test_bincode_serialization_for_non_determinism() {
    non_determinism(Codec::Bincode);
}

#[test]
fn test_serde_json_serialization_for_non_determinism() {
    non_determinism(Codec::Json);
}

#[test]
fn test_serde_json_wasm_serialization_for_non_determinism() {
    non_determinism(Codec::JsonWasm);
}

fn lock_script_and_witness(codec: Codec) {
    let w = SymmetricKey::from_seed(seed()).lock_script_and_witness();
    let program = program_round_trip(codec, &w.program);
    let nd = non_determinism_of(round_trip(codec, &non_determinism_values(&w.nondeterminism())));
    assert_eq!(LockScriptAndWitness::new_with_nondeterminism(program, nd), w);
}

#[test]
fn test_bincode_serialization_for_lock_script_and_witness() {
    lock_script_and_witness(Codec::Bincode);
}

#[test]
fn test_serde_json_serialization_for_lock_script_and_witness() {
    lock_script_and_witness(Codec::Json);
}

#[test]
fn test_serde_json_wasm_serialization_for_lock_script_and_witness() {
    lock_script_and_witness(Codec::JsonWasm);
}

fn utxo_notify_method(codec: Codec) {
    let address = ReceivingAddress::Symmetric(SymmetricKey::from_seed(seed()));
    for m in [
        UtxoNotifyMethod::new(UtxoNotificationMedium::OnChain, address),
        UtxoNotifyMethod::new(UtxoNotificationMedium::OffChain, address),
        UtxoNotifyMethod::NoNotification,
    ] {
        let plain: (u8, Option<[u64; 5]>) = match m {
            UtxoNotifyMethod::OnChain(ReceivingAddress::Symmetric(k)) => (0, Some(k.seed().values)),
            UtxoNotifyMethod::OffChain(ReceivingAddress::Symmetric(k)) => (1, Some(k.seed().values)),
            UtxoNotifyMethod::NoNotification => (2, None),
        };
        let (tag, values) = round_trip(codec, &plain);
        let address_of = |v: [u64; 5]| ReceivingAddress::Symmetric(SymmetricKey::from_seed(Digest::new(v)));
        let back = match (tag, values) {
            (0, Some(v)) => UtxoNotifyMethod::new(UtxoNotificationMedium::OnChain, address_of(v)),
            (1, Some(v)) => UtxoNotifyMethod::new(UtxoNotificationMedium::OffChain, address_of(v)),
            _ => UtxoNotifyMethod::NoNotification,
        };
        assert_eq!(back, m);
    }
}

#[test]
fn test_bincode_serialization_for_utxo_notify_method() {
    utxo_notify_method(Codec::Bincode);
}

#[test]
fn test_serde_json_serialization_for_utxo_notify_method() {
    utxo_notify_method(Codec::Json);
}

#[test]
fn test_serde_json_wasm_serialization_for_utxo_notify_method() {
    utxo_notify_method(Codec::JsonWasm);
}
