use wallet_keys::codec::decode_words;
use wallet_keys::codec::encode_words;
use wallet_keys::codec::pack;
use wallet_keys::codec::unpack;
use wallet_keys::field::Digest;
use wallet_keys::field::FieldElement;
use wallet_keys::keys::AddressableKeyType;
use wallet_keys::keys::HashLockKey;
use wallet_keys::keys::ReceivingAddress;
use wallet_keys::lock_script::Instruction;
use wallet_keys::lock_script::LockScript;
use wallet_keys::network::Network;
use wallet_keys::peer::NegativePeerSanction;
use wallet_keys::peer::PeerSanction;
use wallet_keys::peer::PeerStanding;
use wallet_keys::peer::PositivePeerSanction;
use wallet_keys::peer::StandingExceedsBanThreshold;
use wallet_keys::symmetric_key::SymmetricKey;
use wallet_keys::transaction_proof_type::TransactionProofType;
use wallet_keys::utxo::Coin;
use wallet_keys::utxo::Utxo;
use wallet_keys::utxo::UtxoNotificationPayload;
use wallet_keys::utxo::payload_from_fes;
use wallet_keys::utxo::payload_to_fes;
use wallet_keys::utxo_notification::UtxoNotificationMedium;
use wallet_keys::utxo_notification::UtxoNotifyMethod;
use wallet_keys::wallet_file::SecretKeyMaterial;
use wallet_keys::wallet_file::WalletFile;

fn fe(v: u64) -> FieldElement {
    FieldElement::new(v)
}

#[test]
fn field_element_reduces_modulo_p() {
    assert_eq!(FieldElement::new(wallet_keys::field::P).value(), 0);
    assert_eq!(FieldElement::new(u64::MAX).value(), u64::MAX - wallet_keys::field::P);
    assert_eq!(FieldElement::new(17).value(), 17);
}

#[test]
fn pack_round_trip_and_layout() {
    let bytes: Vec<u8> = (0u8..20).collect();
    let packed = pack(&bytes);
    assert_eq!(packed.len(), 1 + 3);
    assert_eq!(packed[0].value(), 20);
    assert_eq!(packed[1].value(), 0x06_05_04_03_02_01_00);
    assert_eq!(unpack(&packed), Some(bytes));
    assert_eq!(unpack(&pack(&[])), Some(vec![]));
    assert_eq!(unpack(&[]), None);
}

#[test]
fn word_layout_matches_bincode() {
    let values = vec![fe(1), fe(0x0102030405060708), fe(wallet_keys::field::MAX)];
    let bytes = encode_words(&values);
    let raw: Vec<u64> = values.iter().map(|e| e.value()).collect();
    let tuple = (raw[0], raw[1], raw[2]);
    assert_eq!(bytes, bincode::serialize(&tuple).unwrap());
    assert_eq!(decode_words(&bytes), Some(values));
    assert_eq!(decode_words(&bytes[1..]), None);
    assert_eq!(decode_words(&u64::MAX.to_le_bytes()), None);
}

#[test]
fn payload_layout_round_trip() {
    let coins = vec![
        Coin::new(Digest::new([1, 2, 3, 4, 5]), vec![fe(7)]),
        Coin::new(Digest::new([6, 7, 8, 9, 10]), vec![]),
    ];
    let p = UtxoNotificationPayload::new(
        Utxo::from_parts(Digest::new([11, 12, 13, 14, 15]), coins),
        Digest::new([16, 17, 18, 19, 20]),
    );
    let fes = payload_to_fes(&p);
    let values: Vec<u64> = fes.iter().map(|e| e.value()).collect();
    assert_eq!(
        values,
        vec![11, 12, 13, 14, 15, 2, 1, 2, 3, 4, 5, 1, 7, 6, 7, 8, 9, 10, 0, 16, 17, 18, 19, 20]
    );
    assert_eq!(payload_from_fes(&fes), Some(p));
    assert_eq!(payload_from_fes(&fes[..fes.len() - 1]), None);
}

#[test]
fn proof_type_runs_in_vm() {
    assert!(!TransactionProofType::PrimitiveWitness.executes_in_vm());
    assert!(TransactionProofType::ProofCollection.executes_in_vm());
    assert!(TransactionProofType::SingleProof.executes_in_vm());
    assert_eq!(TransactionProofType::SingleProof.to_display_string(), "SingleProof");
}

fn proof_type_code_round_trip(encode: fn(u8) -> Vec<u8>, decode: fn(&[u8]) -> u8) {
    for t in [
        TransactionProofType::PrimitiveWitness,
        TransactionProofType::ProofCollection,
        TransactionProofType::SingleProof,
    ] {
        let encoded = encode(t.to_u8());
        let decoded = TransactionProofType::from_u8(decode(&encoded)).unwrap();
        assert_eq!(decoded, t);
        assert_eq!(encode(decoded.to_u8()), encoded);
    }
    assert_eq!(TransactionProofType::from_u8(0), None);
    assert_eq!(TransactionProofType::from_u8(4), None);
}

#[test]
fn test_bincode_serialization_for_transactionprooftype() {
    proof_type_code_round_trip(
        |c| bincode::serialize(&c).unwrap(),
        |b| bincode::deserialize(b).unwrap(),
    );
}

#[test]
fn test_serde_json_serialization_for_transactionprooftype() {
    proof_type_code_round_trip(
        |c| serde_json::to_vec(&c).unwrap(),
        |b| serde_json::from_slice(b).unwrap(),
    );
}

#[test]
fn test_serde_json_wasm_serialization_for_transactionprooftype() {
    proof_type_code_round_trip(
        |c| serde_json_wasm::to_vec(&c).unwrap(),
        |b| serde_json_wasm::from_slice(b).unwrap(),
    );
}

#[test]
fn notify_method_follows_the_medium() {
    let address = ReceivingAddress::Symmetric(SymmetricKey::from_seed(Digest::new([1, 2, 3, 4, 5])));
    assert_eq!(
        UtxoNotifyMethod::new(UtxoNotificationMedium::OnChain, address),
        UtxoNotifyMethod::OnChain(address)
    );
    assert_eq!(
        UtxoNotifyMethod::new(UtxoNotificationMedium::OffChain, address),
        UtxoNotifyMethod::OffChain(address)
    );
    assert_eq!(UtxoNotificationMedium::default(), UtxoNotificationMedium::OnChain);
}

#[test]
fn positive_sanction_severity() {
    assert_eq!(PositivePeerSanction::ValidBlocks(3).severity(), 30);
    assert_eq!(PositivePeerSanction::ValidBlocks(0).severity(), 0);
    assert_eq!(PositivePeerSanction::ValidBlocks(usize::MAX).severity(), i32::MAX);
    assert_eq!(PositivePeerSanction::ValidBlocks(214_748_365).severity(), i32::MAX);
    assert_eq!(PositivePeerSanction::ValidBlocks(214_748_364).severity(), 2_147_483_640);
    assert_eq!(PositivePeerSanction::NewBlockProposal.severity(), 7);
    assert_eq!(PositivePeerSanction::NewBlockProposal.to_display_string(), "new block proposal");
    assert_eq!(PositivePeerSanction::ValidBlocks(1).to_display_string(), "valid blocks");
    let _ = StandingExceedsBanThreshold::default();
}

#[test]
fn wallet_file_holds_the_secret() {
    let secret = SecretKeyMaterial { coefficients: [1, 2, 3] };
    let wallet = WalletFile::new(secret);
    assert_eq!(wallet.name, "standard_wallet");
    assert_eq!(wallet.version, 0);
    assert_eq!(wallet.secret_key(), secret);
    assert_eq!(wallet.entropy().secret_seed, secret);
}

#[test]
fn addressable_key_type_prefixes() {
    assert_eq!(AddressableKeyType::Symmetric.get_hrp(Network::Main), "nsymkm");
    assert_eq!(AddressableKeyType::Generation.get_hrp(Network::Testnet), "nolgat");
    assert_eq!(AddressableKeyType::all_types().len(), 2);
    assert_eq!(SymmetricKey::get_hrp(Network::RegTest), "nsymkr");
}

#[test]
fn negative_sanctions_degrade_standing() {
    assert_eq!(NegativePeerSanction::DifferentGenesis.severity(), i32::MIN);
    assert_eq!(NegativePeerSanction::InvalidSyncChallengeResponse.severity(), -500);
    let fork = NegativePeerSanction::ForkResolutionError((10, 7, Digest::new([0; 5])));
    assert_eq!(fork.severity(), -7);
    assert_eq!(fork.to_display_string(), "fork resolution error");
    assert_eq!(NegativePeerSanction::InvalidMessage.description(), "invalid message");
}

#[test]
fn standing_is_clamped_and_bans_at_the_bound() {
    let mut standing = PeerStanding::new(20);
    assert!(standing.sanction(PeerSanction::Negative(NegativePeerSanction::InvalidBlock((1, Digest::new([0; 5])))), 5).is_ok());
    assert_eq!(standing.standing, -10);
    assert!(standing.is_negative());
    assert_eq!(standing.latest_punishment.map(|(_, t)| t), Some(5));
    assert!(standing.sanction(PeerSanction::Positive(PositivePeerSanction::ValidBlocks(100)), 6).is_ok());
    assert_eq!(standing.standing, 20);
    assert!(standing.sanction(PeerSanction::Negative(NegativePeerSanction::DifferentGenesis), 7).is_err());
    assert_eq!(standing.standing, -20);
    assert!(standing.is_bad());
    standing.clear_standing();
    assert_eq!(standing.standing, 0);
    assert!(standing.is_good());
    assert_eq!(standing.latest_reward, None);
}

#[test]
fn burn_and_anyone_can_spend_scripts() {
    assert_eq!(LockScript::anyone_can_spend().program, vec![Instruction::ReadIo(5), Instruction::Halt]);
    assert_eq!(LockScript::burn().program, vec![Instruction::Push(fe(0)), Instruction::Assert(1_000_300)]);
    assert_ne!(LockScript::burn().hash(), LockScript::anyone_can_spend().hash());
}

#[test]
fn utxo_recognises_its_hash_lock() {
    let preimage = Digest::new([4, 4, 4, 4, 4]);
    let lock = HashLockKey::from_preimage(preimage).lock_script();
    let utxo = Utxo::new(&lock, vec![]);
    assert_eq!(utxo.lock_script_hash(), lock.hash());
    assert!(utxo.is_lockscript_with_preimage(preimage));
    assert!(!utxo.is_lockscript_with_preimage(Digest::new([4, 4, 4, 4, 5])));
}

#[test]
fn standard_hash_lock_hash_matches_the_assembled_program() {
    let preimage = Digest::new([4, 4, 4, 4, 4]);
    let key = HashLockKey::from_preimage(preimage);
    let after = key.after_image().values;
    let code = format!(
        "divine 5 hash push {} push {} push {} push {} push {} assert_vector read_io 5 halt",
        after[4], after[3], after[2], after[1], after[0]
    );
    let program = triton_isa::program::Program::from_code(&code).unwrap();
    let expected: Vec<u64> = program.hash().values().iter().map(|e| e.value()).collect();
    assert_eq!(key.lock_script_hash().values.to_vec(), expected);
}

#[test]
fn key_type_names_and_announcement_types() {
    assert_eq!(wallet_keys::keys::BaseKeyType::RawHashLock.to_display_string(), "Raw Hash Lock");
    assert_eq!(AddressableKeyType::Symmetric.to_display_string(), "Symmetric");
    assert_eq!(AddressableKeyType::Generation.to_display_string(), "Generation");
    let a = wallet_keys::announcement::Announcement::new(vec![fe(79), fe(1)]);
    assert_eq!(AddressableKeyType::try_from_announcement(&a), Some(AddressableKeyType::Generation));
    let b = wallet_keys::announcement::Announcement::new(vec![fe(0)]);
    assert_eq!(AddressableKeyType::try_from_announcement(&b), None);
}

#[test]
fn sanction_descriptions() {
    assert_eq!(
        PeerSanction::Positive(PositivePeerSanction::NewBlockProposal).to_display_string(),
        "new block proposal"
    );
    assert_eq!(
        PeerSanction::Negative(NegativePeerSanction::NoStandingFoundMaybeCrash).to_display_string(),
        "No standing found in map. Did peer task crash?"
    );
    assert_eq!(PeerSanction::Negative(NegativePeerSanction::InvalidMessage).severity(), -2);
    assert_eq!(PeerSanction::Positive(PositivePeerSanction::ValidBlocks(2)).severity(), 20);
}
