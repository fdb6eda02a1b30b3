use wallet_keys::announcement::Announcement;
use wallet_keys::announcement::ParsePublicAnnouncementError;
use wallet_keys::field::Digest;
use wallet_keys::field::FieldElement;
use wallet_keys::network::Network;
use wallet_keys::notification::Bech32mDecodeError;
use wallet_keys::notification::ConversionFromMessageError;
use wallet_keys::notification::EncryptedUtxoNotification;
use wallet_keys::symmetric_key::SymmetricKey;
use wallet_keys::utxo::Coin;
use wallet_keys::utxo::Utxo;
use wallet_keys::utxo::UtxoNotificationPayload;

fn fe(v: u64) -> FieldElement {
    FieldElement::new(v)
}

fn notification(flag: u64, rid: u64, ciphertext: &[u64]) -> EncryptedUtxoNotification {
    EncryptedUtxoNotification {
        flag: fe(flag),
        receiver_identifier: fe(rid),
        ciphertext: ciphertext.iter().map(|v| fe(*v)).collect(),
    }
}

#[test]
fn empty_encutxo_encoding() {
    let object = notification(0, 0, &[]);
    let encoded = object.clone().into_bech32m(Network::Testnet);
    let again = EncryptedUtxoNotification::from_bech32m(&encoded, Network::Testnet).unwrap();
    assert!(object == again);
}

#[test]
fn bech32m_round_trip_with_ciphertext() {
    let object = notification(80, 12345, &[1, 2, 3, u64::MAX - (1u64 << 32)]);
    let encoded = object.clone().into_bech32m(Network::Main);
    assert!(encoded.starts_with("utxom1"));
    let again = EncryptedUtxoNotification::from_bech32m(&encoded, Network::Main).unwrap();
    assert_eq!(object, again);
}

#[test]
fn bech32m_decode_on_other_network_fails_with_prefix_error() {
    let object = notification(80, 9, &[4, 5]);
    for a in [Network::Main, Network::Testnet, Network::RegTest] {
        for b in [Network::Main, Network::Testnet, Network::RegTest] {
            let encoded = object.clone().into_bech32m(a);
            let decoded = EncryptedUtxoNotification::from_bech32m(&encoded, b);
            if a == b {
                assert_eq!(decoded, Ok(object.clone()));
            } else {
                assert_eq!(decoded, Err(Bech32mDecodeError::WrongPrefix));
            }
        }
    }
}

#[test]
fn bech32m_decode_of_garbage_fails() {
    assert_eq!(
        EncryptedUtxoNotification::from_bech32m("utxom1qqqq", Network::Main),
        Err(Bech32mDecodeError::InvalidEncoding)
    );
}

#[test]
fn message_round_trip() {
    let object = notification(80, 77, &[10, 20, 30]);
    let message = object.clone().into_message();
    let values: Vec<u64> = message.iter().map(|e| e.value()).collect();
    assert_eq!(values, vec![80, 77, 10, 20, 30]);
    assert_eq!(EncryptedUtxoNotification::from_message(message), Ok(object));
}

#[test]
fn message_of_two_elements_has_empty_ciphertext() {
    let n = EncryptedUtxoNotification::from_message(vec![fe(1), fe(2)]).unwrap();
    assert_eq!(n, notification(1, 2, &[]));
}

#[test]
fn short_message_is_refused() {
    assert_eq!(
        EncryptedUtxoNotification::from_message(vec![fe(1)]),
        Err(ConversionFromMessageError::MessageTooShort(1))
    );
    assert_eq!(
        EncryptedUtxoNotification::from_message(vec![]),
        Err(ConversionFromMessageError::MessageTooShort(0))
    );
}

#[test]
fn public_announcement_carries_the_message() {
    let object = notification(80, 3, &[9]);
    let a = object.into_public_announcement();
    let values: Vec<u64> = a.message.iter().map(|e| e.value()).collect();
    assert_eq!(values, vec![80, 3, 9]);
}

#[test]
fn announcement_display_and_parse() {
    let a = Announcement::new(vec![fe(1), fe(0xabcdef), fe(18446744069414584320)]);
    let s = a.to_display_string();
    assert_eq!(
        s,
        "0x00000000000000010000000000abcdefffffffff00000000"
    );
    assert_eq!(Announcement::try_from_str(&s), Ok(a));
}

#[test]
fn announcement_parse_of_empty_payload() {
    assert_eq!(Announcement::try_from_str("0x"), Ok(Announcement::new(vec![])));
    assert_eq!(Announcement::new(vec![]).to_display_string(), "0x");
}

#[test]
fn announcement_parse_accepts_upper_case_digits() {
    assert_eq!(
        Announcement::try_from_str("0x00000000000000FF"),
        Ok(Announcement::new(vec![fe(255)]))
    );
}

#[test]
fn announcement_parse_errors() {
    assert_eq!(Announcement::try_from_str("0"), Err(ParsePublicAnnouncementError::TooShort));
    assert_eq!(
        Announcement::try_from_str("1x0000000000000001"),
        Err(ParsePublicAnnouncementError::BadHexDelimiter)
    );
    assert_eq!(
        Announcement::try_from_str("0x123"),
        Err(ParsePublicAnnouncementError::BadLengthAlignment)
    );
    assert_eq!(
        Announcement::try_from_str("0x000000000000000g"),
        Err(ParsePublicAnnouncementError::ParseIntError)
    );
    assert_eq!(
        Announcement::try_from_str("0xffffffff00000001"),
        Err(ParsePublicAnnouncementError::NonCanonicalRepresentation)
    );
}

#[test]
fn generated_announcement_decrypts_with_the_key() {
    let key = SymmetricKey::from_seed(Digest::new([3, 1, 4, 1, 5]));
    let coin = Coin::new(Digest::new([9, 9, 9, 9, 9]), vec![fe(42)]);
    let payload = UtxoNotificationPayload::new(
        Utxo::from_parts(Digest::new([2, 7, 1, 8, 2]), vec![coin]),
        Digest::new([6, 6, 6, 6, 6]),
    );
    let a = key.generate_announcement(&payload).unwrap();
    assert_eq!(a.message[0].value(), 80);
    assert_eq!(a.message[1], key.receiver_identifier());
    let n = EncryptedUtxoNotification::from_message(a.message.clone()).unwrap();
    let (utxo, sr) = key.decrypt(&n.ciphertext).unwrap();
    assert_eq!(utxo, payload.utxo);
    assert_eq!(sr, payload.sender_randomness);
}

#[test]
fn private_notification_decodes_and_decrypts() {
    let key = SymmetricKey::from_seed(Digest::new([3, 1, 4, 1, 5]));
    let payload = UtxoNotificationPayload::new(
        Utxo::from_parts(Digest::new([2, 7, 1, 8, 2]), vec![]),
        Digest::new([6, 6, 6, 6, 6]),
    );
    let s = key.private_utxo_notification(&payload, Network::RegTest).unwrap();
    assert!(s.starts_with("utxor1"));
    let n = EncryptedUtxoNotification::from_bech32m(&s, Network::RegTest).unwrap();
    assert_eq!(n.flag.value(), 80);
    let (utxo, sr) = key.decrypt(&n.ciphertext).unwrap();
    assert_eq!(utxo, payload.utxo);
    assert_eq!(sr, payload.sender_randomness);
}

#[test]
fn announcement_parse_counts_utf8_bytes() {
    assert_eq!(Announcement::try_from_str("0é"), Err(ParsePublicAnnouncementError::TooShort));
    assert_eq!(Announcement::try_from_str("é"), Err(ParsePublicAnnouncementError::BadHexDelimiter));
    assert_eq!(
        Announcement::try_from_str("0xéééééééé"),
        Err(ParsePublicAnnouncementError::ParseIntError)
    );
    assert_eq!(
        Announcement::try_from_str("0x+00000000000000a"),
        Ok(Announcement::new(vec![fe(10)]))
    );
}
