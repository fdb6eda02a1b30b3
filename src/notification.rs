//! Encrypted UTXO notifications and their two wire forms: a field-element
//! message carried in an announcement, and a bech32m string sent off-chain.
use crate::announcement::string_from_chars;
use crate::announcement::Announcement;
use crate::bech32m::decode_bech32;
use crate::bech32m::decoded_view;
use crate::bech32m::encode_bech32m;
use crate::bech32m::valid_lower_hrp;
use crate::bech32m::DecodedView;
use crate::codec::bytes_to_words;
use crate::codec::decode_words;
use crate::codec::encode_words;
use crate::codec::is_word_encoding;
use crate::codec::words_to_bytes;
use crate::field::all_wf;
use crate::field::vals;
use crate::field::FieldElement;
use crate::field::MAX;
use crate::network::network_char;
use crate::network::network_hrp_char;
use crate::network::Network;
use vstd::prelude::*;

verus! {

/// An encrypted notification of a payment: the flag of the key type that
/// encrypted it, the receiver's public fingerprint, and the ciphertext.
#[derive(Clone, Debug, PartialEq, Eq)]
pub struct EncryptedUtxoNotification {
    pub flag: FieldElement,
    pub receiver_identifier: FieldElement,
    pub ciphertext: Vec<FieldElement>,
}

/// An encrypted notification as plain values.
pub type NotificationView = (u64, u64, Seq<u64>);

impl View for EncryptedUtxoNotification {
    type V = NotificationView;

    open spec fn view(&self) -> NotificationView {
        (self.flag.value, self.receiver_identifier.value, vals(self.ciphertext@))
    }
}

/// Why a message is not an encrypted notification.
#[derive(Clone, Copy, Debug, PartialEq, Eq)]
pub enum ConversionFromMessageError {
    /// The message has the given number of elements, fewer than two.
    MessageTooShort(usize),
}

/// Why a bech32m string is not an encrypted notification.
#[derive(Clone, Copy, Debug, PartialEq, Eq)]
pub enum Bech32mDecodeError {
    /// The string is not bech32 at all.
    InvalidEncoding,
    /// The checksum is that of bech32, not bech32m.
    NotBech32m,
    /// The human-readable prefix is not the one expected.
    WrongPrefix,
    /// The data part does not convert to bytes.
    InvalidData,
    /// The bytes do not hold a sequence of field elements.
    Deserialization,
    /// The message is too short to be a notification.
    MessageTooShort(usize),
}

/// The message layout: flag, receiver identifier, ciphertext.
pub open spec fn message_of(n: NotificationView) -> Seq<u64> {
    seq![n.0, n.1] + n.2
}

/// The notification that a message lays out.
pub open spec fn from_message_of(m: Seq<u64>) -> Result<NotificationView, ConversionFromMessageError> {
    if m.len() < 2 {
        Err(ConversionFromMessageError::MessageTooShort(m.len() as usize))
    } else {
        Ok((m[0], m[1], m.subrange(2, m.len() as int)))
    }
}

/// The human-readable prefix of notifications on `network`.
pub open spec fn notification_hrp(network: Network) -> Seq<char> {
    seq!['u', 't', 'x', 'o', network_char(network)]
}

/// The bytes of a message in the off-chain form: its length, then its
/// elements, each as eight little-endian bytes.
pub open spec fn message_bytes(m: Seq<u64>) -> Seq<u8> {
    words_to_bytes(seq![m.len() as u64] + m)
}

/// What a decoded bech32 string gives as a notification for `network`.
pub open spec fn from_decoded_of(d: DecodedView, network: Network) -> Result<
    NotificationView,
    Bech32mDecodeError,
> {
    match d {
        None => Err(Bech32mDecodeError::InvalidEncoding),
        Some((hrp, is_m, data)) => if !is_m {
            Err(Bech32mDecodeError::NotBech32m)
        } else if hrp != notification_hrp(network) {
            Err(Bech32mDecodeError::WrongPrefix)
        } else {
            match data {
                None => Err(Bech32mDecodeError::InvalidData),
                Some(bytes) => {
                    let w = bytes_to_words(bytes);
                    if !is_word_encoding(bytes) || w.len() == 0 || w[0] != w.len() - 1 {
                        Err(Bech32mDecodeError::Deserialization)
                    } else {
                        let m = w.subrange(1, w.len() as int);
                        if m.len() < 2 {
                            Err(Bech32mDecodeError::MessageTooShort(m.len() as usize))
                        } else {
                            Ok((m[0], m[1], m.subrange(2, m.len() as int)))
                        }
                    }
                },
            }
        },
    }
}

/// The plain values of a decoding result.
pub open spec fn notification_result_view(r: Result<EncryptedUtxoNotification, Bech32mDecodeError>) -> Result<
    NotificationView,
    Bech32mDecodeError,
> {
    match r {
        Ok(n) => Ok(n@),
        Err(e) => Err(e),
    }
}

impl EncryptedUtxoNotification {
    pub open spec fn wf(&self) -> bool {
        self.flag.wf() && self.receiver_identifier.wf() && all_wf(self.ciphertext@)
    }

    /// The message layout of this notification.
    pub fn into_message(self) -> (r: Vec<FieldElement>)
        ensures
            vals(r@) == message_of(self@),
            self.wf() ==> all_wf(r@),
    {
        let mut r: Vec<FieldElement> = Vec::new();
        r.push(self.flag);
        r.push(self.receiver_identifier);
        let mut i: usize = 0;
        while i < self.ciphertext.len()
            invariant
                0 <= i <= self.ciphertext@.len(),
                r@ == seq![self.flag, self.receiver_identifier] + self.ciphertext@.take(i as int),
            decreases self.ciphertext.len() - i,
        {
            r.push(self.ciphertext[i]);
            assert(r@ =~= seq![self.flag, self.receiver_identifier] + self.ciphertext@.take(i + 1));
            i = i + 1;
        }
        assert(self.ciphertext@.take(self.ciphertext@.len() as int) =~= self.ciphertext@);
        assert(vals(r@) =~= message_of(self@));
        r
    }

    /// The notification that a message lays out; messages of fewer than two
    /// elements are refused.
    pub fn from_message(message: Vec<FieldElement>) -> (r: Result<
        EncryptedUtxoNotification,
        ConversionFromMessageError,
    >)
        ensures
            r matches Ok(n) ==> from_message_of(vals(message@)) == Ok::<
                NotificationView,
                ConversionFromMessageError,
            >(n@) && (all_wf(message@) ==> n.wf()),
            r matches Err(e) ==> from_message_of(vals(message@)) == Err::<
                NotificationView,
                ConversionFromMessageError,
            >(e),
    {
        if message.len() < 2 {
            return Err(ConversionFromMessageError::MessageTooShort(message.len()));
        }
        let mut ciphertext: Vec<FieldElement> = Vec::new();
        let mut i: usize = 2;
        while i < message.len()
            invariant
                2 <= i <= message@.len(),
                ciphertext@ == message@.subrange(2, i as int),
            decreases message.len() - i,
        {
            ciphertext.push(message[i]);
            assert(ciphertext@ =~= message@.subrange(2, i + 1));
            i = i + 1;
        }
        let n = EncryptedUtxoNotification {
            flag: message[0],
            receiver_identifier: message[1],
            ciphertext,
        };
        assert(vals(ciphertext@) =~= vals(message@).subrange(2, message@.len() as int));
        Ok(n)
    }

    /// The announcement that carries this notification on chain.
    pub fn into_public_announcement(self) -> (r: Announcement)
        ensures
            r@ == message_of(self@),
            self.wf() ==> r.wf(),
    {
        Announcement::new(self.into_message())
    }

    /// The human-readable prefix of notifications on `network`.
    pub fn get_hrp(network: Network) -> (r: String)
        ensures
            r@ == notification_hrp(network),
    {
        let cs = vec!['u', 't', 'x', 'o', network_hrp_char(network)];
        assert(cs@ =~= notification_hrp(network));
        string_from_chars(&cs)
    }

    /// The off-chain form: the message's bytes, bech32m-encoded under the
    /// prefix of `network`.
    pub fn into_bech32m(self, network: Network) -> (r: String)
        requires
            self.ciphertext@.len() + 3 <= MAX,
            8 * (self.ciphertext@.len() + 3) <= usize::MAX,
        ensures
            r@ == crate::bech32m::bech32m_string_of(
                notification_hrp(network),
                message_bytes(message_of(self@)),
            ),
    {
        let hrp = Self::get_hrp(network);
        let message = self.into_message();
        let payload = message_payload(&message);
        proof {
            lemma_notification_hrp_valid(network);
        }
        match encode_bech32m(hrp.as_str(), payload.as_slice()) {
            Some(s) => s,
            None => {
                proof {
                    assert(false);
                }
                String::new()
            },
        }
    }

    /// Decodes the off-chain form and checks that it belongs to `network`.
    pub fn from_bech32m(encoded: &str, network: Network) -> (r: Result<
        EncryptedUtxoNotification,
        Bech32mDecodeError,
    >)
        ensures
            exists|d: DecodedView|
                crate::bech32m::decode_post(encoded@, d) && notification_result_view(r)
                    == from_decoded_of(d, network),
    {
        let decoded = decode_bech32(encoded);
        let r = Self::from_decoded_bech32m(decoded, network);
        assert(crate::bech32m::decode_post(encoded@, decoded_view(decoded)));
        r
    }

    /// The notification that decoded bech32 parts give for `network`: the
    /// checksum must be bech32m, the prefix that of `network`, and the data
    /// the bytes of a message of at least two elements.
    pub fn from_decoded_bech32m(
        decoded: Option<(String, bool, Option<Vec<u8>>)>,
        network: Network,
    ) -> (r: Result<EncryptedUtxoNotification, Bech32mDecodeError>)
        ensures
            notification_result_view(r) == from_decoded_of(decoded_view(decoded), network),
            r matches Ok(n) ==> n.wf(),
    {
        let (hrp, is_bech32m, data) = match decoded {
            Some(parts) => parts,
            None => {
                return Err(Bech32mDecodeError::InvalidEncoding);
            },
        };
        if !is_bech32m {
            return Err(Bech32mDecodeError::NotBech32m);
        }
        let expected = Self::get_hrp(network);
        if !(hrp == expected) {
            return Err(Bech32mDecodeError::WrongPrefix);
        }
        let bytes = match data {
            Some(b) => b,
            None => {
                return Err(Bech32mDecodeError::InvalidData);
            },
        };
        let words = match decode_words(bytes.as_slice()) {
            Some(w) => w,
            None => {
                return Err(Bech32mDecodeError::Deserialization);
            },
        };
        if words.len() == 0 || words[0].value != (words.len() - 1) as u64 {
            return Err(Bech32mDecodeError::Deserialization);
        }
        let mut message: Vec<FieldElement> = Vec::new();
        let mut i: usize = 1;
        while i < words.len()
            invariant
                1 <= i <= words@.len(),
                message@ == words@.subrange(1, i as int),
            decreases words.len() - i,
        {
            message.push(words[i]);
            assert(message@ =~= words@.subrange(1, i + 1));
            i = i + 1;
        }
        let ghost w = vals(words@);
        assert(vals(message@) =~= w.subrange(1, w.len() as int));
        assert(all_wf(message@)) by {
            assert forall|k: int| 0 <= k < message@.len() implies #[trigger] message@[k].wf() by {
                assert(message@[k] == words@[k + 1]);
            }
        }
        match Self::from_message(message) {
            Ok(n) => Ok(n),
            Err(ConversionFromMessageError::MessageTooShort(len)) => Err(
                Bech32mDecodeError::MessageTooShort(len),
            ),
        }
    }
}

proof fn lemma_notification_hrp_valid(network: Network)
    ensures
        valid_lower_hrp(notification_hrp(network)),
{
}

/// The bytes of a message in the off-chain form.
pub fn message_payload(message: &Vec<FieldElement>) -> (r: Vec<u8>)
    requires
        message@.len() + 1 <= MAX,
        8 * (message@.len() + 1) <= usize::MAX,
    ensures
        r@ == message_bytes(vals(message@)),
{
    let mut prefixed: Vec<FieldElement> = Vec::new();
    prefixed.push(FieldElement { value: message.len() as u64 });
    let mut i: usize = 0;
    while i < message.len()
        invariant
            0 <= i <= message@.len(),
            prefixed@ == seq![FieldElement { value: message@.len() as u64 }] + message@.take(i as int),
        decreases message.len() - i,
    {
        prefixed.push(message[i]);
        assert(prefixed@ =~= seq![FieldElement { value: message@.len() as u64 }] + message@.take(i + 1));
        i = i + 1;
    }
    assert(message@.take(message@.len() as int) =~= message@);
    assert(vals(prefixed@) =~= seq![message@.len() as u64] + vals(message@));
    encode_words(&prefixed)
}

} // verus!
