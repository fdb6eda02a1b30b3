//! Spending keys: the hash-lock key, the closed set of key variants behind
//! one interface, the addressable subset of it, and the announcement scanner.
use crate::announcement::Announcement;
use crate::field::all_wf;
use crate::field::digest_hash_of;
use crate::field::vals;
use crate::field::Digest;
use crate::field::FieldElement;
use crate::lock_script::hash_lock_program;
use crate::lock_script::program_hash;
use crate::lock_script::LockScript;
use crate::lock_script::LockScriptAndWitness;
use crate::network::network_char;
use crate::network::Network;
use crate::symmetric_key::decrypt_post;
use crate::symmetric_key::decrypt_result_view;
use crate::symmetric_key::key_hrp;
use crate::symmetric_key::receiver_identifier_of;
use crate::symmetric_key::receiver_preimage_of;
use crate::symmetric_key::unlock_key_of;
use crate::symmetric_key::DecryptError;
use crate::symmetric_key::SymmetricKey;
use crate::symmetric_key::SYMMETRIC_KEY_FLAG_U8;
use crate::utxo::IncomingUtxo;
use crate::utxo::PayloadView;
use crate::utxo::Utxo;
use crate::utxo::UtxoView;
use vstd::prelude::*;

verus! {

/// The flag of raw hash-lock keys; they receive no notifications.
pub const RAW_HASH_LOCK_KEY_FLAG_U8: u8 = 0;

/// The flag that marks notifications for generation keys.
pub const GENERATION_FLAG_U8: u8 = 79;

/// A key that unlocks by revealing the preimage of a hash.
#[derive(Clone, Copy, Debug, PartialEq, Eq)]
pub struct HashLockKey {
    preimage: Digest,
}

impl View for HashLockKey {
    type V = Seq<u64>;

    closed spec fn view(&self) -> Seq<u64> {
        self.preimage@
    }
}

impl HashLockKey {
    pub open spec fn wf(&self) -> bool {
        self@.len() == 5 && crate::field::all_canonical(self@)
    }

    pub fn from_preimage(preimage: Digest) -> (r: HashLockKey)
        ensures
            r@ == preimage@,
            preimage.wf() ==> r.wf(),
    {
        HashLockKey { preimage }
    }

    /// The preimage.
    pub fn preimage(&self) -> (r: Digest)
        ensures
            r@ == self@,
    {
        self.preimage
    }

    /// The hash of the preimage.
    pub fn after_image(&self) -> (r: Digest)
        ensures
            r@ == digest_hash_of(self@),
            r.wf(),
    {
        self.preimage.hash()
    }

    /// The standard hash lock that the preimage opens.
    pub fn lock_script(&self) -> (r: LockScript)
        ensures
            r.program@ == hash_lock_program(digest_hash_of(self@)),
    {
        Self::lock_script_from_after_image(self.after_image())
    }

    /// The hash of the lock script.
    pub fn lock_script_hash(&self) -> (r: Digest)
        ensures
            r@ == program_hash(hash_lock_program(digest_hash_of(self@))),
    {
        self.lock_script().hash()
    }

    /// The lock script with its witness: the preimage, last element first.
    pub fn lock_script_and_witness(&self) -> (r: LockScriptAndWitness)
        requires
            self.wf(),
        ensures
            unlock_witness(self@, r),
    {
        LockScriptAndWitness::standard_hash_lock_from_preimage(self.preimage)
    }

    /// The standard hash lock that the preimage of `after_image` opens.
    pub fn lock_script_from_after_image(after_image: Digest) -> (r: LockScript)
        requires
            after_image.wf(),
        ensures
            r.program@ == hash_lock_program(after_image@),
    {
        LockScript::standard_hash_lock_from_after_image(after_image)
    }
}

/// The lock script and witness that open with the secret `preimage`: the
/// standard hash lock of its hash, and as the only secret input its
/// elements, last first, canonical; no secret memory and no digests.
pub open spec fn unlock_witness(preimage: Seq<u64>, r: LockScriptAndWitness) -> bool {
    &&& r.program@ == hash_lock_program(digest_hash_of(preimage))
    &&& vals(r.nd_tokens@) == preimage.reverse()
    &&& all_wf(r.nd_tokens@)
    &&& r.nd_memory@.len() == 0
    &&& r.nd_digests@.len() == 0
}

/// Two lock scripts with witnesses that open with the same secret hold the
/// same program and the same secret input.
pub proof fn lemma_unlock_witness_unique(
    preimage: Seq<u64>,
    r1: LockScriptAndWitness,
    r2: LockScriptAndWitness,
)
    requires
        unlock_witness(preimage, r1),
        unlock_witness(preimage, r2),
    ensures
        r1.program@ == r2.program@,
        r1.nd_tokens@ == r2.nd_tokens@,
        r1.nd_memory@ == r2.nd_memory@,
        r1.nd_digests@ == r2.nd_digests@,
{
    assert(r1.nd_tokens@.len() == vals(r1.nd_tokens@).len());
    assert(r2.nd_tokens@.len() == vals(r2.nd_tokens@).len());
    assert forall|i: int| 0 <= i < r1.nd_tokens@.len() implies r1.nd_tokens@[i] == r2.nd_tokens@[i] by {
        assert(vals(r1.nd_tokens@)[i] == r1.nd_tokens@[i].value);
        assert(vals(r2.nd_tokens@)[i] == r2.nd_tokens@[i].value);
    }
    assert(r1.nd_tokens@ =~= r2.nd_tokens@);
    assert(r1.nd_memory@ =~= r2.nd_memory@);
    assert(r1.nd_digests@ =~= r2.nd_digests@);
}

/// The key variants, addressable or not.
#[derive(Clone, Copy, Debug, PartialEq, Eq)]
pub enum BaseKeyType {
    RawHashLock,
    Generation,
    Symmetric,
}

/// The name of a key variant.
pub open spec fn base_key_type_name(t: BaseKeyType) -> &'static str {
    match t {
        BaseKeyType::RawHashLock => "Raw Hash Lock",
        BaseKeyType::Generation => "Generation",
        BaseKeyType::Symmetric => "Symmetric",
    }
}

/// The flag of a key variant.
pub open spec fn base_flag(t: BaseKeyType) -> u64 {
    match t {
        BaseKeyType::RawHashLock => RAW_HASH_LOCK_KEY_FLAG_U8 as u64,
        BaseKeyType::Generation => GENERATION_FLAG_U8 as u64,
        BaseKeyType::Symmetric => SYMMETRIC_KEY_FLAG_U8 as u64,
    }
}

impl BaseKeyType {
    /// Every key variant.
    pub fn all_types() -> (r: Vec<BaseKeyType>)
        ensures
            r@ == seq![BaseKeyType::RawHashLock, BaseKeyType::Generation, BaseKeyType::Symmetric],
    {
        let r = vec![BaseKeyType::RawHashLock, BaseKeyType::Generation, BaseKeyType::Symmetric];
        assert(r@ =~= seq![BaseKeyType::RawHashLock, BaseKeyType::Generation, BaseKeyType::Symmetric]);
        r
    }

    /// The flag of this variant.
    pub fn flag(&self) -> (r: FieldElement)
        ensures
            r.value == base_flag(*self),
            r.wf(),
    {
        match self {
            BaseKeyType::RawHashLock => FieldElement { value: RAW_HASH_LOCK_KEY_FLAG_U8 as u64 },
            BaseKeyType::Generation => FieldElement { value: GENERATION_FLAG_U8 as u64 },
            BaseKeyType::Symmetric => FieldElement { value: SYMMETRIC_KEY_FLAG_U8 as u64 },
        }
    }

    /// The name of the variant.
    pub fn to_display_string(&self) -> (r: String)
        ensures
            r@ == base_key_type_name(*self)@,
    {
        let name: &'static str = match self {
            BaseKeyType::RawHashLock => "Raw Hash Lock",
            BaseKeyType::Generation => "Generation",
            BaseKeyType::Symmetric => "Symmetric",
        };
        name.to_owned()
    }

    /// The addressable variant whose flag leads the announcement, if any.
    pub fn try_from_announcement(a: &Announcement) -> (r: Option<BaseKeyType>)
        ensures
            r matches Some(t) ==> a@.len() >= 1 && a@[0] == base_flag(t) && t != BaseKeyType::RawHashLock,
            r is None ==> a@.len() == 0 || (a@[0] != GENERATION_FLAG_U8 as u64 && a@[0]
                != SYMMETRIC_KEY_FLAG_U8 as u64),
    {
        if a.message.len() == 0 {
            return None;
        }
        let f = a.message[0].value;
        if f == GENERATION_FLAG_U8 as u64 {
            Some(BaseKeyType::Generation)
        } else if f == SYMMETRIC_KEY_FLAG_U8 as u64 {
            Some(BaseKeyType::Symmetric)
        } else {
            None
        }
    }
}

/// The key variants that have an address.
#[derive(Clone, Copy, Debug, PartialEq, Eq)]
pub enum AddressableKeyType {
    Generation,
    Symmetric,
}

/// The human-readable prefix of addresses of a variant on `network`.
pub open spec fn addressable_hrp(t: AddressableKeyType, network: Network) -> Seq<char> {
    match t {
        AddressableKeyType::Generation => seq!['n', 'o', 'l', 'g', 'a', network_char(network)],
        AddressableKeyType::Symmetric => key_hrp(network),
    }
}

impl AddressableKeyType {
    /// Every addressable variant.
    pub fn all_types() -> (r: Vec<AddressableKeyType>)
        ensures
            r@ == seq![AddressableKeyType::Generation, AddressableKeyType::Symmetric],
    {
        let r = vec![AddressableKeyType::Generation, AddressableKeyType::Symmetric];
        assert(r@ =~= seq![AddressableKeyType::Generation, AddressableKeyType::Symmetric]);
        r
    }

    /// The flag of this variant.
    pub fn flag(&self) -> (r: FieldElement)
        ensures
            r.value == base_flag(self.to_base()),
            r.wf(),
    {
        match self {
            AddressableKeyType::Generation => FieldElement { value: GENERATION_FLAG_U8 as u64 },
            AddressableKeyType::Symmetric => FieldElement { value: SYMMETRIC_KEY_FLAG_U8 as u64 },
        }
    }

    /// The same variant among all key variants.
    pub open spec fn to_base(self) -> BaseKeyType {
        match self {
            AddressableKeyType::Generation => BaseKeyType::Generation,
            AddressableKeyType::Symmetric => BaseKeyType::Symmetric,
        }
    }

    /// The same variant among all key variants.
    pub fn to_base_type(&self) -> (r: BaseKeyType)
        ensures
            r == self.to_base(),
    {
        match self {
            AddressableKeyType::Generation => BaseKeyType::Generation,
            AddressableKeyType::Symmetric => BaseKeyType::Symmetric,
        }
    }

    /// The name of the variant.
    pub fn to_display_string(&self) -> (r: String)
        ensures
            r@ == base_key_type_name(self.to_base())@,
    {
        self.to_base_type().to_display_string()
    }

    /// The variant whose flag leads the announcement, if any.
    pub fn try_from_announcement(a: &Announcement) -> (r: Option<AddressableKeyType>)
        ensures
            r matches Some(t) ==> a@.len() >= 1 && a@[0] == base_flag(t.to_base()),
            r is None ==> a@.len() == 0 || (a@[0] != GENERATION_FLAG_U8 as u64 && a@[0]
                != SYMMETRIC_KEY_FLAG_U8 as u64),
    {
        match BaseKeyType::try_from_announcement(a) {
            Some(BaseKeyType::Generation) => Some(AddressableKeyType::Generation),
            Some(BaseKeyType::Symmetric) => Some(AddressableKeyType::Symmetric),
            _ => None,
        }
    }

    /// The human-readable prefix of addresses of this variant on `network`.
    pub fn get_hrp(&self, network: Network) -> (r: String)
        ensures
            r@ == addressable_hrp(*self, network),
    {
        match self {
            AddressableKeyType::Generation => {
                let c = crate::network::network_hrp_char(network);
                let cs = vec!['n', 'o', 'l', 'g', 'a', c];
                assert(cs@ =~= addressable_hrp(*self, network));
                crate::announcement::string_from_chars(&cs)
            },
            AddressableKeyType::Symmetric => SymmetricKey::get_hrp(network),
        }
    }
}

/// An address that a payment can be sent to.
#[derive(Clone, Copy, Debug, PartialEq, Eq)]
pub enum ReceivingAddress {
    /// The address of a symmetric key is the key itself.
    Symmetric(SymmetricKey),
}

/// An incoming UTXO as plain values: the UTXO, the sender randomness and the
/// receiver preimage.
pub type IncomingView = (UtxoView, Seq<u64>, Seq<u64>);

/// The plain values of incoming UTXOs.
pub open spec fn incoming_views(s: Seq<IncomingUtxo>) -> Seq<IncomingView> {
    Seq::new(s.len(), |i: int| (s[i].utxo@, s[i].sender_randomness@, s[i].receiver_preimage@))
}

/// An announcement that a key with this flag and fingerprint would try to
/// decrypt: the flag matches, then the fingerprint.
pub open spec fn is_candidate(m: Seq<u64>, flag: u64, receiver_identifier: u64) -> bool {
    m.len() >= 2 && m[0] == flag && m[1] == receiver_identifier
}

/// The ciphertext part of an announcement: what follows flag and fingerprint.
pub open spec fn ciphertext_part(m: Seq<u64>) -> Seq<u64> {
    m.subrange(2, m.len() as int)
}

/// What a scan yields, given the decryption result of each announcement:
/// one incoming UTXO for each candidate that decrypted, in order.
pub open spec fn collect_incoming(
    anns: Seq<Seq<u64>>,
    rs: Seq<Result<PayloadView, DecryptError>>,
    flag: u64,
    receiver_identifier: u64,
    preimage: Seq<u64>,
) -> Seq<IncomingView>
    decreases anns.len(),
{
    if anns.len() == 0 || rs.len() != anns.len() {
        seq![]
    } else {
        collect_incoming(anns.drop_last(), rs.drop_last(), flag, receiver_identifier, preimage) + if is_candidate(
            anns.last(),
            flag,
            receiver_identifier,
        ) && rs.last() is Ok {
            seq![(rs.last()->Ok_0.0, rs.last()->Ok_0.1, preimage)]
        } else {
            seq![]
        }
    }
}

/// What scanning with the symmetric key of `seed` may yield: for some choice
/// of results that decryption may give on each candidate, the incoming UTXOs
/// of those that decrypted.
pub open spec fn scan_post(seed: Seq<u64>, anns: Seq<Seq<u64>>, out: Seq<IncomingView>) -> bool {
    exists|rs: Seq<Result<PayloadView, DecryptError>>|
        #![trigger collect_incoming(anns, rs, SYMMETRIC_KEY_FLAG_U8 as u64, receiver_identifier_of(seed), receiver_preimage_of(seed))]
        rs.len() == anns.len() && (forall|i: int|
            0 <= i < anns.len() && is_candidate(
                anns[i],
                SYMMETRIC_KEY_FLAG_U8 as u64,
                receiver_identifier_of(seed),
            ) ==> decrypt_post(seed, ciphertext_part(anns[i]), #[trigger] rs[i])) && out
            == collect_incoming(
            anns,
            rs,
            SYMMETRIC_KEY_FLAG_U8 as u64,
            receiver_identifier_of(seed),
            receiver_preimage_of(seed),
        )
}

/// The plain values of a batch of announcements.
pub open spec fn announcement_views(s: Seq<Announcement>) -> Seq<Seq<u64>> {
    Seq::new(s.len(), |i: int| s[i]@)
}

/// Every announcement of the batch holds canonical elements.
pub open spec fn all_announcements_wf(s: Seq<Announcement>) -> bool {
    forall|i: int| 0 <= i < s.len() ==> (#[trigger] s[i]).wf()
}

/// Scans a batch with a symmetric key. Announcements with another flag or
/// another fingerprint are passed over without decryption; those that do
/// not decrypt are dropped; the scan itself never fails.
pub fn scan_symmetric(key: &SymmetricKey, announcements: &[Announcement]) -> (r: Vec<IncomingUtxo>)
    requires
        all_announcements_wf(announcements@),
    ensures
        scan_post(key@, announcement_views(announcements@), incoming_views(r@)),
{
    let ghost anns = announcement_views(announcements@);
    let rid = key.receiver_identifier();
    let preimage = key.privacy_preimage();
    let ghost flag = SYMMETRIC_KEY_FLAG_U8 as u64;
    let mut out: Vec<IncomingUtxo> = Vec::new();
    let ghost mut rs: Seq<Result<PayloadView, DecryptError>> = seq![];
    let mut i: usize = 0;
    while i < announcements.len()
        invariant
            anns == announcement_views(announcements@),
            all_announcements_wf(announcements@),
            rid.value == receiver_identifier_of(key@),
            preimage@ == receiver_preimage_of(key@),
            flag == SYMMETRIC_KEY_FLAG_U8 as u64,
            0 <= i <= announcements@.len(),
            rs.len() == i,
            forall|k: int|
                0 <= k < i && is_candidate(anns[k], flag, rid.value) ==> decrypt_post(
                    key@,
                    ciphertext_part(anns[k]),
                    #[trigger] rs[k],
                ),
            incoming_views(out@) == collect_incoming(anns.take(i as int), rs, flag, rid.value, preimage@),
        decreases announcements.len() - i,
    {
        let a = &announcements[i];
        let ghost m = anns[i as int];
        assert(a@ == m);
        let mut result: Option<Result<(Utxo, Digest), DecryptError>> = None;
        if a.message.len() >= 2 && a.message[0].value == SYMMETRIC_KEY_FLAG_U8 as u64
            && a.message[1].value == rid.value {
            let mut ct: Vec<FieldElement> = Vec::new();
            let mut j: usize = 2;
            while j < a.message.len()
                invariant
                    2 <= j <= a.message@.len(),
                    ct@ == a.message@.subrange(2, j as int),
                decreases a.message.len() - j,
            {
                ct.push(a.message[j]);
                assert(ct@ =~= a.message@.subrange(2, j + 1));
                j = j + 1;
            }
            assert(vals(ct@) =~= ciphertext_part(m));
            assert(announcements@[i as int].wf());
            assert(all_wf(ct@)) by {
                assert forall|k: int| 0 <= k < ct@.len() implies #[trigger] ct@[k].wf() by {
                    assert(ct@[k] == a.message@[k + 2]);
                }
            }
            result = Some(key.decrypt(ct.as_slice()));
        }
        let ghost r_i = step_result_view(result);
        let ghost old_out = incoming_views(out@);
        match result {
            Some(Ok((utxo, sender_randomness))) => {
                out.push(IncomingUtxo { utxo, sender_randomness, receiver_preimage: preimage });
                assert(incoming_views(out@) =~= old_out.push((r_i->Ok_0.0, r_i->Ok_0.1, preimage@)));
            },
            _ => {
                assert(incoming_views(out@) =~= old_out);
            },
        }
        proof {
            let rs2 = rs.push(r_i);
            assert(anns.take(i + 1).drop_last() =~= anns.take(i as int));
            assert(rs2.drop_last() =~= rs);
            assert(anns.take(i + 1).last() == m);
            assert(is_candidate(m, flag, rid.value) <==> result is Some);
            assert(incoming_views(out@) =~= collect_incoming(anns.take(i + 1), rs2, flag, rid.value, preimage@));
            rs = rs2;
        }
        i = i + 1;
    }
    assert(anns.take(announcements@.len() as int) =~= anns);
    out
}

/// The decryption result of one scan step, where decryption was tried.
spec fn step_result_view(r: Option<Result<(Utxo, Digest), DecryptError>>) -> Result<PayloadView, DecryptError> {
    match r {
        Some(res) => decrypt_result_view(res),
        None => Err(DecryptError::DecryptionFailed),
    }
}

/// A spending key of any variant.
#[derive(Clone, Copy, Debug, PartialEq, Eq)]
pub enum BaseSpendingKey {
    RawHashLock(HashLockKey),
    Symmetric(SymmetricKey),
}

impl BaseSpendingKey {
    pub open spec fn wf(&self) -> bool {
        match self {
            BaseSpendingKey::RawHashLock(k) => k.wf(),
            BaseSpendingKey::Symmetric(k) => k.wf(),
        }
    }

    /// The variant of this key.
    pub fn key_type(&self) -> (r: BaseKeyType)
        ensures
            r == (match self {
                BaseSpendingKey::RawHashLock(_) => BaseKeyType::RawHashLock,
                BaseSpendingKey::Symmetric(_) => BaseKeyType::Symmetric,
            }),
    {
        match self {
            BaseSpendingKey::RawHashLock(_) => BaseKeyType::RawHashLock,
            BaseSpendingKey::Symmetric(_) => BaseKeyType::Symmetric,
        }
    }

    /// The address of this key; hash-lock keys have none.
    pub fn to_address(&self) -> (r: Option<ReceivingAddress>)
        ensures
            match self {
                BaseSpendingKey::RawHashLock(_) => r is None,
                BaseSpendingKey::Symmetric(k) => r == Some(ReceivingAddress::Symmetric(*k)),
            },
    {
        match self {
            BaseSpendingKey::RawHashLock(_) => None,
            BaseSpendingKey::Symmetric(k) => Some(ReceivingAddress::Symmetric(*k)),
        }
    }

    /// The lock script with its witness.
    pub fn lock_script_and_witness(&self) -> (r: LockScriptAndWitness)
        requires
            self.wf(),
        ensures
            match self {
                BaseSpendingKey::RawHashLock(k) => unlock_witness(k@, r),
                BaseSpendingKey::Symmetric(k) => unlock_witness(unlock_key_of(k@), r),
            },
    {
        match self {
            BaseSpendingKey::RawHashLock(k) => k.lock_script_and_witness(),
            BaseSpendingKey::Symmetric(k) => k.lock_script_and_witness(),
        }
    }

    /// The lock script alone.
    pub fn lock_script(&self) -> (r: LockScript)
        requires
            self.wf(),
        ensures
            r.program@ == self.lock_program(),
    {
        LockScript { program: self.lock_script_and_witness().program }
    }

    /// The program of this key's lock script.
    pub open spec fn lock_program(&self) -> Seq<crate::lock_script::Instruction> {
        match self {
            BaseSpendingKey::RawHashLock(k) => hash_lock_program(digest_hash_of(k@)),
            BaseSpendingKey::Symmetric(k) => hash_lock_program(digest_hash_of(unlock_key_of(k@))),
        }
    }

    /// The hash of the lock script, to which UTXOs for this key commit.
    pub fn lock_script_hash(&self) -> (r: Digest)
        requires
            self.wf(),
        ensures
            r@ == program_hash(self.lock_program()),
    {
        self.lock_script().hash()
    }

    /// The privacy preimage, for keys that have an address.
    pub fn privacy_preimage(&self) -> (r: Option<Digest>)
        ensures
            match self {
                BaseSpendingKey::RawHashLock(_) => r is None,
                BaseSpendingKey::Symmetric(k) => r matches Some(d) && d@ == receiver_preimage_of(k@),
            },
    {
        match self {
            BaseSpendingKey::RawHashLock(_) => None,
            BaseSpendingKey::Symmetric(k) => Some(k.privacy_preimage()),
        }
    }

    /// The public fingerprint, for keys that have an address.
    pub fn receiver_identifier(&self) -> (r: Option<FieldElement>)
        ensures
            match self {
                BaseSpendingKey::RawHashLock(_) => r is None,
                BaseSpendingKey::Symmetric(k) => r matches Some(e) && e.value == receiver_identifier_of(k@),
            },
    {
        match self {
            BaseSpendingKey::RawHashLock(_) => None,
            BaseSpendingKey::Symmetric(k) => Some(k.receiver_identifier()),
        }
    }

    /// Decrypts ciphertext elements, for keys that have an address.
    pub fn decrypt(&self, ciphertext_bfes: &[FieldElement]) -> (r: Option<Result<(Utxo, Digest), DecryptError>>)
        requires
            all_wf(ciphertext_bfes@),
        ensures
            match self {
                BaseSpendingKey::RawHashLock(_) => r is None,
                BaseSpendingKey::Symmetric(k) => r matches Some(res) && decrypt_post(
                    k@,
                    vals(ciphertext_bfes@),
                    decrypt_result_view(res),
                ),
            },
    {
        match self {
            BaseSpendingKey::RawHashLock(_) => None,
            BaseSpendingKey::Symmetric(k) => Some(k.decrypt(ciphertext_bfes)),
        }
    }

    /// The UTXOs that the batch announces to this key; none for keys without
    /// an address.
    pub fn scan_for_announced_utxos(&self, announcements: &[Announcement]) -> (r: Vec<IncomingUtxo>)
        requires
            all_announcements_wf(announcements@),
        ensures
            match self {
                BaseSpendingKey::RawHashLock(_) => r@.len() == 0,
                BaseSpendingKey::Symmetric(k) => scan_post(k@, announcement_views(announcements@), incoming_views(r@)),
            },
    {
        match self {
            BaseSpendingKey::RawHashLock(_) => Vec::new(),
            BaseSpendingKey::Symmetric(k) => scan_symmetric(k, announcements),
        }
    }
}

/// A spending key that has an address: it can receive notifications.
#[derive(Clone, Copy, Debug, PartialEq, Eq)]
pub enum AddressableKey {
    Symmetric(SymmetricKey),
}

impl AddressableKey {
    pub open spec fn wf(&self) -> bool {
        match self {
            AddressableKey::Symmetric(k) => k.wf(),
        }
    }

    /// The same key among keys of any variant.
    pub fn to_base(&self) -> (r: BaseSpendingKey)
        ensures
            match self {
                AddressableKey::Symmetric(k) => r == BaseSpendingKey::Symmetric(*k),
            },
    {
        match self {
            AddressableKey::Symmetric(k) => BaseSpendingKey::Symmetric(*k),
        }
    }

    /// The variant of this key.
    pub fn key_type(&self) -> (r: AddressableKeyType)
        ensures
            r == AddressableKeyType::Symmetric,
    {
        AddressableKeyType::Symmetric
    }

    /// The address of this key.
    pub fn to_address(&self) -> (r: ReceivingAddress)
        ensures
            match self {
                AddressableKey::Symmetric(k) => r == ReceivingAddress::Symmetric(*k),
            },
    {
        match self {
            AddressableKey::Symmetric(k) => ReceivingAddress::Symmetric(*k),
        }
    }

    /// The lock script with its witness.
    pub fn lock_script_and_witness(&self) -> (r: LockScriptAndWitness)
        requires
            self.wf(),
        ensures
            match self {
                AddressableKey::Symmetric(k) => unlock_witness(unlock_key_of(k@), r),
            },
    {
        match self {
            AddressableKey::Symmetric(k) => k.lock_script_and_witness(),
        }
    }

    /// The lock script alone.
    pub fn lock_script(&self) -> (r: LockScript)
        requires
            self.wf(),
        ensures
            match self {
                AddressableKey::Symmetric(k) => r.program@ == hash_lock_program(
                    digest_hash_of(unlock_key_of(k@)),
                ),
            },
    {
        LockScript { program: self.lock_script_and_witness().program }
    }

    /// The hash of the lock script.
    pub fn lock_script_hash(&self) -> (r: Digest)
        requires
            self.wf(),
        ensures
            match self {
                AddressableKey::Symmetric(k) => r@ == program_hash(
                    hash_lock_program(digest_hash_of(unlock_key_of(k@))),
                ),
            },
    {
        self.lock_script().hash()
    }

    /// The privacy preimage.
    pub fn privacy_preimage(&self) -> (r: Digest)
        ensures
            match self {
                AddressableKey::Symmetric(k) => r@ == receiver_preimage_of(k@),
            },
    {
        match self {
            AddressableKey::Symmetric(k) => k.privacy_preimage(),
        }
    }

    /// The public fingerprint.
    pub fn receiver_identifier(&self) -> (r: FieldElement)
        ensures
            match self {
                AddressableKey::Symmetric(k) => r.value == receiver_identifier_of(k@),
            },
    {
        match self {
            AddressableKey::Symmetric(k) => k.receiver_identifier(),
        }
    }

    /// Decrypts ciphertext elements.
    pub fn decrypt(&self, ciphertext_bfes: &[FieldElement]) -> (r: Result<(Utxo, Digest), DecryptError>)
        requires
            all_wf(ciphertext_bfes@),
        ensures
            match self {
                AddressableKey::Symmetric(k) => decrypt_post(
                    k@,
                    vals(ciphertext_bfes@),
                    decrypt_result_view(r),
                ),
            },
    {
        match self {
            AddressableKey::Symmetric(k) => k.decrypt(ciphertext_bfes),
        }
    }

    /// The UTXOs that the batch announces to this key.
    pub fn scan_for_announced_utxos(&self, announcements: &[Announcement]) -> (r: Vec<IncomingUtxo>)
        requires
            all_announcements_wf(announcements@),
        ensures
            match self {
                AddressableKey::Symmetric(k) => scan_post(k@, announcement_views(announcements@), incoming_views(r@)),
            },
    {
        match self {
            AddressableKey::Symmetric(k) => scan_symmetric(k, announcements),
        }
    }
}

} // verus!
