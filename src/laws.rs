//! Laws that relate the operations of the library to one another.
use crate::announcement::digits_value;
use crate::announcement::display_of;
use crate::announcement::group_digits;
use crate::announcement::hex16;
use crate::announcement::lemma_hex16_value;
use crate::announcement::nibble;
use crate::announcement::parse_groups;
use crate::announcement::parse_of;
use crate::announcement::ParsePublicAnnouncementError;
use crate::bech32m::bech32m_string_of;
use crate::bech32m::decode_post;
use crate::bech32m::valid_lower_hrp;
use crate::bech32m::DecodedView;
use crate::cipher::aes_gcm_seal;
use crate::codec::lemma_pack_round_trip;
use crate::codec::lemma_words_round_trip;
use crate::codec::pack_bytes;
use crate::codec::unpack_bytes;
use crate::codec::words_to_bytes;
use crate::field::all_canonical;
use crate::keys::ciphertext_part;
use crate::keys::collect_incoming;
use crate::keys::is_candidate;
use crate::keys::scan_post;
use crate::keys::lemma_unlock_witness_unique;
use crate::keys::unlock_witness;
use crate::keys::AddressableKey;
use crate::keys::IncomingView;
use crate::lock_script::LockScriptAndWitness;
use crate::symmetric_key::unlock_key_of;
use crate::network::Network;
use crate::notification::from_decoded_of;
use crate::notification::from_message_of;
use crate::notification::message_bytes;
use crate::notification::message_of;
use crate::notification::notification_hrp;
use crate::notification::Bech32mDecodeError;
use crate::notification::ConversionFromMessageError;
use crate::notification::NotificationView;
use crate::symmetric_key::decrypt_post;
use crate::symmetric_key::encrypt_of;
use crate::symmetric_key::key_from_decoded_of;
use crate::symmetric_key::key_hrp;
use crate::symmetric_key::nonce_bytes;
use crate::symmetric_key::nonce_of;
use crate::symmetric_key::payload_from_plaintext;
use crate::symmetric_key::plaintext_of;
use crate::symmetric_key::receiver_identifier_of;
use crate::symmetric_key::receiver_preimage_of;
use crate::symmetric_key::secret_key_of;
use crate::symmetric_key::DecryptError;
use crate::symmetric_key::KeyDecodeError;
use crate::symmetric_key::SYMMETRIC_KEY_FLAG_U8;
use crate::utxo::lemma_payload_fes_canonical;
use crate::utxo::lemma_payload_round_trip;
use crate::utxo::payload_fes;
use crate::utxo::payload_view_canonical;
use crate::utxo::payload_view_wf;
use crate::utxo::PayloadView;
use vstd::prelude::*;

verus! {

/// The plaintext of a valid payload holds that payload.
pub proof fn lemma_plaintext_round_trip(p: PayloadView)
    requires
        payload_view_wf(p),
        payload_view_canonical(p),
    ensures
        payload_from_plaintext(plaintext_of(p)) == Some(p),
{
    let s = payload_fes(p);
    lemma_words_round_trip(s);
    lemma_payload_fes_canonical(p);
    lemma_payload_round_trip(p);
    assert(words_to_bytes(s).len() % 8 == 0) by {
        assert(words_to_bytes(s).len() == 8 * s.len());
        vstd::arithmetic::div_mod::lemma_mod_multiples_basic(s.len() as int, 8);
        assert(8 * s.len() == s.len() * 8);
    }
}

/// Decrypting what a symmetric key encrypted gives back the payload: every
/// result that decryption may return on the ciphertext of a valid payload is
/// that payload.
pub proof fn lemma_decrypt_of_encrypt(
    seed: Seq<u64>,
    p: PayloadView,
    r: Result<PayloadView, DecryptError>,
)
    requires
        payload_view_wf(p),
        payload_view_canonical(p),
        encrypt_of(seed, p) is Ok,
        decrypt_post(seed, encrypt_of(seed, p)->Ok_0, r),
    ensures
        r == Ok::<PayloadView, DecryptError>(p),
{
    let c = encrypt_of(seed, p)->Ok_0;
    let n = nonce_of(p);
    let pt = plaintext_of(p);
    let k = secret_key_of(seed);
    let ct = aes_gcm_seal(k, nonce_bytes(n), pt);
    assert(c == seq![n] + pack_bytes(ct));
    assert(c.subrange(1, c.len() as int) =~= pack_bytes(ct));
    assert(c[0] == n);
    lemma_pack_round_trip(ct);
    lemma_plaintext_round_trip(p);
    assert(aes_gcm_seal(k, nonce_bytes(c[0]), pt) == ct);
}

/// Reading the message of a notification gives the notification back.
pub proof fn lemma_message_round_trip(n: NotificationView)
    ensures
        from_message_of(message_of(n)) == Ok::<NotificationView, ConversionFromMessageError>(n),
{
    let m = message_of(n);
    assert(m.subrange(2, m.len() as int) =~= n.2);
}

proof fn lemma_display_groups(m: Seq<u64>, g: nat)
    requires
        all_canonical(m),
        g <= m.len(),
    ensures
        parse_groups(display_of(m), g) == Ok::<Seq<u64>, ParsePublicAnnouncementError>(m.take(g as int)),
    decreases g,
{
    if g > 0 {
        let d = display_of(m);
        let i = (g - 1) as int;
        lemma_display_groups(m, (g - 1) as nat);
        let v = m[i];
        lemma_hex16_value(v);
        assert forall|k: int| 0 <= k < 16 implies d[2 + 16 * i + k] == hex16(v)[k] by {
            assert(16 * i == i * 16) by (nonlinear_arith);
            vstd::arithmetic::div_mod::lemma_fundamental_div_mod_converse(16 * i + k, 16, i, k);
            assert(16 * i + k < 16 * m.len()) by (nonlinear_arith)
                requires
                    0 <= k < 16,
                    i < m.len(),
            ;
        }
        let ds = Seq::new(16, |k: int| nibble(v, k));
        assert(group_digits(d, 2 + 16 * i) == Some(ds)) by {
            assert(2 + 16 * i + 16 <= d.len()) by (nonlinear_arith)
                requires
                    i < m.len(),
                    d.len() == 2 + 16 * m.len(),
            ;
            let t = d.subrange(2 + 16 * i, 2 + 16 * i + 16);
            assert(t =~= hex16(v));
            assert(t[0] != '+') by {
                assert(crate::announcement::hex_value(t[0]) is Some);
            }
            assert forall|k: int| 0 <= k < 16 implies (#[trigger] crate::announcement::hex_value(
                t[k],
            )) is Some by {}
            assert(Seq::new(16, |k: int| crate::announcement::hex_value(t[0 + k])->0) =~= ds);
        }
        assert(digits_value(ds) == v);
        assert(v < crate::field::P);
        crate::announcement::lemma_groups_step(d, (g - 1) as nat);
        assert((g - 1) as nat + 1 == g);
        assert(m.take(i).push(v) =~= m.take(g as int));
    } else {
        assert(m.take(0) =~= seq![]);
    }
}

/// Parsing the text form of an announcement of canonical elements gives the
/// announcement back.
pub proof fn lemma_display_parse_round_trip(m: Seq<u64>)
    requires
        all_canonical(m),
    ensures
        parse_of(display_of(m)) == Ok::<Seq<u64>, ParsePublicAnnouncementError>(m),
{
    let d = display_of(m);
    assert(d.len() == 2 + 16 * m.len());
    assert((d.len() - 2 + 15) / 16 == m.len() && (d.len() - 2) % 16 == 0) by {
        vstd::arithmetic::div_mod::lemma_fundamental_div_mod_converse(16 * (m.len() as int), 16, m.len() as int, 0);
        vstd::arithmetic::div_mod::lemma_fundamental_div_mod_converse(16 * (m.len() as int) + 15, 16, m.len() as int, 15);
        assert(16 * m.len() == m.len() * 16) by (nonlinear_arith);
    }
    assert(d[0] == '0' && d[1] == 'x');
    assert forall|j: int| 0 <= j < d.len() implies (#[trigger] d[j] as u32) < 0x80 by {
        if j >= 2 {
            let q = (j - 2) / 16;
            let t = (j - 2) % 16;
            assert(0 <= t < 16);
            let w = m[q];
            let sh = (60 - 4 * t) as u64;
            let nb = nibble(w, t);
            assert(nb == (w >> sh) & 0xf);
            assert((w >> sh) & 0xf < 16) by (bit_vector);
        }
    }
    crate::announcement::lemma_utf8_len_ascii(d);
    assert(crate::announcement::splits_at_two(d));
    lemma_display_groups(m, m.len());
    assert(m.take(m.len() as int) =~= m);
}

/// A notification encoded for one network does not decode for another: the
/// prefix check refuses it, whatever else the string holds.
pub proof fn lemma_notification_network_mismatch(
    n: NotificationView,
    a: Network,
    b: Network,
    d: DecodedView,
)
    requires
        a != b,
        decode_post(bech32m_string_of(notification_hrp(a), message_bytes(message_of(n))), d),
    ensures
        from_decoded_of(d, b) == Err::<NotificationView, Bech32mDecodeError>(
            Bech32mDecodeError::WrongPrefix,
        ),
{
    assert(valid_lower_hrp(notification_hrp(a)));
    assert(notification_hrp(a)[4] != notification_hrp(b)[4]);
}

/// A key encoded for one network does not decode for another.
pub proof fn lemma_key_network_mismatch(seed: Seq<u64>, a: Network, b: Network, d: DecodedView)
    requires
        a != b,
        decode_post(bech32m_string_of(key_hrp(a), words_to_bytes(seed)), d),
    ensures
        key_from_decoded_of(d, b) == Err::<Seq<u64>, KeyDecodeError>(KeyDecodeError::WrongPrefix),
{
    assert(valid_lower_hrp(key_hrp(a)));
    assert(key_hrp(a)[5] != key_hrp(b)[5]);
}

/// The scanner reads decryption results only where flag and fingerprint
/// match: whatever decryption would give on any other announcement, the scan
/// yields the same.
pub proof fn lemma_flag_routing(
    anns: Seq<Seq<u64>>,
    rs1: Seq<Result<PayloadView, DecryptError>>,
    rs2: Seq<Result<PayloadView, DecryptError>>,
    flag: u64,
    receiver_identifier: u64,
    preimage: Seq<u64>,
)
    requires
        rs1.len() == anns.len(),
        rs2.len() == anns.len(),
        forall|i: int|
            0 <= i < anns.len() && is_candidate(anns[i], flag, receiver_identifier) ==> rs1[i]
                == rs2[i],
    ensures
        collect_incoming(anns, rs1, flag, receiver_identifier, preimage) == collect_incoming(
            anns,
            rs2,
            flag,
            receiver_identifier,
            preimage,
        ),
    decreases anns.len(),
{
    if anns.len() > 0 {
        let a0 = anns.drop_last();
        assert(forall|i: int| 0 <= i < a0.len() ==> #[trigger] a0[i] == anns[i]);
        lemma_flag_routing(a0, rs1.drop_last(), rs2.drop_last(), flag, receiver_identifier, preimage);
        assert(anns.last() == anns[anns.len() - 1]);
    }
}

/// An announcement whose flag is not the symmetric key's is never a
/// candidate for a symmetric key, whatever its fingerprint.
pub proof fn lemma_foreign_flag_not_candidate(m: Seq<u64>, seed: Seq<u64>)
    requires
        m.len() >= 1,
        m[0] != SYMMETRIC_KEY_FLAG_U8 as u64,
    ensures
        !is_candidate(m, SYMMETRIC_KEY_FLAG_U8 as u64, receiver_identifier_of(seed)),
{
}

/// The fingerprint is a function of the seed: keys with the same seed have
/// the same fingerprint.
pub proof fn lemma_fingerprint_deterministic(seed1: Seq<u64>, seed2: Seq<u64>)
    requires
        seed1 == seed2,
    ensures
        receiver_identifier_of(seed1) == receiver_identifier_of(seed2),
{
}

/// What a batch announces to a key: the payload of each genuine notification
/// for it, in order.
pub open spec fn expected_incoming(ps: Seq<Option<PayloadView>>, preimage: Seq<u64>) -> Seq<IncomingView>
    decreases ps.len(),
{
    if ps.len() == 0 {
        seq![]
    } else {
        expected_incoming(ps.drop_last(), preimage) + match ps.last() {
            Some(p) => seq![(p.0, p.1, preimage)],
            None => seq![],
        }
    }
}

/// The batch holds, at each position with `Some(p)`, the notification of
/// `p` that the symmetric key of `seed` generates, and at every other position
/// an announcement that the key must pass over.
pub open spec fn batch_shape(seed: Seq<u64>, anns: Seq<Seq<u64>>, ps: Seq<Option<PayloadView>>) -> bool {
    &&& ps.len() == anns.len()
    &&& forall|i: int|
        0 <= i < anns.len() ==> match #[trigger] ps[i] {
            Some(p) => payload_view_wf(p) && payload_view_canonical(p) && encrypt_of(seed, p) is Ok
                && anns[i] == message_of(
                (
                    SYMMETRIC_KEY_FLAG_U8 as u64,
                    receiver_identifier_of(seed),
                    encrypt_of(seed, p)->Ok_0,
                ),
            ),
            None => malformed_or_foreign(anns[i], seed),
        }
}

/// An announcement that scanning with the key of `seed` must pass over: it
/// carries another key's flag or fingerprint, or it is too short, or its
/// ciphertext part holds no packed bytes, or those bytes are garbage: no
/// plaintext of a payload seals to them under the key.
pub open spec fn malformed_or_foreign(m: Seq<u64>, seed: Seq<u64>) -> bool {
    let c = ciphertext_part(m);
    ||| !is_candidate(m, SYMMETRIC_KEY_FLAG_U8 as u64, receiver_identifier_of(seed))
    ||| c.len() < 2
    ||| unpack_bytes(c.subrange(1, c.len() as int)) is None
    ||| forall|pt: Seq<u8>|
        #[trigger] aes_gcm_seal(secret_key_of(seed), nonce_bytes(c[0]), pt) == unpack_bytes(
            c.subrange(1, c.len() as int),
        )->0 ==> payload_from_plaintext(pt) is None
}

proof fn lemma_malformed_yields_nothing(
    seed: Seq<u64>,
    m: Seq<u64>,
    r: Result<PayloadView, DecryptError>,
)
    requires
        malformed_or_foreign(m, seed),
        is_candidate(m, SYMMETRIC_KEY_FLAG_U8 as u64, receiver_identifier_of(seed)),
        decrypt_post(seed, ciphertext_part(m), r),
    ensures
        r is Err,
{
    let c = ciphertext_part(m);
    if c.len() >= 2 {
        if let Some(ct) = unpack_bytes(c.subrange(1, c.len() as int)) {
            if r is Ok {
                let k = secret_key_of(seed);
                let nb = nonce_bytes(c[0]);
                let pt = choose|pt: Seq<u8>|
                    pt.len() <= crate::cipher::OPEN_MAX && #[trigger] aes_gcm_seal(k, nb, pt) == ct
                        && payload_from_plaintext(pt) == Some(r->Ok_0);
                assert(aes_gcm_seal(k, nb, pt) == ct);
                assert(false);
            }
        }
    }
}

proof fn lemma_collect_batch(
    seed: Seq<u64>,
    anns: Seq<Seq<u64>>,
    ps: Seq<Option<PayloadView>>,
    rs: Seq<Result<PayloadView, DecryptError>>,
)
    requires
        batch_shape(seed, anns, ps),
        rs.len() == anns.len(),
        forall|i: int|
            0 <= i < anns.len() && is_candidate(
                anns[i],
                SYMMETRIC_KEY_FLAG_U8 as u64,
                receiver_identifier_of(seed),
            ) ==> decrypt_post(seed, ciphertext_part(anns[i]), #[trigger] rs[i]),
    ensures
        collect_incoming(
            anns,
            rs,
            SYMMETRIC_KEY_FLAG_U8 as u64,
            receiver_identifier_of(seed),
            receiver_preimage_of(seed),
        ) == expected_incoming(ps, receiver_preimage_of(seed)),
    decreases anns.len(),
{
    if anns.len() > 0 {
        let a0 = anns.drop_last();
        let p0 = ps.drop_last();
        let r0 = rs.drop_last();
        assert(forall|i: int| 0 <= i < a0.len() ==> #[trigger] a0[i] == anns[i]);
        assert(forall|i: int| 0 <= i < p0.len() ==> #[trigger] p0[i] == ps[i]);
        assert(forall|i: int| 0 <= i < r0.len() ==> #[trigger] r0[i] == rs[i]);
        assert forall|i: int| 0 <= i < a0.len() implies match #[trigger] p0[i] {
            Some(p) => payload_view_wf(p) && payload_view_canonical(p) && encrypt_of(seed, p) is Ok
                && a0[i] == message_of(
                (
                    SYMMETRIC_KEY_FLAG_U8 as u64,
                    receiver_identifier_of(seed),
                    encrypt_of(seed, p)->Ok_0,
                ),
            ),
            None => malformed_or_foreign(a0[i], seed),
        } by {
            assert(ps[i] == p0[i]);
        }
        lemma_collect_batch(seed, a0, p0, r0);
        let last = anns.len() - 1;
        assert(anns.last() == anns[last]);
        assert(rs.last() == rs[last]);
        assert(ps.last() == ps[last]);
        match ps[last] {
            Some(p) => {
                let c = encrypt_of(seed, p)->Ok_0;
                let m = anns[last];
                assert(ciphertext_part(m) =~= c);
                assert(is_candidate(m, SYMMETRIC_KEY_FLAG_U8 as u64, receiver_identifier_of(seed)));
                lemma_decrypt_of_encrypt(seed, p, rs[last]);
            },
            None => {
                if is_candidate(anns[last], SYMMETRIC_KEY_FLAG_U8 as u64, receiver_identifier_of(seed)) {
                    lemma_malformed_yields_nothing(seed, anns[last], rs[last]);
                }
            },
        }
    }
}

/// Scanning a batch of genuine notifications for a key mixed with
/// announcements that are not for it yields exactly the payloads of the
/// genuine ones, in order; nothing else gets through and nothing fails.
pub proof fn lemma_scan_batch(
    seed: Seq<u64>,
    anns: Seq<Seq<u64>>,
    ps: Seq<Option<PayloadView>>,
    out: Seq<IncomingView>,
)
    requires
        batch_shape(seed, anns, ps),
        scan_post(seed, anns, out),
    ensures
        out == expected_incoming(ps, receiver_preimage_of(seed)),
{
    let rs = choose|rs: Seq<Result<PayloadView, DecryptError>>|
        #![trigger collect_incoming(anns, rs, SYMMETRIC_KEY_FLAG_U8 as u64, receiver_identifier_of(seed), receiver_preimage_of(seed))]
        rs.len() == anns.len() && (forall|i: int|
            0 <= i < anns.len() && is_candidate(
                anns[i],
                SYMMETRIC_KEY_FLAG_U8 as u64,
                receiver_identifier_of(seed),
            ) ==> decrypt_post(seed, ciphertext_part(anns[i]), #[trigger] rs[i])) && out
            == collect_incoming(
            anns,
            rs,
            SYMMETRIC_KEY_FLAG_U8 as u64,
            receiver_identifier_of(seed),
            receiver_preimage_of(seed),
        );
    lemma_collect_batch(seed, anns, ps, rs);
}

/// An announcement whose leading element is the symmetric key's flag.
pub open spec fn carries_symmetric_flag(m: Seq<u64>) -> bool {
    m.len() >= 1 && m[0] == SYMMETRIC_KEY_FLAG_U8 as u64
}

proof fn lemma_collect_filtered(
    seed: Seq<u64>,
    anns: Seq<Seq<u64>>,
    rs1: Seq<Result<PayloadView, DecryptError>>,
    rs2: Seq<Result<PayloadView, DecryptError>>,
)
    requires
        rs1.len() == anns.len(),
        rs2.len() == anns.filter(|m: Seq<u64>| carries_symmetric_flag(m)).len(),
        forall|i: int|
            0 <= i < anns.len() && is_candidate(
                anns[i],
                SYMMETRIC_KEY_FLAG_U8 as u64,
                receiver_identifier_of(seed),
            ) ==> decrypt_post(seed, ciphertext_part(anns[i]), #[trigger] rs1[i]),
        forall|i: int|
            0 <= i < rs2.len() && is_candidate(
                anns.filter(|m: Seq<u64>| carries_symmetric_flag(m))[i],
                SYMMETRIC_KEY_FLAG_U8 as u64,
                receiver_identifier_of(seed),
            ) ==> decrypt_post(
                seed,
                ciphertext_part(anns.filter(|m: Seq<u64>| carries_symmetric_flag(m))[i]),
                #[trigger] rs2[i],
            ),
    ensures
        collect_incoming(
            anns,
            rs1,
            SYMMETRIC_KEY_FLAG_U8 as u64,
            receiver_identifier_of(seed),
            receiver_preimage_of(seed),
        ) == collect_incoming(
            anns.filter(|m: Seq<u64>| carries_symmetric_flag(m)),
            rs2,
            SYMMETRIC_KEY_FLAG_U8 as u64,
            receiver_identifier_of(seed),
            receiver_preimage_of(seed),
        ),
    decreases anns.len(),
{
    reveal(Seq::filter);
    let pred = |m: Seq<u64>| carries_symmetric_flag(m);
    let flag = SYMMETRIC_KEY_FLAG_U8 as u64;
    let rid = receiver_identifier_of(seed);
    let pre = receiver_preimage_of(seed);
    if anns.len() == 0 {
        assert(anns.filter(pred).len() == 0);
    } else {
        let a0 = anns.drop_last();
        let x = anns.last();
        let f0 = a0.filter(pred);
        let r1 = rs1.drop_last();
        assert(forall|i: int| 0 <= i < a0.len() ==> #[trigger] a0[i] == anns[i]);
        assert(forall|i: int| 0 <= i < r1.len() ==> #[trigger] r1[i] == rs1[i]);
        assert(x == anns[anns.len() - 1]);
        assert(rs1.last() == rs1[rs1.len() - 1]);
        if pred(x) {
            assert(anns.filter(pred) == f0.push(x));
            let r2 = rs2.drop_last();
            assert(forall|i: int| 0 <= i < r2.len() ==> #[trigger] r2[i] == rs2[i]);
            assert(forall|i: int| 0 <= i < f0.len() ==> #[trigger] f0[i] == f0.push(x)[i]);
            lemma_collect_filtered(seed, a0, r1, r2);
            assert(rs2.last() == rs2[rs2.len() - 1]);
            assert(f0.push(x).drop_last() =~= f0);
            assert(f0.push(x).last() == x);
            if is_candidate(x, flag, rid) {
                assert(f0.push(x)[f0.len() as int] == x);
                crate::symmetric_key::lemma_decrypt_deterministic(
                    seed,
                    ciphertext_part(x),
                    rs1.last(),
                    rs2.last(),
                );
            }
        } else {
            assert(anns.filter(pred) == f0);
            lemma_collect_filtered(seed, a0, r1, rs2);
            assert(!is_candidate(x, flag, rid));
        }
    }
}

/// Announcements that do not carry the symmetric key's flag never change
/// what a scan yields: scanning the batch and scanning only its flagged
/// announcements give the same incoming UTXOs.
pub proof fn lemma_scan_ignores_foreign_flags(
    seed: Seq<u64>,
    anns: Seq<Seq<u64>>,
    out_all: Seq<IncomingView>,
    out_flagged: Seq<IncomingView>,
)
    requires
        scan_post(seed, anns, out_all),
        scan_post(seed, anns.filter(|m: Seq<u64>| carries_symmetric_flag(m)), out_flagged),
    ensures
        out_all == out_flagged,
{
    let f = anns.filter(|m: Seq<u64>| carries_symmetric_flag(m));
    let flag = SYMMETRIC_KEY_FLAG_U8 as u64;
    let rid = receiver_identifier_of(seed);
    let pre = receiver_preimage_of(seed);
    let rs1 = choose|rs: Seq<Result<PayloadView, DecryptError>>|
        #![trigger collect_incoming(anns, rs, flag, rid, pre)]
        rs.len() == anns.len() && (forall|i: int|
            0 <= i < anns.len() && is_candidate(anns[i], flag, rid) ==> decrypt_post(
                seed,
                ciphertext_part(anns[i]),
                #[trigger] rs[i],
            )) && out_all == collect_incoming(anns, rs, flag, rid, pre);
    let rs2 = choose|rs: Seq<Result<PayloadView, DecryptError>>|
        #![trigger collect_incoming(f, rs, flag, rid, pre)]
        rs.len() == f.len() && (forall|i: int|
            0 <= i < f.len() && is_candidate(f[i], flag, rid) ==> decrypt_post(
                seed,
                ciphertext_part(f[i]),
                #[trigger] rs[i],
            )) && out_flagged == collect_incoming(f, rs, flag, rid, pre);
    lemma_collect_filtered(seed, anns, rs1, rs2);
}

/// A base key built from an addressable key gives the same lock script and
/// witness as the addressable key itself: whatever the two functions
/// return, program and secret input agree.
pub proof fn lemma_base_key_same_witness(
    ak: AddressableKey,
    from_addressable: LockScriptAndWitness,
    from_base: LockScriptAndWitness,
)
    requires
        match ak {
            AddressableKey::Symmetric(k) => unlock_witness(unlock_key_of(k@), from_addressable),
        },
        match ak {
            AddressableKey::Symmetric(k) => unlock_witness(unlock_key_of(k@), from_base),
        },
    ensures
        from_addressable.program@ == from_base.program@,
        from_addressable.nd_tokens@ == from_base.nd_tokens@,
        from_addressable.nd_memory@ == from_base.nd_memory@,
        from_addressable.nd_digests@ == from_base.nd_digests@,
{
    match ak {
        AddressableKey::Symmetric(k) => {
            lemma_unlock_witness_unique(unlock_key_of(k@), from_addressable, from_base);
        },
    }
}

} // verus!
