//! UTXOs, the notification payload that a sender encrypts for a receiver, and
//! the payload's field-element layout.
use crate::field::all_canonical;
use crate::field::all_wf;
use crate::field::copy_elements;
use crate::field::vals;
use crate::field::Digest;
use crate::field::FieldElement;
use crate::field::MAX;
use crate::field::digest_hash_of;
use crate::lock_script::hash_lock_program;
use crate::lock_script::program_hash;
use crate::lock_script::LockScript;
use vstd::prelude::*;

verus! {

/// A coin as plain values: its type-script hash and its state.
pub type CoinView = (Seq<u64>, Seq<u64>);

/// A UTXO as plain values: its lock-script hash and its coins.
pub type UtxoView = (Seq<u64>, Seq<CoinView>);

/// A notification payload as plain values: the UTXO and the sender randomness.
pub type PayloadView = (UtxoView, Seq<u64>);

/// A coin: a type-script hash and the state that the type script reads.
#[derive(Clone, Debug, PartialEq, Eq)]
pub struct Coin {
    pub type_script_hash: Digest,
    pub state: Vec<FieldElement>,
}

impl View for Coin {
    type V = CoinView;

    open spec fn view(&self) -> CoinView {
        (self.type_script_hash@, vals(self.state@))
    }
}

impl Coin {
    pub open spec fn wf(&self) -> bool {
        self.type_script_hash.wf() && all_wf(self.state@) && self.state@.len() <= MAX
    }

    /// A coin with the given type-script hash and state.
    pub fn new(type_script_hash: Digest, state: Vec<FieldElement>) -> (r: Coin)
        ensures
            r@ == (type_script_hash@, vals(state@)),
    {
        Coin { type_script_hash, state }
    }

    /// A copy of this coin.
    pub fn copy(&self) -> (r: Coin)
        ensures
            r@ == self@,
            self.wf() ==> r.wf(),
    {
        Coin { type_script_hash: self.type_script_hash, state: copy_elements(&self.state) }
    }
}

/// The coin views of a sequence of coins.
pub open spec fn coin_views(s: Seq<Coin>) -> Seq<CoinView> {
    Seq::new(s.len(), |i: int| s[i]@)
}

/// An unspent transaction output: the hash of the lock script that guards it,
/// and its coins.
#[derive(Clone, Debug, PartialEq, Eq)]
pub struct Utxo {
    pub lock_script_hash: Digest,
    pub coins: Vec<Coin>,
}

impl View for Utxo {
    type V = UtxoView;

    open spec fn view(&self) -> UtxoView {
        (self.lock_script_hash@, coin_views(self.coins@))
    }
}

impl Utxo {
    pub open spec fn wf(&self) -> bool {
        &&& self.lock_script_hash.wf()
        &&& self.coins@.len() <= MAX
        &&& forall|i: int| 0 <= i < self.coins@.len() ==> (#[trigger] self.coins@[i]).wf()
    }

    /// A UTXO guarded by the lock script whose hash is `lock_script_hash`.
    pub fn from_parts(lock_script_hash: Digest, coins: Vec<Coin>) -> (r: Utxo)
        ensures
            r@ == (lock_script_hash@, coin_views(coins@)),
    {
        Utxo { lock_script_hash, coins }
    }

    /// A UTXO guarded by `lock_script`.
    pub fn new(lock_script: &LockScript, coins: Vec<Coin>) -> (r: Utxo)
        requires
            lock_script.wf(),
        ensures
            r@ == (program_hash(lock_script.program@), coin_views(coins@)),
            r.lock_script_hash.wf(),
    {
        Utxo { lock_script_hash: lock_script.hash(), coins }
    }

    /// Whether this UTXO is guarded by the standard hash lock that `preimage`
    /// opens.
    pub fn is_lockscript_with_preimage(&self, preimage: Digest) -> (r: bool)
        ensures
            r == (self.lock_script_hash@ == program_hash(
                hash_lock_program(digest_hash_of(preimage@)),
            )),
    {
        let lock = LockScript::standard_hash_lock_from_after_image(preimage.hash());
        let h = lock.hash();
        let mine = self.lock_script_hash.values;
        let r = mine[0] == h.values[0] && mine[1] == h.values[1] && mine[2] == h.values[2]
            && mine[3] == h.values[3] && mine[4] == h.values[4];
        assert(r == (self.lock_script_hash@ =~= h@));
        r
    }

    /// The coins of this UTXO.
    pub fn coins(&self) -> (r: &[Coin])
        ensures
            r@ == self.coins@,
    {
        self.coins.as_slice()
    }

    /// The hash of the lock script that guards this UTXO.
    pub fn lock_script_hash(&self) -> (r: Digest)
        ensures
            r == self.lock_script_hash,
    {
        self.lock_script_hash
    }

    /// A copy of this UTXO.
    pub fn copy(&self) -> (r: Utxo)
        ensures
            r@ == self@,
            self.wf() ==> r.wf(),
    {
        let mut coins: Vec<Coin> = Vec::new();
        let mut i: usize = 0;
        while i < self.coins.len()
            invariant
                0 <= i <= self.coins@.len(),
                coins@.len() == i,
                forall|k: int| 0 <= k < i ==> (#[trigger] coins@[k])@ == self.coins@[k]@,
                self.wf() ==> forall|k: int| 0 <= k < i ==> (#[trigger] coins@[k]).wf(),
            decreases self.coins.len() - i,
        {
            coins.push(self.coins[i].copy());
            i = i + 1;
        }
        let r = Utxo { lock_script_hash: self.lock_script_hash, coins };
        assert(r@.1 =~= self@.1);
        r
    }
}

/// The secrets that let a receiver claim a UTXO: the UTXO itself and the
/// sender randomness. Never transmitted in the clear.
#[derive(Clone, Debug, PartialEq, Eq)]
pub struct UtxoNotificationPayload {
    pub utxo: Utxo,
    pub sender_randomness: Digest,
}

impl View for UtxoNotificationPayload {
    type V = PayloadView;

    open spec fn view(&self) -> PayloadView {
        (self.utxo@, self.sender_randomness@)
    }
}

impl UtxoNotificationPayload {
    pub open spec fn wf(&self) -> bool {
        self.utxo.wf() && self.sender_randomness.wf()
    }

    pub fn new(utxo: Utxo, sender_randomness: Digest) -> (r: UtxoNotificationPayload)
        ensures
            r.utxo == utxo,
            r.sender_randomness == sender_randomness,
    {
        UtxoNotificationPayload { utxo, sender_randomness }
    }
}

/// What a wallet keeps of a UTXO that it found addressed to one of its keys:
/// enough to prove later that it may spend it.
#[derive(Clone, Debug, PartialEq, Eq)]
pub struct IncomingUtxo {
    pub utxo: Utxo,
    pub sender_randomness: Digest,
    pub receiver_preimage: Digest,
}

impl IncomingUtxo {
    /// The incoming UTXO for a decrypted payload and the receiving key's
    /// privacy preimage.
    pub fn from_utxo_notification_payload(
        payload: UtxoNotificationPayload,
        receiver_preimage: Digest,
    ) -> (r: IncomingUtxo)
        ensures
            r.utxo == payload.utxo,
            r.sender_randomness == payload.sender_randomness,
            r.receiver_preimage == receiver_preimage,
    {
        IncomingUtxo {
            utxo: payload.utxo,
            sender_randomness: payload.sender_randomness,
            receiver_preimage,
        }
    }
}

/// The field-element layout of a coin: its hash, its state's length, its state.
pub open spec fn coin_fes(c: CoinView) -> Seq<u64> {
    c.0 + seq![c.1.len() as u64] + c.1
}

/// The field-element layouts of coins, one after another.
pub open spec fn coins_fes(cs: Seq<CoinView>) -> Seq<u64>
    decreases cs.len(),
{
    if cs.len() == 0 {
        seq![]
    } else {
        coins_fes(cs.drop_last()) + coin_fes(cs.last())
    }
}

/// The field-element layout of a UTXO: its lock-script hash, its number of
/// coins, its coins.
pub open spec fn utxo_fes(u: UtxoView) -> Seq<u64> {
    u.0 + seq![u.1.len() as u64] + coins_fes(u.1)
}

/// The field-element layout of a payload: its UTXO, then the sender randomness.
pub open spec fn payload_fes(p: PayloadView) -> Seq<u64> {
    utxo_fes(p.0) + p.1
}

/// The coin that starts at `pos` in `s`, and the position after it.
pub open spec fn parse_coin(s: Seq<u64>, pos: int) -> Option<(CoinView, int)> {
    if 0 <= pos && pos + 6 <= s.len() && pos + 6 + s[pos + 5] <= s.len() {
        let end = pos + 6 + s[pos + 5];
        Some(((s.subrange(pos, pos + 5), s.subrange(pos + 6, end)), end))
    } else {
        None
    }
}

/// The `n` coins that start at `pos` in `s`, and the position after them.
pub open spec fn parse_coins(s: Seq<u64>, pos: int, n: nat) -> Option<(Seq<CoinView>, int)>
    decreases n,
{
    if n == 0 {
        Some((seq![], pos))
    } else {
        match parse_coins(s, pos, (n - 1) as nat) {
            Some((cs, p)) => match parse_coin(s, p) {
                Some((c, q)) => Some((cs.push(c), q)),
                None => None,
            },
            None => None,
        }
    }
}

/// The payload that `s` lays out, if it lays out one with nothing left over.
pub open spec fn parse_payload(s: Seq<u64>) -> Option<PayloadView> {
    if s.len() >= 6 {
        match parse_coins(s, 6, s[5] as nat) {
            Some((cs, q)) => if q + 5 == s.len() {
                Some(((s.subrange(0, 5), cs), s.subrange(q, q + 5)))
            } else {
                None
            },
            None => None,
        }
    } else {
        None
    }
}

/// A payload view that values of this library can hold.
pub open spec fn payload_view_wf(p: PayloadView) -> bool {
    &&& p.0.0.len() == 5
    &&& p.1.len() == 5
    &&& p.0.1.len() <= MAX
    &&& forall|i: int|
        0 <= i < p.0.1.len() ==> (#[trigger] p.0.1[i]).0.len() == 5 && p.0.1[i].1.len() <= MAX
}

/// Every value that a payload view holds is below the modulus.
pub open spec fn payload_view_canonical(p: PayloadView) -> bool {
    &&& all_canonical(p.0.0)
    &&& all_canonical(p.1)
    &&& forall|i: int|
        0 <= i < p.0.1.len() ==> all_canonical((#[trigger] p.0.1[i]).0) && all_canonical(p.0.1[i].1)
}

proof fn lemma_coins_fes_canonical(cs: Seq<CoinView>)
    requires
        forall|i: int|
            0 <= i < cs.len() ==> all_canonical((#[trigger] cs[i]).0) && all_canonical(cs[i].1)
                && cs[i].1.len() <= MAX,
    ensures
        all_canonical(coins_fes(cs)),
    decreases cs.len(),
{
    if cs.len() > 0 {
        let init = cs.drop_last();
        assert(forall|i: int| 0 <= i < init.len() ==> #[trigger] init[i] == cs[i]);
        lemma_coins_fes_canonical(init);
        let c = cs.last();
        assert(cs[cs.len() - 1] == c);
        let e = coin_fes(c);
        assert forall|k: int| 0 <= k < e.len() implies #[trigger] e[k] < crate::field::P by {
            if k < c.0.len() {
                assert(e[k] == c.0[k]);
            } else if k == c.0.len() {
            } else {
                assert(e[k] == c.1[k - c.0.len() - 1]);
            }
        }
        let a = coins_fes(init);
        assert forall|k: int| 0 <= k < coins_fes(cs).len() implies #[trigger] coins_fes(cs)[k] < crate::field::P by {
            if k < a.len() {
                assert(coins_fes(cs)[k] == a[k]);
            } else {
                assert(coins_fes(cs)[k] == e[k - a.len()]);
            }
        }
    }
}

/// The layout of a payload whose values are canonical holds canonical
/// values only.
pub proof fn lemma_payload_fes_canonical(p: PayloadView)
    requires
        payload_view_wf(p),
        payload_view_canonical(p),
    ensures
        all_canonical(payload_fes(p)),
{
    lemma_coins_fes_canonical(p.0.1);
    let s = payload_fes(p);
    let cf = coins_fes(p.0.1);
    assert(s == p.0.0 + seq![p.0.1.len() as u64] + cf + p.1);
    assert forall|k: int| 0 <= k < s.len() implies #[trigger] s[k] < crate::field::P by {
        if k < 5 {
            assert(s[k] == p.0.0[k]);
        } else if k == 5 {
        } else if k < 6 + cf.len() {
            assert(s[k] == cf[k - 6]);
        } else {
            assert(s[k] == p.1[k - 6 - cf.len()]);
        }
    }
}

proof fn lemma_coins_none_grows(s: Seq<u64>, pos: int, i: nat, n: nat)
    requires
        i <= n,
        parse_coins(s, pos, i) is None,
    ensures
        parse_coins(s, pos, n) is None,
    decreases n - i,
{
    if i < n {
        lemma_coins_none_grows(s, pos, i, (n - 1) as nat);
    }
}

proof fn lemma_parse_coin_round_trip(s: Seq<u64>, pos: int, c: CoinView)
    requires
        0 <= pos,
        c.0.len() == 5,
        c.1.len() <= MAX,
        pos + coin_fes(c).len() <= s.len(),
        s.subrange(pos, pos + coin_fes(c).len()) == coin_fes(c),
    ensures
        parse_coin(s, pos) == Some((c, pos + coin_fes(c).len())),
{
    let e = coin_fes(c);
    assert(s[pos + 5] == e[5]);
    assert(e[5] == c.1.len());
    assert(s.subrange(pos, pos + 5) =~= c.0) by {
        assert forall|k: int| 0 <= k < 5 implies s[pos + k] == e[k] by {
            assert(s.subrange(pos, pos + e.len())[k] == e[k]);
        }
    }
    assert(s.subrange(pos + 6, pos + 6 + c.1.len()) =~= c.1) by {
        assert forall|k: int| 0 <= k < c.1.len() implies s[pos + 6 + k] == c.1[k] by {
            assert(s.subrange(pos, pos + e.len())[6 + k] == e[6 + k]);
        }
    }
}

proof fn lemma_parse_coins_round_trip(s: Seq<u64>, pos: int, cs: Seq<CoinView>)
    requires
        0 <= pos,
        forall|i: int| 0 <= i < cs.len() ==> (#[trigger] cs[i]).0.len() == 5 && cs[i].1.len() <= MAX,
        pos + coins_fes(cs).len() <= s.len(),
        s.subrange(pos, pos + coins_fes(cs).len()) == coins_fes(cs),
    ensures
        parse_coins(s, pos, cs.len()) == Some((cs, pos + coins_fes(cs).len())),
    decreases cs.len(),
{
    if cs.len() > 0 {
        let init = cs.drop_last();
        let last = cs.last();
        let a = coins_fes(init);
        let b = coin_fes(last);
        assert(coins_fes(cs) == a + b);
        assert(s.subrange(pos, pos + a.len()) =~= a) by {
            assert forall|k: int| 0 <= k < a.len() implies s[pos + k] == a[k] by {
                assert(s.subrange(pos, pos + coins_fes(cs).len())[k] == (a + b)[k]);
            }
        }
        assert(forall|i: int| 0 <= i < init.len() ==> #[trigger] init[i] == cs[i]);
        lemma_parse_coins_round_trip(s, pos, init);
        assert(s.subrange(pos + a.len(), pos + a.len() + b.len()) =~= b) by {
            assert forall|k: int| 0 <= k < b.len() implies s[pos + a.len() + k] == b[k] by {
                assert(s.subrange(pos, pos + coins_fes(cs).len())[a.len() + k] == (a + b)[a.len()
                    + k]);
            }
        }
        assert(cs[cs.len() - 1] == last);
        lemma_parse_coin_round_trip(s, pos + a.len(), last);
        assert(init.push(last) =~= cs);
    }
}

/// Reading the field-element layout of a payload gives the payload back.
pub proof fn lemma_payload_round_trip(p: PayloadView)
    requires
        payload_view_wf(p),
    ensures
        parse_payload(payload_fes(p)) == Some(p),
{
    let s = payload_fes(p);
    let u = p.0;
    let cf = coins_fes(u.1);
    let m = cf.len() as int;
    assert(s == u.0 + seq![u.1.len() as u64] + cf + p.1);
    assert(s[5] == u.1.len());
    assert(s.subrange(6, 6 + m) =~= cf) by {
        assert forall|k: int| 0 <= k < cf.len() implies s[6 + k] == cf[k] by {}
    }
    lemma_parse_coins_round_trip(s, 6, u.1);
    assert(s.subrange(0, 5) =~= u.0);
    assert(s.subrange(6 + m, 6 + m + 5) =~= p.1);
}

/// Appends the five elements of a digest.
fn push_digest(out: &mut Vec<FieldElement>, d: &Digest)
    ensures
        vals(final(out)@) == vals(old(out)@) + d@,
        all_wf(old(out)@) && d.wf() ==> all_wf(final(out)@),
{
    let ghost before = out@;
    let mut i: usize = 0;
    while i < 5
        invariant
            0 <= i <= 5,
            out@.len() == before.len() + i,
            forall|k: int| 0 <= k < before.len() ==> #[trigger] out@[k] == before[k],
            forall|k: int| 0 <= k < i ==> #[trigger] out@[before.len() + k].value == d@[k],
            all_wf(before) && d.wf() ==> all_wf(out@),
        decreases 5 - i,
    {
        let x = d.values[i];
        assert(x == d@[i as int]);
        out.push(FieldElement { value: x });
        i = i + 1;
    }
    assert forall|k: int| 0 <= k < out@.len() implies #[trigger] vals(out@)[k] == (vals(before)
        + d@)[k] by {
        if k >= before.len() {
            assert(out@[before.len() + (k - before.len())].value == d@[k - before.len()]);
        }
    }
    assert(vals(out@) =~= vals(before) + d@);
}

/// Appends a sequence of field elements.
fn push_all(out: &mut Vec<FieldElement>, v: &Vec<FieldElement>)
    ensures
        final(out)@ == old(out)@ + v@,
{
    let ghost before = out@;
    let mut i: usize = 0;
    while i < v.len()
        invariant
            0 <= i <= v@.len(),
            out@ == before + v@.take(i as int),
        decreases v.len() - i,
    {
        out.push(v[i]);
        assert(out@ =~= before + v@.take(i + 1));
        i = i + 1;
    }
    assert(v@.take(v@.len() as int) =~= v@);
}

/// The field-element layout of a payload.
pub fn payload_to_fes(p: &UtxoNotificationPayload) -> (r: Vec<FieldElement>)
    requires
        p.wf(),
    ensures
        vals(r@) == payload_fes(p@),
        all_wf(r@),
{
    let mut out: Vec<FieldElement> = Vec::new();
    push_digest(&mut out, &p.utxo.lock_script_hash);
    let n = p.utxo.coins.len();
    out.push(FieldElement { value: n as u64 });
    assert(vals(out@) =~= p.utxo.lock_script_hash@ + seq![n as u64]);
    let ghost head = vals(out@);
    let mut i: usize = 0;
    while i < n
        invariant
            p.wf(),
            n == p.utxo.coins@.len(),
            0 <= i <= n,
            head == p.utxo.lock_script_hash@ + seq![n as u64],
            vals(out@) == head + coins_fes(coin_views(p.utxo.coins@).take(i as int)),
            all_wf(out@),
        decreases n - i,
    {
        let coin = &p.utxo.coins[i];
        assert(coin.wf());
        let ghost before = vals(out@);
        push_digest(&mut out, &coin.type_script_hash);
        let ghost o1 = out@;
        out.push(FieldElement { value: coin.state.len() as u64 });
        assert(vals(out@) =~= vals(o1) + seq![coin.state@.len() as u64]);
        let ghost o2 = out@;
        push_all(&mut out, &coin.state);
        assert(vals(out@) =~= vals(o2) + vals(coin.state@));
        assert(all_wf(out@)) by {
            assert forall|k: int| 0 <= k < out@.len() implies #[trigger] out@[k].wf() by {
                if k >= o2.len() {
                    assert(out@[k] == coin.state@[k - o2.len()]);
                } else {
                    assert(out@[k] == o2[k]);
                }
            }
        }
        proof {
            let cvs = coin_views(p.utxo.coins@);
            assert(cvs.take(i + 1).drop_last() =~= cvs.take(i as int));
            assert(cvs.take(i + 1).last() == coin@);
            assert(vals(out@) =~= before + coin_fes(coin@));
        }
        i = i + 1;
    }
    assert(coin_views(p.utxo.coins@).take(n as int) =~= p.utxo@.1);
    push_digest(&mut out, &p.sender_randomness);
    assert(vals(out@) =~= payload_fes(p@));
    out
}

/// The elements `s[from..from + len]`, copied.
fn copy_range(s: &[FieldElement], from: usize, len: usize) -> (r: Vec<FieldElement>)
    requires
        from + len <= s@.len(),
    ensures
        r@ == s@.subrange(from as int, from + len),
{
    let mut r: Vec<FieldElement> = Vec::new();
    let slen = s.len();
    let mut i: usize = 0;
    while i < len
        invariant
            slen == s@.len(),
            from + len <= s@.len(),
            0 <= i <= len,
            r@ == s@.subrange(from as int, from + i),
        decreases len - i,
    {
        assert(from + i < s@.len());
        r.push(s[from + i]);
        assert(r@ =~= s@.subrange(from as int, from + i + 1));
        i = i + 1;
    }
    r
}

/// The digest whose elements are `s[from..from + 5]`.
fn digest_at(s: &[FieldElement], from: usize) -> (r: Digest)
    requires
        from + 5 <= s@.len(),
    ensures
        r@ == vals(s@).subrange(from as int, from + 5),
        all_wf(s@) ==> r.wf(),
{
    let r = Digest {
        values: [
            s[from].value,
            s[from + 1].value,
            s[from + 2].value,
            s[from + 3].value,
            s[from + 4].value,
        ],
    };
    assert(r@ =~= vals(s@).subrange(from as int, from + 5));
    proof {
        if all_wf(s@) {
            assert(s@[from as int].wf() && s@[from + 1].wf() && s@[from + 2].wf() && s@[from
                + 3].wf() && s@[from + 4].wf());
        }
    }
    r
}

/// The payload that a sequence of field elements lays out; `None` where it
/// lays out none.
pub fn payload_from_fes(s: &[FieldElement]) -> (r: Option<UtxoNotificationPayload>)
    requires
        all_wf(s@),
    ensures
        r matches Some(p) ==> parse_payload(vals(s@)) == Some(p@) && p.wf(),
        r is None ==> parse_payload(vals(s@)) is None,
{
    let ghost sv = vals(s@);
    if s.len() < 6 {
        return None;
    }
    let lock_script_hash = digest_at(s, 0);
    let n = s[5].value;
    assert(sv[5] == n);
    assert(s@[5].wf());
    let mut coins: Vec<Coin> = Vec::new();
    let mut pos: usize = 6;
    assert(coin_views(coins@) =~= seq![]);
    let mut i: u64 = 0;
    while i < n
        invariant
            sv == vals(s@),
            all_wf(s@),
            n == sv[5],
            n <= MAX,
            0 <= i <= n,
            6 <= pos <= s@.len(),
            coins@.len() == i,
            forall|k: int| 0 <= k < i ==> (#[trigger] coins@[k]).wf(),
            parse_coins(sv, 6, i as nat) == Some((coin_views(coins@), pos as int)),
        decreases n - i,
    {
        if s.len() - pos < 6 {
            proof {
                lemma_coins_none_grows(sv, 6, (i + 1) as nat, n as nat);
            }
            return None;
        }
        let len = s[pos + 5].value;
        assert(sv[pos + 5] == len);
        assert(s@[pos + 5].wf());
        if len > (s.len() - pos - 6) as u64 {
            proof {
                lemma_coins_none_grows(sv, 6, (i + 1) as nat, n as nat);
            }
            return None;
        }
        let type_script_hash = digest_at(s, pos);
        let state = copy_range(s, pos + 6, len as usize);
        let coin = Coin { type_script_hash, state };
        proof {
            assert(vals(state@) =~= sv.subrange(pos + 6, pos + 6 + len));
            assert(all_wf(state@)) by {
                assert forall|k: int| 0 <= k < state@.len() implies #[trigger] state@[k].wf() by {
                    assert(state@[k] == s@[pos + 6 + k]);
                }
            }
            assert(coin_views(coins@.push(coin)) =~= coin_views(coins@).push(coin@));
            assert(parse_coin(sv, pos as int) == Some((coin@, pos + 6 + len)));
        }
        coins.push(coin);
        pos = pos + 6 + len as usize;
        i = i + 1;
    }
    if s.len() - pos != 5 {
        return None;
    }
    let sender_randomness = digest_at(s, pos);
    let utxo = Utxo { lock_script_hash, coins };
    assert(utxo@.1 == coin_views(coins@));
    Some(UtxoNotificationPayload { utxo, sender_randomness })
}

} // verus!
