//! Amounts of the native currency, and the coins that hold them.
use crate::field::Digest;
use crate::field::FieldElement;
use crate::field::vals;
use crate::lock_script::program_hash;
use crate::lock_script::LockScript;
use crate::utxo::coin_views;
use crate::utxo::Coin;
use crate::utxo::Utxo;
use vstd::prelude::*;

verus! {

/// The number of atomic units in one coin.
pub const NAU_PER_COIN: i128 = 250_000_000_000_000_000_000_000_000_000;

/// The most coins that will ever exist.
pub const MAX_COINS: u32 = 42_000_000;

/// An amount of the native currency, in atomic units; negative amounts
/// occur as balance changes.
#[derive(Clone, Copy, Debug, PartialEq, Eq)]
pub struct NativeCurrencyAmount {
    pub nau: i128,
}

/// The `i`-th 32-bit limb of `v`, least significant first.
pub open spec fn limb(v: u128, i: int) -> u64 {
    ((v >> ((32 * i) as u128)) & 0xffff_ffff) as u64
}

/// The field-element encoding of an amount: the four 32-bit limbs of its
/// two's-complement bits, least significant first.
pub open spec fn amount_fes(nau: i128) -> Seq<u64> {
    seq![limb(nau as u128, 0), limb(nau as u128, 1), limb(nau as u128, 2), limb(nau as u128, 3)]
}

impl NativeCurrencyAmount {
    /// The amount of `n` whole coins.
    pub fn coins(n: u32) -> (r: NativeCurrencyAmount)
        requires
            n <= MAX_COINS,
        ensures
            r.nau == n * NAU_PER_COIN,
    {
        assert(n * NAU_PER_COIN <= 42_000_000 * NAU_PER_COIN) by (nonlinear_arith)
            requires
                n <= 42_000_000,
        ;
        NativeCurrencyAmount { nau: (n as i128) * NAU_PER_COIN }
    }

    /// The field-element encoding of the amount.
    pub fn encode(&self) -> (r: Vec<FieldElement>)
        ensures
            vals(r@) == amount_fes(self.nau),
            forall|i: int| 0 <= i < r@.len() ==> #[trigger] r@[i].value <= u32::MAX,
    {
        let v = self.nau as u128;
        let l0 = (v & 0xffff_ffff) as u64;
        let l1 = ((v >> 32u128) & 0xffff_ffff) as u64;
        let l2 = ((v >> 64u128) & 0xffff_ffff) as u64;
        let l3 = ((v >> 96u128) & 0xffff_ffff) as u64;
        assert(l0 <= u32::MAX && l1 <= u32::MAX && l2 <= u32::MAX && l3 <= u32::MAX) by (bit_vector)
            requires
                l0 == (v & 0xffff_ffff) as u64,
                l1 == ((v >> 32u128) & 0xffff_ffff) as u64,
                l2 == ((v >> 64u128) & 0xffff_ffff) as u64,
                l3 == ((v >> 96u128) & 0xffff_ffff) as u64,
        ;
        let r = vec![
            FieldElement { value: l0 },
            FieldElement { value: l1 },
            FieldElement { value: l2 },
            FieldElement { value: l3 },
        ];
        assert(v >> 0u128 == v) by (bit_vector);
        assert(vals(r@) =~= amount_fes(self.nau));
        r
    }

    /// The amount that four 32-bit limbs encode; `None` where there are not
    /// four or one does not fit in 32 bits.
    pub fn decode(s: &[FieldElement]) -> (r: Option<NativeCurrencyAmount>)
        ensures
            r is Some <==> (s@.len() == 4 && forall|i: int| 0 <= i < 4 ==> #[trigger] s@[i].value
                <= u32::MAX),
            r matches Some(a) ==> amount_fes(a.nau) == vals(s@),
    {
        if s.len() != 4 || s[0].value > 0xffff_ffff || s[1].value > 0xffff_ffff || s[2].value
            > 0xffff_ffff || s[3].value > 0xffff_ffff {
            return None;
        }
        let a0 = s[0].value as u128;
        let a1 = s[1].value as u128;
        let a2 = s[2].value as u128;
        let a3 = s[3].value as u128;
        let v: u128 = a0 | (a1 << 32u128) | (a2 << 64u128) | (a3 << 96u128);
        let nau = v as i128;
        proof {
            assert((v as i128) as u128 == v) by (bit_vector);
            assert((v & 0xffff_ffff) as u64 == a0 as u64 && ((v >> 32u128) & 0xffff_ffff) as u64
                == a1 as u64 && ((v >> 64u128) & 0xffff_ffff) as u64 == a2 as u64 && ((v >> 96u128)
                & 0xffff_ffff) as u64 == a3 as u64) by (bit_vector)
                requires
                    a0 <= 0xffff_ffff,
                    a1 <= 0xffff_ffff,
                    a2 <= 0xffff_ffff,
                    a3 <= 0xffff_ffff,
                    v == a0 | (a1 << 32u128) | (a2 << 64u128) | (a3 << 96u128),
            ;
            assert(v >> 0u128 == v) by (bit_vector);
            assert(amount_fes(nau) =~= vals(s@));
        }
        Some(NativeCurrencyAmount { nau })
    }
}

impl Coin {
    /// A coin of the native currency worth `amount`, under the native
    /// currency's type script, whose hash is `native_currency_hash`.
    pub fn new_native_currency(native_currency_hash: Digest, amount: NativeCurrencyAmount) -> (r: Coin)
        ensures
            r@ == (native_currency_hash@, amount_fes(amount.nau)),
            native_currency_hash.wf() ==> r.wf(),
    {
        let state = amount.encode();
        proof {
            assert(state@.len() == vals(state@).len());
            assert forall|i: int| 0 <= i < state@.len() implies #[trigger] state@[i].wf() by {
                assert(state@[i].value <= u32::MAX);
            }
        }
        Coin { type_script_hash: native_currency_hash, state }
    }
}

impl Utxo {
    /// A UTXO guarded by `lock_script` that holds one native-currency coin
    /// worth `amount`.
    pub fn new_native_currency(
        lock_script: &LockScript,
        native_currency_hash: Digest,
        amount: NativeCurrencyAmount,
    ) -> (r: Utxo)
        requires
            lock_script.wf(),
        ensures
            r@ == (program_hash(lock_script.program@), seq![(native_currency_hash@, amount_fes(amount.nau))]),
    {
        let coin = Coin::new_native_currency(native_currency_hash, amount);
        let coins = vec![coin];
        let r = Utxo::new(lock_script, coins);
        assert(coin_views(coins@) =~= seq![coin@]);
        r
    }
}

} // verus!
