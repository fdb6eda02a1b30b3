//! Conversions between bytes and base-field elements.
//!
//! Two layouts are used. A *word* layout writes each element as its eight
//! little-endian bytes; it carries structured plaintext. A *packed* layout
//! stores arbitrary bytes in field elements, seven bytes to an element after a
//! leading element that holds the byte count; it carries ciphertext.
use crate::field::all_canonical;
use crate::field::all_wf;
use crate::field::vals;
use crate::field::FieldElement;
use crate::field::MAX;
use crate::field::P;
use vstd::prelude::*;

verus! {

/// One more than the largest value that seven bytes can hold.
pub const PACKED_LIMIT: u64 = 0x0100_0000_0000_0000;

/// The eight little-endian bytes of `v`.
pub open spec fn u64_le(v: u64) -> Seq<u8> {
    seq![
        (v & 0xff) as u8,
        ((v >> 8u64) & 0xff) as u8,
        ((v >> 16u64) & 0xff) as u8,
        ((v >> 24u64) & 0xff) as u8,
        ((v >> 32u64) & 0xff) as u8,
        ((v >> 40u64) & 0xff) as u8,
        ((v >> 48u64) & 0xff) as u8,
        ((v >> 56u64) & 0xff) as u8,
    ]
}

/// The value of eight little-endian bytes.
pub open spec fn le8(b0: u8, b1: u8, b2: u8, b3: u8, b4: u8, b5: u8, b6: u8, b7: u8) -> u64 {
    (b0 as u64) | ((b1 as u64) << 8u64) | ((b2 as u64) << 16u64) | ((b3 as u64) << 24u64) | ((
    b4 as u64) << 32u64) | ((b5 as u64) << 40u64) | ((b6 as u64) << 48u64) | ((b7 as u64)
        << 56u64)
}

/// The word layout of a sequence of values.
pub open spec fn words_to_bytes(s: Seq<u64>) -> Seq<u8> {
    Seq::new(8 * s.len(), |i: int| u64_le(s[i / 8])[i % 8])
}

/// The values that a byte string holds in the word layout; trailing bytes
/// that do not fill a word are ignored.
pub open spec fn bytes_to_words(b: Seq<u8>) -> Seq<u64> {
    Seq::new(
        b.len() / 8,
        |j: int|
            le8(
                b[8 * j],
                b[8 * j + 1],
                b[8 * j + 2],
                b[8 * j + 3],
                b[8 * j + 4],
                b[8 * j + 5],
                b[8 * j + 6],
                b[8 * j + 7],
            ),
    )
}

/// `b` is a word-layout byte string of canonical field elements.
pub open spec fn is_word_encoding(b: Seq<u8>) -> bool {
    b.len() % 8 == 0 && all_canonical(bytes_to_words(b))
}

/// The `i`-th byte of `b`, or zero past its end.
pub open spec fn padded_byte(b: Seq<u8>, i: int) -> u8 {
    if 0 <= i < b.len() {
        b[i]
    } else {
        0
    }
}

/// The number of seven-byte chunks that hold `n` bytes.
pub open spec fn chunk_count(n: int) -> int {
    (n + 6) / 7
}

/// The `j`-th seven-byte chunk of `b` as a value, zero-padded past the end.
pub open spec fn chunk_value(b: Seq<u8>, j: int) -> u64 {
    le8(
        padded_byte(b, 7 * j),
        padded_byte(b, 7 * j + 1),
        padded_byte(b, 7 * j + 2),
        padded_byte(b, 7 * j + 3),
        padded_byte(b, 7 * j + 4),
        padded_byte(b, 7 * j + 5),
        padded_byte(b, 7 * j + 6),
        0,
    )
}

/// The packed layout of `b`: its length, then its seven-byte chunks.
pub open spec fn pack_bytes(b: Seq<u8>) -> Seq<u64> {
    seq![b.len() as u64] + Seq::new(chunk_count(b.len() as int) as nat, |j: int| chunk_value(b, j))
}

/// The bytes that a packed sequence holds, or `None` where it is not one:
/// it is empty, its element count does not match its leading byte count, or
/// an element holds more than seven bytes.
pub open spec fn unpack_bytes(s: Seq<u64>) -> Option<Seq<u8>> {
    if s.len() >= 1 && s.len() - 1 == chunk_count(s[0] as int) && (forall|j: int|
        1 <= j < s.len() ==> #[trigger] s[j] < PACKED_LIMIT) {
        Some(Seq::new(s[0] as nat, |i: int| u64_le(s[1 + i / 7])[i % 7]))
    } else {
        None
    }
}

proof fn lemma_div_by(d: int, j: int, t: int)
    requires
        d > 0,
        0 <= t < d,
    ensures
        (d * j + t) / d == j,
        (d * j + t) % d == t,
{
    assert(d * j == j * d) by (nonlinear_arith);
    vstd::arithmetic::div_mod::lemma_fundamental_div_mod_converse(d * j + t, d, j, t);
}

proof fn lemma_le8_of_bytes(v: u64)
    ensures
        le8(
            u64_le(v)[0],
            u64_le(v)[1],
            u64_le(v)[2],
            u64_le(v)[3],
            u64_le(v)[4],
            u64_le(v)[5],
            u64_le(v)[6],
            u64_le(v)[7],
        ) == v,
{
    assert((v & 0xff) as u8 as u64 | ((((v >> 8u64) & 0xff) as u8 as u64) << 8u64) | ((((v
        >> 16u64) & 0xff) as u8 as u64) << 16u64) | ((((v >> 24u64) & 0xff) as u8 as u64)
        << 24u64) | ((((v >> 32u64) & 0xff) as u8 as u64) << 32u64) | ((((v >> 40u64) & 0xff)
        as u8 as u64) << 40u64) | ((((v >> 48u64) & 0xff) as u8 as u64) << 48u64) | ((((v
        >> 56u64) & 0xff) as u8 as u64) << 56u64) == v) by (bit_vector);
}

proof fn lemma_bytes_of_le8(b0: u8, b1: u8, b2: u8, b3: u8, b4: u8, b5: u8, b6: u8, b7: u8)
    ensures
        u64_le(le8(b0, b1, b2, b3, b4, b5, b6, b7)) == seq![b0, b1, b2, b3, b4, b5, b6, b7],
        b7 == 0 ==> le8(b0, b1, b2, b3, b4, b5, b6, b7) < PACKED_LIMIT,
{
    let v = le8(b0, b1, b2, b3, b4, b5, b6, b7);
    assert(v == (b0 as u64) | ((b1 as u64) << 8u64) | ((b2 as u64) << 16u64) | ((b3 as u64)
        << 24u64) | ((b4 as u64) << 32u64) | ((b5 as u64) << 40u64) | ((b6 as u64) << 48u64) | ((
    b7 as u64) << 56u64));
    assert((v & 0xff) as u8 == b0 && ((v >> 8u64) & 0xff) as u8 == b1 && ((v >> 16u64) & 0xff)
        as u8 == b2 && ((v >> 24u64) & 0xff) as u8 == b3 && ((v >> 32u64) & 0xff) as u8 == b4
        && ((v >> 40u64) & 0xff) as u8 == b5 && ((v >> 48u64) & 0xff) as u8 == b6 && ((v
        >> 56u64) & 0xff) as u8 == b7 && (b7 == 0 ==> v < 0x0100_0000_0000_0000u64))
        by (bit_vector)
        requires
            v == (b0 as u64) | ((b1 as u64) << 8u64) | ((b2 as u64) << 16u64) | ((b3 as u64)
                << 24u64) | ((b4 as u64) << 32u64) | ((b5 as u64) << 40u64) | ((b6 as u64)
                << 48u64) | ((b7 as u64) << 56u64),
    ;
    assert(u64_le(v) =~= seq![b0, b1, b2, b3, b4, b5, b6, b7]);
}

/// Reading the word layout of `s` gives `s` back.
pub proof fn lemma_words_round_trip(s: Seq<u64>)
    ensures
        words_to_bytes(s).len() == 8 * s.len(),
        bytes_to_words(words_to_bytes(s)) == s,
{
    let b = words_to_bytes(s);
    assert forall|j: int| 0 <= j < s.len() implies #[trigger] bytes_to_words(b)[j] == s[j] by {
        assert forall|t: int| 0 <= t < 8 implies #[trigger] b[8 * j + t] == u64_le(s[j])[t] by {
            lemma_div_by(8, j, t);
        }
        lemma_le8_of_bytes(s[j]);
        assert(b[8 * j] == u64_le(s[j])[0]);
        assert(b[8 * j + 1] == u64_le(s[j])[1]);
        assert(b[8 * j + 2] == u64_le(s[j])[2]);
        assert(b[8 * j + 3] == u64_le(s[j])[3]);
        assert(b[8 * j + 4] == u64_le(s[j])[4]);
        assert(b[8 * j + 5] == u64_le(s[j])[5]);
        assert(b[8 * j + 6] == u64_le(s[j])[6]);
        assert(b[8 * j + 7] == u64_le(s[j])[7]);
    }
    assert(bytes_to_words(b) =~= s);
}

/// Unpacking the packed layout of `b` gives `b` back.
pub proof fn lemma_pack_round_trip(b: Seq<u8>)
    requires
        b.len() <= MAX,
    ensures
        unpack_bytes(pack_bytes(b)) == Some(b),
{
    let s = pack_bytes(b);
    assert(s[0] == b.len() as u64);
    assert forall|j: int| 1 <= j < s.len() implies #[trigger] s[j] < PACKED_LIMIT by {
        assert(s[j] == chunk_value(b, j - 1));
        lemma_bytes_of_le8(
            padded_byte(b, 7 * (j - 1)),
            padded_byte(b, 7 * (j - 1) + 1),
            padded_byte(b, 7 * (j - 1) + 2),
            padded_byte(b, 7 * (j - 1) + 3),
            padded_byte(b, 7 * (j - 1) + 4),
            padded_byte(b, 7 * (j - 1) + 5),
            padded_byte(b, 7 * (j - 1) + 6),
            0,
        );
    }
    let r = Seq::new(s[0] as nat, |i: int| u64_le(s[1 + i / 7])[i % 7]);
    assert forall|i: int| 0 <= i < b.len() implies #[trigger] r[i] == b[i] by {
        let j = i / 7;
        let t = i % 7;
        assert(i == 7 * j + t && 0 <= t < 7);
        assert(0 <= j < chunk_count(b.len() as int));
        assert(s[1 + j] == chunk_value(b, j));
        lemma_bytes_of_le8(
            padded_byte(b, 7 * j),
            padded_byte(b, 7 * j + 1),
            padded_byte(b, 7 * j + 2),
            padded_byte(b, 7 * j + 3),
            padded_byte(b, 7 * j + 4),
            padded_byte(b, 7 * j + 5),
            padded_byte(b, 7 * j + 6),
            0,
        );
        assert(u64_le(s[1 + j])[t] == padded_byte(b, 7 * j + t));
    }
    assert(r =~= b);
}

/// The word layout of a sequence of field elements.
pub fn encode_words(v: &Vec<FieldElement>) -> (r: Vec<u8>)
    requires
        v@.len() * 8 <= usize::MAX,
    ensures
        r@ == words_to_bytes(vals(v@)),
{
    let mut r: Vec<u8> = Vec::new();
    let mut i: usize = 0;
    while i < v.len()
        invariant
            0 <= i <= v@.len(),
            v@.len() * 8 <= usize::MAX,
            r@ == words_to_bytes(vals(v@.take(i as int))),
        decreases v.len() - i,
    {
        let x = v[i].value;
        push_word(&mut r, x);
        proof {
            let s = vals(v@.take(i + 1));
            assert(vals(v@.take(i as int)) =~= s.take(i as int));
            assert forall|k: int| 0 <= k < 8 * (i + 1) implies #[trigger] r@[k] == words_to_bytes(s)[k] by {
                lemma_div_by(8, k / 8, k % 8);
                if k >= 8 * i {
                    assert(k / 8 == i);
                }
            }
            assert(r@ =~= words_to_bytes(s));
        }
        i = i + 1;
    }
    assert(v@.take(v@.len() as int) =~= v@);
    r
}

/// Appends the eight little-endian bytes of `x`.
fn push_word(r: &mut Vec<u8>, x: u64)
    ensures
        final(r)@ == old(r)@ + u64_le(x),
{
    r.push((x & 0xff) as u8);
    r.push(((x >> 8u64) & 0xff) as u8);
    r.push(((x >> 16u64) & 0xff) as u8);
    r.push(((x >> 24u64) & 0xff) as u8);
    r.push(((x >> 32u64) & 0xff) as u8);
    r.push(((x >> 40u64) & 0xff) as u8);
    r.push(((x >> 48u64) & 0xff) as u8);
    r.push(((x >> 56u64) & 0xff) as u8);
    assert(r@ =~= old(r)@ + u64_le(x));
}

/// Reads a byte string in the word layout back into field elements. Fails
/// where the length is not a multiple of eight or a word is not below the
/// modulus.
pub fn decode_words(b: &[u8]) -> (r: Option<Vec<FieldElement>>)
    ensures
        r is Some <==> is_word_encoding(b@),
        r matches Some(v) ==> vals(v@) == bytes_to_words(b@) && all_wf(v@),
{
    if b.len() % 8 != 0 {
        return None;
    }
    let n = b.len() / 8;
    let mut v: Vec<FieldElement> = Vec::new();
    let mut j: usize = 0;
    while j < n
        invariant
            n == b@.len() / 8,
            b@.len() % 8 == 0,
            0 <= j <= n,
            v@.len() == j,
            forall|k: int| 0 <= k < j ==> #[trigger] v@[k].value == bytes_to_words(b@)[k],
            all_wf(v@),
        decreases n - j,
    {
        assert(8 * j + 8 <= b.len());
        let k = 8 * j;
        let w = (b[k] as u64) | ((b[k + 1] as u64) << 8u64) | ((b[k + 2] as u64) << 16u64) | ((
        b[k + 3] as u64) << 24u64) | ((b[k + 4] as u64) << 32u64) | ((b[k + 5] as u64) << 40u64)
            | ((b[k + 6] as u64) << 48u64) | ((b[k + 7] as u64) << 56u64);
        assert(w == bytes_to_words(b@)[j as int]);
        if w >= P {
            assert(bytes_to_words(b@)[j as int] >= P);
            return None;
        }
        v.push(FieldElement { value: w });
        j = j + 1;
    }
    assert(vals(v@) =~= bytes_to_words(b@));
    assert forall|i: int| 0 <= i < bytes_to_words(b@).len() implies #[trigger] bytes_to_words(
        b@,
    )[i] < P by {
        assert(v@[i].wf());
    }
    Some(v)
}

/// The packed layout of `b`.
pub fn pack(b: &[u8]) -> (r: Vec<FieldElement>)
    requires
        b@.len() <= MAX,
    ensures
        vals(r@) == pack_bytes(b@),
        all_wf(r@),
{
    let n = b.len();
    let count = n / 7 + if n % 7 == 0 { 0 } else { 1 };
    assert(count == chunk_count(n as int));
    assert(7 * count <= n + 6);
    let mut r: Vec<FieldElement> = Vec::new();
    r.push(FieldElement { value: n as u64 });
    let mut j: usize = 0;
    while j < count
        invariant
            n == b@.len(),
            n <= MAX,
            count == chunk_count(n as int),
            7 * count <= n + 6,
            0 <= j <= count,
            r@.len() == j + 1,
            r@[0].value == n as u64,
            forall|k: int| 0 <= k < j ==> #[trigger] r@[k + 1].value == chunk_value(b@, k),
            all_wf(r@),
        decreases count - j,
    {
        assert(7 * j + 7 <= 7 * count) by (nonlinear_arith)
            requires
                j < count,
        ;
        let base = 7 * j;
        let b0 = byte_or_zero(b, base, 0);
        let b1 = byte_or_zero(b, base, 1);
        let b2 = byte_or_zero(b, base, 2);
        let b3 = byte_or_zero(b, base, 3);
        let b4 = byte_or_zero(b, base, 4);
        let b5 = byte_or_zero(b, base, 5);
        let b6 = byte_or_zero(b, base, 6);
        let w = (b0 as u64) | ((b1 as u64) << 8u64) | ((b2 as u64) << 16u64) | ((b3 as u64)
            << 24u64) | ((b4 as u64) << 32u64) | ((b5 as u64) << 40u64) | ((b6 as u64) << 48u64) | ((
        0u8 as u64) << 56u64);
        assert(w == chunk_value(b@, j as int));
        proof {
            lemma_bytes_of_le8(b0, b1, b2, b3, b4, b5, b6, 0);
        }
        r.push(FieldElement { value: w });
        j = j + 1;
    }
    assert forall|k: int| 0 <= k < r@.len() implies #[trigger] vals(r@)[k] == pack_bytes(b@)[k] by {
        if k > 0 {
            assert(r@[(k - 1) + 1].value == chunk_value(b@, k - 1));
        }
    }
    assert(vals(r@) =~= pack_bytes(b@));
    r
}

/// The byte of `b` at `base + t`, or zero past its end.
fn byte_or_zero(b: &[u8], base: usize, t: usize) -> (r: u8)
    ensures
        r == padded_byte(b@, base + t),
{
    if base < b.len() && t < b.len() - base {
        b[base + t]
    } else {
        0
    }
}

/// The bytes that a packed sequence of field elements holds; `None` where it
/// is not one.
pub fn unpack(s: &[FieldElement]) -> (r: Option<Vec<u8>>)
    ensures
        r matches Some(v) ==> unpack_bytes(vals(s@)) == Some(v@),
        r is None ==> unpack_bytes(vals(s@)) is None,
{
    let ghost sv = vals(s@);
    if s.len() == 0 {
        return None;
    }
    let n64 = s[0].value;
    let count = n64 / 7 + if n64 % 7 == 0 { 0 } else { 1 };
    assert(count == chunk_count(n64 as int));
    if count != (s.len() - 1) as u64 {
        return None;
    }
    let mut j: usize = 1;
    while j < s.len()
        invariant
            sv == vals(s@),
            1 <= j <= s@.len(),
            forall|k: int| 1 <= k < j ==> #[trigger] sv[k] < PACKED_LIMIT,
        decreases s.len() - j,
    {
        if s[j].value >= PACKED_LIMIT {
            assert(sv[j as int] >= PACKED_LIMIT);
            return None;
        }
        j = j + 1;
    }
    assert(sv[0] == n64);
    let n = n64;
    let mut out: Vec<u8> = Vec::new();
    let mut i: u64 = 0;
    while i < n
        invariant
            sv == vals(s@),
            n == sv[0],
            sv.len() - 1 == chunk_count(n as int),
            s@.len() == sv.len(),
            0 <= i <= n,
            out@.len() == i,
            forall|k: int| 0 <= k < i ==> #[trigger] out@[k] == u64_le(sv[1 + k / 7])[k % 7],
        decreases n - i,
    {
        let q = (i / 7) as usize;
        assert(q < s.len() - 1);
        let w = s[1 + q].value;
        let t = i % 7;
        let sh: u64 = 8 * t;
        let m = (w >> sh) & 0xff;
        assert(m < 256) by (bit_vector)
            requires
                m == (w >> sh) & 0xff,
        ;
        let byte = m as u8;
        assert(byte == u64_le(w)[t as int]) by {
            assert(t < 7);
            if t == 0 { assert(w >> 0u64 == w) by (bit_vector); }
        }
        out.push(byte);
        i = i + 1;
    }
    proof {
        let want = Seq::new(n as nat, |k: int| u64_le(sv[1 + k / 7])[k % 7]);
        assert(out@ =~= want);
    }
    Some(out)
}

} // verus!
