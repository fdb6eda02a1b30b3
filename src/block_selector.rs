//! Ways of naming a block: by digest, by height, or as the genesis block or
//! the tip. Heights are plain numbers.
use crate::announcement::hex_char;
use crate::announcement::hex_value;
use crate::codec::bytes_to_words;
use crate::codec::words_to_bytes;
use crate::field::all_canonical;
use crate::field::Digest;
use crate::field::P;
use vstd::prelude::*;

verus! {

/// The blocks that have a name of their own.
#[derive(Clone, Copy, Debug, PartialEq, Eq)]
pub enum BlockSelectorLiteral {
    Genesis,
    Tip,
}

/// A way of looking up a block.
#[derive(Clone, Copy, Debug, PartialEq, Eq)]
pub enum BlockSelector {
    Special(BlockSelectorLiteral),
    Digest(Digest),
    Height(u64),
}

/// Why a text names no block.
#[derive(Clone, Debug, PartialEq, Eq)]
pub enum BlockSelectorParseError {
    /// The text, which is neither `genesis`, `tip`, a digest in hex nor a
    /// height.
    InvalidSelector(String),
}

/// The bytes that a run of hexadecimal digit pairs writes, high digit first.
pub open spec fn bytes_of_hex(s: Seq<char>) -> Seq<u8> {
    Seq::new(
        s.len() / 2,
        |j: int| (hex_value(s[2 * j])->0 * 16 + hex_value(s[2 * j + 1])->0) as u8,
    )
}

/// The lowercase hexadecimal text of bytes: two digits per byte, high digit
/// first.
pub open spec fn hex_of_bytes(b: Seq<u8>) -> Seq<char> {
    Seq::new(
        2 * b.len(),
        |i: int|
            hex_char(
                if i % 2 == 0 {
                    (b[i / 2] / 16) as u64
                } else {
                    (b[i / 2] % 16) as u64
                },
            ),
    )
}

/// The digest that a hexadecimal text names: eighty digits of either case,
/// the forty bytes they write read as five little-endian words, each below
/// the modulus.
pub open spec fn digest_from_hex_of(s: Seq<char>) -> Option<Seq<u64>> {
    if s.len() == 80 && (forall|i: int| 0 <= i < 80 ==> (#[trigger] hex_value(s[i])) is Some)
        && all_canonical(bytes_to_words(bytes_of_hex(s))) {
        Some(bytes_to_words(bytes_of_hex(s)))
    } else {
        None
    }
}

/// Relies on `twenty_first::tip5::Digest::try_from_hex`: `hex::decode`, then
/// forty bytes read as five little-endian words, each checked canonical
/// (`BFieldElement::try_from`).
#[verifier::external_body]
fn digest_from_hex(s: &str) -> (r: Option<Digest>)
    ensures
        r is Some <==> digest_from_hex_of(s@) is Some,
        r is Some ==> r->0@ == digest_from_hex_of(s@)->0 && r->0.wf(),
{
    twenty_first::prelude::Digest::try_from_hex(s).ok().map(
        |d| Digest { values: d.values().map(|e| e.value()) },
    )
}

/// The hexadecimal text that the field library writes for a digest: the
/// forty little-endian bytes of its canonical elements, in lowercase hex.
pub open spec fn digest_hex_of(d: Seq<u64>) -> Seq<char> {
    hex_of_bytes(words_to_bytes(Seq::new(5, |i: int| (d[i] % P) as u64)))
}

/// Relies on `twenty_first::tip5::Digest::to_hex`: `hex::encode` of the
/// digest's forty bytes, each element as the little-endian bytes of its
/// canonical representative.
#[verifier::external_body]
fn digest_to_hex(d: &Digest) -> (r: String)
    ensures
        r@ == digest_hex_of(d@),
{
    twenty_first::prelude::Digest::new(d.values.map(twenty_first::prelude::BFieldElement::new)).to_hex()
}

/// The decimal digit for `d < 10`.
pub open spec fn digit_char(d: nat) -> char {
    seq!['0', '1', '2', '3', '4', '5', '6', '7', '8', '9'][d as int]
}

/// The decimal text of `v`, without leading zeros.
pub open spec fn decimal_text(v: nat) -> Seq<char>
    decreases v,
{
    if v < 10 {
        seq![digit_char(v)]
    } else {
        decimal_text(v / 10).push(digit_char(v % 10))
    }
}

/// The text of a selector: `genesis`, `tip`, the digest in hex, or the
/// height in decimal.
pub open spec fn selector_text(b: BlockSelector) -> Seq<char> {
    match b {
        BlockSelector::Special(BlockSelectorLiteral::Genesis) => genesis_text(),
        BlockSelector::Special(BlockSelectorLiteral::Tip) => tip_text(),
        BlockSelector::Digest(d) => digest_hex_of(d@),
        BlockSelector::Height(h) => decimal_text(h as nat),
    }
}

/// The decimal digits of `v`.
fn decimal_chars(v: u64) -> (r: Vec<char>)
    ensures
        r@ == decimal_text(v as nat),
    decreases v,
{
    let digits = ['0', '1', '2', '3', '4', '5', '6', '7', '8', '9'];
    let c = digits[(v % 10) as usize];
    assert(c == digit_char((v % 10) as nat)) by {
        assert(digits@ =~= seq!['0', '1', '2', '3', '4', '5', '6', '7', '8', '9']);
    }
    if v < 10 {
        let r = vec![c];
        assert(r@ =~= decimal_text(v as nat));
        r
    } else {
        let mut r = decimal_chars(v / 10);
        r.push(c);
        r
    }
}

/// The value of a decimal digit.
pub open spec fn digit_value(c: char) -> int {
    c as int - '0' as int
}

/// Whether `c` is a decimal digit.
pub open spec fn is_digit(c: char) -> bool {
    '0' <= c <= '9'
}

/// The value of a run of decimal digits, most significant first.
pub open spec fn decimal_value(s: Seq<char>) -> int
    decreases s.len(),
{
    if s.len() == 0 {
        0
    } else {
        10 * decimal_value(s.drop_last()) + digit_value(s.last())
    }
}

/// The height that a text gives as an unsigned 64-bit number: an optional
/// `+`, then at least one decimal digit, and a value that fits.
pub open spec fn height_of(s: Seq<char>) -> Option<u64> {
    value_of_digits(unsigned_digits(s))
}

/// The text without its leading `+`, if it has one.
pub open spec fn unsigned_digits(s: Seq<char>) -> Seq<char> {
    if s.len() > 0 && s[0] == '+' {
        s.subrange(1, s.len() as int)
    } else {
        s
    }
}

/// The value of a non-empty run of decimal digits, if it fits in 64 bits.
pub open spec fn value_of_digits(digits: Seq<char>) -> Option<u64> {
    if digits.len() > 0 && (forall|i: int| 0 <= i < digits.len() ==> is_digit(#[trigger] digits[i]))
        && decimal_value(digits) <= u64::MAX {
        Some(decimal_value(digits) as u64)
    } else {
        None
    }
}

/// The text of the genesis selector.
pub open spec fn genesis_text() -> Seq<char> {
    seq!['g', 'e', 'n', 'e', 's', 'i', 's']
}

/// The text of the tip selector.
pub open spec fn tip_text() -> Seq<char> {
    seq!['t', 'i', 'p']
}

/// Whether the text `s` names the block that `b` selects: the literals first,
/// then a digest in hex, then a height.
pub open spec fn selects(s: Seq<char>, b: BlockSelector) -> bool {
    match b {
        BlockSelector::Special(BlockSelectorLiteral::Genesis) => s == genesis_text(),
        BlockSelector::Special(BlockSelectorLiteral::Tip) => s == tip_text(),
        BlockSelector::Digest(d) => s != genesis_text() && s != tip_text() && digest_from_hex_of(s)
            == Some(d@),
        BlockSelector::Height(h) => s != genesis_text() && s != tip_text() && digest_from_hex_of(s)
            is None && height_of(s) == Some(h),
    }
}

/// Whether the text `s` names no block.
pub open spec fn names_nothing(s: Seq<char>) -> bool {
    s != genesis_text() && s != tip_text() && digest_from_hex_of(s) is None && height_of(s) is None
}

/// Whether `s` holds exactly the characters of `t`.
fn equals_chars(s: &str, t: &Vec<char>) -> (r: bool)
    ensures
        r == (s@ == t@),
{
    let n = s.unicode_len();
    if n != t.len() {
        return false;
    }
    let mut i: usize = 0;
    while i < n
        invariant
            n == s@.len(),
            n == t@.len(),
            0 <= i <= n,
            forall|k: int| 0 <= k < i ==> s@[k] == t@[k],
        decreases n - i,
    {
        if s.get_char(i) != t[i] {
            return false;
        }
        i = i + 1;
    }
    assert(s@ =~= t@);
    true
}

/// Reads a height: an optional `+`, then decimal digits whose value fits in
/// 64 bits.
pub fn parse_height(s: &str) -> (r: Option<u64>)
    ensures
        r == height_of(s@),
{
    let n = s.unicode_len();
    let start: usize = if n > 0 && s.get_char(0) == '+' {
        1
    } else {
        0
    };
    let ghost digits = unsigned_digits(s@);
    assert(digits =~= s@.subrange(start as int, n as int));
    if start >= n {
        return None;
    }
    let mut acc: u64 = 0;
    let mut i: usize = start;
    while i < n
        invariant
            n == s@.len(),
            start <= i <= n,
            digits == s@.subrange(start as int, n as int),
            digits == unsigned_digits(s@),
            forall|k: int| start <= k < i ==> is_digit(#[trigger] s@[k]),
            acc == decimal_value(s@.subrange(start as int, i as int)),
        decreases n - i,
    {
        let c = s.get_char(i);
        assert(s@.subrange(start as int, i + 1).drop_last() =~= s@.subrange(start as int, i as int));
        if !('0' <= c && c <= '9') {
            assert(!is_digit(digits[i - start]));
            assert(!(forall|k: int| 0 <= k < digits.len() ==> is_digit(#[trigger] digits[k])));
            assert(height_of(s@) is None);
            return None;
        }
        let d = (c as u64) - ('0' as u64);
        if acc > (u64::MAX - d) / 10 {
            proof {
                let pre = s@.subrange(start as int, i + 1);
                assert(pre.last() == c);
                assert(decimal_value(pre) == 10 * acc + d);
                assert(10 * acc + d > u64::MAX) by (nonlinear_arith)
                    requires
                        acc > (u64::MAX - d) / 10,
                        d <= 9,
                ;
                if forall|k: int| 0 <= k < digits.len() ==> is_digit(#[trigger] digits[k]) {
                    assert(digits.take(i + 1 - start) =~= pre);
                    lemma_decimal_grows(digits, (i + 1 - start) as nat);
                }
            }
            return None;
        }
        acc = acc * 10 + d;
        i = i + 1;
    }
    assert(s@.subrange(start as int, n as int) == digits);
    assert forall|k: int| 0 <= k < digits.len() implies is_digit(#[trigger] digits[k]) by {
        assert(digits[k] == s@[start + k]);
    }
    Some(acc)
}

/// Extending a run of digits never lowers its value.
proof fn lemma_decimal_grows(s: Seq<char>, k: nat)
    requires
        k <= s.len(),
        forall|i: int| 0 <= i < s.len() ==> is_digit(#[trigger] s[i]),
    ensures
        decimal_value(s) >= decimal_value(s.take(k as int)),
    decreases s.len(),
{
    if k < s.len() {
        assert(s.drop_last().take(k as int) =~= s.take(k as int));
        assert(forall|i: int| 0 <= i < s.drop_last().len() ==> #[trigger] s.drop_last()[i] == s[i]);
        lemma_decimal_grows(s.drop_last(), k);
        assert(decimal_value(s.drop_last()) >= 0) by {
            lemma_decimal_nonneg(s.drop_last());
        }
    } else {
        assert(s.take(k as int) =~= s);
    }
}

proof fn lemma_decimal_nonneg(s: Seq<char>)
    requires
        forall|i: int| 0 <= i < s.len() ==> is_digit(#[trigger] s[i]),
    ensures
        decimal_value(s) >= 0,
    decreases s.len(),
{
    if s.len() > 0 {
        assert(forall|i: int| 0 <= i < s.drop_last().len() ==> #[trigger] s.drop_last()[i] == s[i]);
        lemma_decimal_nonneg(s.drop_last());
    }
}

/// Where the digests of blocks are looked up.
pub trait BlockSelectorSource {
    /// The digest of the canonical block at `height`, if there is one.
    fn block_digest_for_height(&self, height: u64) -> Option<Digest>;

    /// The digest of the tip.
    fn block_digest_for_tip(&self) -> Option<Digest>;

    /// The digest of the genesis block.
    fn block_digest_for_genesis(&self) -> Option<Digest>;
}

proof fn lemma_decimal_text(v: nat)
    ensures
        decimal_text(v).len() > 0,
        forall|i: int| 0 <= i < decimal_text(v).len() ==> is_digit(#[trigger] decimal_text(v)[i]),
        decimal_value(decimal_text(v)) == v,
    decreases v,
{
    let d = v % 10;
    assert(digit_value(digit_char(d)) == d && is_digit(digit_char(d))) by {
        assert(d < 10);
        if d == 0 {} else if d == 1 {} else if d == 2 {} else if d == 3 {} else if d == 4 {}
        else if d == 5 {} else if d == 6 {} else if d == 7 {} else if d == 8 {} else {}
    }
    if v >= 10 {
        lemma_decimal_text(v / 10);
        let t = decimal_text(v);
        assert(t.drop_last() =~= decimal_text(v / 10));
        assert forall|i: int| 0 <= i < t.len() implies is_digit(#[trigger] t[i]) by {
            if i < t.len() - 1 {
                assert(t[i] == decimal_text(v / 10)[i]);
            }
        }
        assert(t.last() == digit_char(d));
        assert(10 * (v / 10) + v % 10 == v);
        assert(decimal_value(t) == 10 * decimal_value(t.drop_last()) + digit_value(t.last()));
    } else {
        let t = decimal_text(v);
        assert(t.drop_last() =~= seq![]);
        assert(decimal_value(t) == 10 * decimal_value(t.drop_last()) + digit_value(t.last()));
    }
}

/// The decimal text of a height reads back as that height.
pub proof fn lemma_height_text_round_trip(v: u64)
    ensures
        height_of(decimal_text(v as nat)) == Some(v),
{
    lemma_decimal_text(v as nat);
    let t = decimal_text(v as nat);
    assert(is_digit(t[0]));
    assert(unsigned_digits(t) == t);
}

impl BlockSelector {
    /// Reads `genesis`, `tip`, a digest in hex, or a height.
    pub fn from_str(s: &str) -> (r: Result<BlockSelector, BlockSelectorParseError>)
        ensures
            r matches Ok(b) ==> selects(s@, b),
            r matches Err(BlockSelectorParseError::InvalidSelector(t)) ==> names_nothing(s@) && t@ == s@,
    {
        let genesis = vec!['g', 'e', 'n', 'e', 's', 'i', 's'];
        let tip = vec!['t', 'i', 'p'];
        assert(genesis@ =~= genesis_text());
        assert(tip@ =~= tip_text());
        if equals_chars(s, &genesis) {
            return Ok(BlockSelector::Special(BlockSelectorLiteral::Genesis));
        }
        if equals_chars(s, &tip) {
            return Ok(BlockSelector::Special(BlockSelectorLiteral::Tip));
        }
        match digest_from_hex(s) {
            Some(d) => Ok(BlockSelector::Digest(d)),
            None => match parse_height(s) {
                Some(h) => Ok(BlockSelector::Height(h)),
                None => Err(BlockSelectorParseError::InvalidSelector(s.to_owned())),
            },
        }
    }

    /// The text of the selector: `genesis`, `tip`, the digest in hex, or the
    /// height in decimal.
    pub fn to_display_string(&self) -> (r: String)
        ensures
            r@ == selector_text(*self),
    {
        match self {
            BlockSelector::Special(BlockSelectorLiteral::Genesis) => {
                let cs = vec!['g', 'e', 'n', 'e', 's', 'i', 's'];
                assert(cs@ =~= genesis_text());
                crate::announcement::string_from_chars(&cs)
            },
            BlockSelector::Special(BlockSelectorLiteral::Tip) => {
                let cs = vec!['t', 'i', 'p'];
                assert(cs@ =~= tip_text());
                crate::announcement::string_from_chars(&cs)
            },
            BlockSelector::Digest(d) => digest_to_hex(d),
            BlockSelector::Height(h) => crate::announcement::string_from_chars(&decimal_chars(*h)),
        }
    }

    /// The digest, where the selector names a block by it.
    pub fn to_digest(&self) -> (r: Option<Digest>)
        ensures
            r == match self {
                BlockSelector::Digest(d) => Some(*d),
                _ => None::<Digest>,
            },
    {
        match self {
            BlockSelector::Digest(d) => Some(*d),
            _ => None,
        }
    }

    /// The digest of the block that this selector names, looked up in
    /// `source` unless the selector is a digest itself.
    pub fn as_digest<S: BlockSelectorSource>(&self, source: &S) -> (r: Option<Digest>)
        ensures
            self matches BlockSelector::Digest(d) ==> r == Some(*d),
    {
        match self {
            BlockSelector::Special(BlockSelectorLiteral::Tip) => source.block_digest_for_tip(),
            BlockSelector::Special(BlockSelectorLiteral::Genesis) => source.block_digest_for_genesis(),
            BlockSelector::Digest(d) => Some(*d),
            BlockSelector::Height(h) => source.block_digest_for_height(*h),
        }
    }
}

} // verus!
