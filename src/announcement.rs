//! Announcements: public payloads attached to transactions, and their
//! hexadecimal text form.
use crate::field::all_wf;
use crate::field::vals;
use crate::field::FieldElement;
use crate::field::MAX;
use vstd::prelude::*;

verus! {

/// Arbitrary data stored in a transaction on the public chain, typically an
/// encrypted UTXO notification.
#[derive(Clone, Debug, PartialEq, Eq)]
pub struct Announcement {
    pub message: Vec<FieldElement>,
}

impl View for Announcement {
    type V = Seq<u64>;

    open spec fn view(&self) -> Seq<u64> {
        vals(self.message@)
    }
}

/// The name under which announcements travel in transactions.
pub type PublicAnnouncement = Announcement;

/// Why a text is not an announcement.
#[derive(Clone, Copy, Debug, PartialEq, Eq)]
pub enum ParsePublicAnnouncementError {
    /// Fewer than two characters.
    TooShort,
    /// The text does not start with `0x`.
    BadHexDelimiter,
    /// The digits do not split into groups of sixteen.
    BadLengthAlignment,
    /// A character is not a hexadecimal digit.
    ParseIntError,
    /// A group of digits is not below the field modulus.
    NonCanonicalRepresentation,
}

/// The lowercase hexadecimal digit for `d < 16`.
pub open spec fn hex_char(d: u64) -> char {
    if d < 10 {
        (48 + d) as char
    } else {
        (87 + d) as char
    }
}

/// The value of a hexadecimal digit of either case, if `c` is one.
pub open spec fn hex_value(c: char) -> Option<u64> {
    if '0' <= c <= '9' {
        Some((c as u64 - 48) as u64)
    } else if 'a' <= c <= 'f' {
        Some((c as u64 - 87) as u64)
    } else if 'A' <= c <= 'F' {
        Some((c as u64 - 55) as u64)
    } else {
        None
    }
}

/// The `i`-th of the sixteen four-bit digits of `v`, most significant first.
pub open spec fn nibble(v: u64, i: int) -> u64 {
    ((v >> ((60 - 4 * i) as u64)) & 0xf) as u64
}

/// The sixteen lowercase hexadecimal digits of `v`, most significant first.
pub open spec fn hex16(v: u64) -> Seq<char> {
    Seq::new(16, |i: int| hex_char(nibble(v, i)))
}

/// The text form of a message: `0x`, then sixteen digits per element.
pub open spec fn display_of(m: Seq<u64>) -> Seq<char> {
    seq!['0', 'x'] + Seq::new(16 * m.len(), |i: int| hex16(m[i / 16])[i % 16])
}

/// The value of a run of hexadecimal digits, most significant first, in
/// 64-bit arithmetic.
pub open spec fn digits_value(ds: Seq<u64>) -> u64
    decreases ds.len(),
{
    if ds.len() == 0 {
        0
    } else {
        ((digits_value(ds.drop_last()) << 4u64) | ds.last()) as u64
    }
}

/// The number of UTF-8 bytes that encode `c`.
pub open spec fn char_width(c: char) -> int {
    if (c as u32) < 0x80 {
        1
    } else if (c as u32) < 0x800 {
        2
    } else if (c as u32) < 0x10000 {
        3
    } else {
        4
    }
}

/// The number of UTF-8 bytes that encode `s`.
pub open spec fn utf8_len(s: Seq<char>) -> int
    decreases s.len(),
{
    if s.len() == 0 {
        0
    } else {
        utf8_len(s.drop_last()) + char_width(s.last())
    }
}

/// Whether byte 2 of the UTF-8 encoding of `s` starts a character (or ends
/// the text): the first character takes two bytes, or the first two take one
/// byte each.
pub open spec fn splits_at_two(s: Seq<char>) -> bool {
    s.len() >= 1 && (char_width(s[0]) == 2 || (char_width(s[0]) == 1 && s.len() >= 2 && char_width(
        s[1],
    ) == 1))
}

/// The digit values of a group of characters read as an unsigned number in
/// base 16: an optional `+`, then at least one hexadecimal digit of either
/// case.
pub open spec fn chunk_digits(t: Seq<char>) -> Option<Seq<u64>> {
    let off: int = if t.len() > 0 && t[0] == '+' {
        1
    } else {
        0
    };
    if t.len() > off && forall|k: int| off <= k < t.len() ==> (#[trigger] hex_value(t[k])) is Some {
        Some(Seq::new((t.len() - off) as nat, |k: int| hex_value(t[off + k])->0))
    } else {
        None
    }
}

/// The end of the group of at most sixteen characters that starts at `start`.
pub open spec fn group_end(s: Seq<char>, start: int) -> int {
    if start + 16 <= s.len() {
        start + 16
    } else {
        s.len() as int
    }
}

/// The digit values of the group of at most sixteen characters of `s` that
/// starts at `start`, if the group reads as a number.
pub open spec fn group_digits(s: Seq<char>, start: int) -> Option<Seq<u64>> {
    chunk_digits(s.subrange(start, group_end(s, start)))
}

/// The number of groups of sixteen characters, the last one possibly
/// shorter, after the delimiter.
pub open spec fn group_count(s: Seq<char>) -> nat {
    ((s.len() - 2 + 15) / 16) as nat
}

/// What parsing `s` gives, as plain values. The length checks count UTF-8
/// bytes; the digits are read in groups of sixteen characters.
pub open spec fn parse_of(s: Seq<char>) -> Result<Seq<u64>, ParsePublicAnnouncementError> {
    if !splits_at_two(s) {
        Err(ParsePublicAnnouncementError::TooShort)
    } else if s[0] != '0' || s[1] != 'x' {
        Err(ParsePublicAnnouncementError::BadHexDelimiter)
    } else if (utf8_len(s) - 2) % 16 != 0 {
        Err(ParsePublicAnnouncementError::BadLengthAlignment)
    } else {
        parse_groups(s, group_count(s))
    }
}

/// The first `n` groups of digits of `s`, or the first error among them.
pub open spec fn parse_groups(s: Seq<char>, n: nat) -> Result<Seq<u64>, ParsePublicAnnouncementError>
    decreases n,
{
    if n == 0 {
        Ok(seq![])
    } else {
        match parse_groups(s, (n - 1) as nat) {
            Ok(vs) => match group_digits(s, 2 + 16 * (n - 1)) {
                Some(ds) => if digits_value(ds) <= MAX {
                    Ok(vs.push(digits_value(ds)))
                } else {
                    Err(ParsePublicAnnouncementError::NonCanonicalRepresentation)
                },
                None => Err(ParsePublicAnnouncementError::ParseIntError),
            },
            Err(e) => Err(e),
        }
    }
}

impl Announcement {
    pub open spec fn wf(&self) -> bool {
        all_wf(self.message@)
    }

    pub fn new(message: Vec<FieldElement>) -> (r: Announcement)
        ensures
            r.message@ == message@,
    {
        Announcement { message }
    }

    /// The text form: `0x`, then each element as sixteen lowercase
    /// hexadecimal digits.
    pub fn to_display_string(&self) -> (r: String)
        requires
            16 * self.message@.len() + 2 <= usize::MAX,
        ensures
            r@ == display_of(self@),
    {
        let mut out: Vec<char> = Vec::new();
        out.push('0');
        out.push('x');
        let mut i: usize = 0;
        while i < self.message.len()
            invariant
                0 <= i <= self.message@.len(),
                out@.len() == 2 + 16 * i,
                out@[0] == '0' && out@[1] == 'x',
                forall|k: int| 0 <= k < 16 * i ==> #[trigger] out@[2 + k] == hex16(self@[k / 16])[k % 16],
            decreases self.message.len() - i,
        {
            let v = self.message[i].value;
            let ghost before = out@;
            let mut j: usize = 0;
            while j < 16
                invariant
                    0 <= j <= 16,
                    out@.len() == before.len() + j,
                    before.len() == 2 + 16 * i,
                    forall|k: int| 0 <= k < before.len() ==> #[trigger] out@[k] == before[k],
                    forall|t: int| 0 <= t < j ==> #[trigger] out@[before.len() + t] == hex16(v)[t],
                decreases 16 - j,
            {
                let sh: u64 = 60 - 4 * j as u64;
                let d = (v >> sh) & 0xf;
                assert(d < 16) by (bit_vector)
                    requires
                        d == (v >> sh) & 0xf,
                ;
                let c = if d < 10 {
                    ((48 + d) as u8) as char
                } else {
                    ((87 + d) as u8) as char
                };
                assert(c == hex_char(nibble(v, j as int)));
                out.push(c);
                j = j + 1;
            }
            proof {
                assert forall|k: int| 0 <= k < 16 * (i + 1) implies #[trigger] out@[2 + k] == hex16(
                    self@[k / 16],
                )[k % 16] by {
                    if k >= 16 * i {
                        lemma_div16(i as int, k - 16 * i);
                        assert(out@[before.len() + (k - 16 * i)] == hex16(v)[k - 16 * i]);
                    } else {
                        assert(out@[2 + k] == before[2 + k]);
                    }
                }
            }
            i = i + 1;
        }
        assert forall|k: int| 0 <= k < out@.len() implies #[trigger] out@[k] == display_of(self@)[k] by {
            if k >= 2 {
                assert(out@[2 + (k - 2)] == hex16(self@[(k - 2) / 16])[(k - 2) % 16]);
            }
        }
        assert(out@ =~= display_of(self@));
        string_from_chars(&out)
    }

    /// Parses the text form; the inverse of `to_display_string` on
    /// announcements of canonical elements.
    pub fn try_from_str(unparsed: &str) -> (r: Result<Announcement, ParsePublicAnnouncementError>)
        ensures
            r matches Ok(a) ==> parse_of(unparsed@) == Ok::<Seq<u64>, ParsePublicAnnouncementError>(a@) && a.wf(),
            r matches Err(e) ==> parse_of(unparsed@) == Err::<Seq<u64>, ParsePublicAnnouncementError>(e),
    {
        let s = unparsed;
        let len = s.unicode_len();
        if len == 0 {
            return Err(ParsePublicAnnouncementError::TooShort);
        }
        let c0 = s.get_char(0);
        let w0 = utf8_width(c0);
        let splits = if w0 == 2 {
            true
        } else if w0 == 1 && len >= 2 {
            utf8_width(s.get_char(1)) == 1
        } else {
            false
        };
        if !splits {
            return Err(ParsePublicAnnouncementError::TooShort);
        }
        if c0 != '0' || s.get_char(1) != 'x' {
            return Err(ParsePublicAnnouncementError::BadHexDelimiter);
        }
        let bytes = utf8_length(s);
        proof {
            lemma_utf8_len_at_least_len(s@);
        }
        if (bytes - 2) % 16 != 0 {
            return Err(ParsePublicAnnouncementError::BadLengthAlignment);
        }
        let n = (len - 2) / 16 + if (len - 2) % 16 == 0 {
            0
        } else {
            1
        };
        assert(n == group_count(s@));
        let mut message: Vec<FieldElement> = Vec::new();
        let mut g: usize = 0;
        assert(vals(message@) =~= seq![]);
        while g < n
            invariant
                len == s@.len(),
                s@ == unparsed@,
                len >= 2,
                splits_at_two(s@),
                s@[0] == '0' && s@[1] == 'x',
                (utf8_len(s@) - 2) % 16 == 0,
                n == group_count(s@),
                0 <= g <= n,
                all_wf(message@),
                parse_groups(s@, g as nat) == Ok::<Seq<u64>, ParsePublicAnnouncementError>(vals(message@)),
            decreases n - g,
        {
            assert(2 + 16 * g < len) by {
                assert(16 * g + 16 <= 16 * n) by (nonlinear_arith)
                    requires
                        g < n,
                ;
            }
            let start = 2 + 16 * g;
            let end = if len - start >= 16 {
                start + 16
            } else {
                len
            };
            assert(end == group_end(s@, start as int));
            let ghost t = s@.subrange(start as int, end as int);
            let off: usize = if s.get_char(start) == '+' {
                1
            } else {
                0
            };
            assert(off == (if t.len() > 0 && t[0] == '+' { 1int } else { 0int }));
            if end - start <= off {
                proof {
                    assert(chunk_digits(t) is None);
                    lemma_groups_step(s@, g as nat);
                    lemma_groups_error_stays(s@, (g + 1) as nat, n as nat);
                }
                return Err(ParsePublicAnnouncementError::ParseIntError);
            }
            let mut acc: u64 = 0;
            let mut k: usize = start + off;
            let ghost mut ds: Seq<u64> = seq![];
            while k < end
                invariant
                    len == s@.len(),
                    s@ == unparsed@,
                    start < end <= len,
                    start == 2 + 16 * g,
                    end == group_end(s@, start as int),
                    t == s@.subrange(start as int, end as int),
                    off == (if t.len() > 0 && t[0] == '+' { 1int } else { 0int }),
                    start + off <= k <= end,
                    g < n,
                    len >= 2,
                    splits_at_two(s@),
                    s@[0] == '0' && s@[1] == 'x',
                    (utf8_len(s@) - 2) % 16 == 0,
                    n == group_count(s@),
                    parse_groups(s@, g as nat) == Ok::<Seq<u64>, ParsePublicAnnouncementError>(vals(message@)),
                    ds.len() == k - start - off,
                    acc == digits_value(ds),
                    forall|q: int| 0 <= q < ds.len() ==> (#[trigger] hex_value(t[off + q])) == Some(ds[q]),
                decreases end - k,
            {
                let c = s.get_char(k);
                assert(c == t[k - start]);
                let dv = hex_digit_value(c);
                if dv.is_none() {
                    proof {
                        assert(hex_value(t[k - start]) is None);
                        assert(chunk_digits(t) is None);
                        lemma_groups_step(s@, g as nat);
                        lemma_groups_error_stays(s@, (g + 1) as nat, n as nat);
                    }
                    return Err(ParsePublicAnnouncementError::ParseIntError);
                }
                let d = dv.unwrap();
                proof {
                    assert(ds.push(d).drop_last() =~= ds);
                    assert(hex_value(t[off + ds.len()]) == Some(d));
                    ds = ds.push(d);
                }
                acc = (acc << 4u64) | d;
                k = k + 1;
            }
            proof {
                assert forall|q: int| off <= q < t.len() implies (#[trigger] hex_value(t[q])) is Some by {
                    assert(hex_value(t[off + (q - off)]) == Some(ds[q - off]));
                }
                assert(Seq::new((t.len() - off) as nat, |q: int| hex_value(t[off + q])->0) =~= ds);
                assert(group_digits(s@, start as int) == Some(ds));
            }
            if acc > MAX {
                proof {
                    lemma_groups_step(s@, g as nat);
                    lemma_groups_error_stays(s@, (g + 1) as nat, n as nat);
                }
                return Err(ParsePublicAnnouncementError::NonCanonicalRepresentation);
            }
            let ghost old_message = message@;
            message.push(FieldElement { value: acc });
            assert(vals(message@) =~= vals(old_message).push(acc));
            proof {
                lemma_groups_step(s@, g as nat);
            }
            g = g + 1;
        }
        Ok(Announcement { message })
    }
}

/// Every character takes at least one byte.
pub proof fn lemma_utf8_len_at_least_len(s: Seq<char>)
    ensures
        utf8_len(s) >= s.len(),
    decreases s.len(),
{
    if s.len() > 0 {
        lemma_utf8_len_at_least_len(s.drop_last());
    }
}

/// A text of ASCII characters takes one byte per character.
pub proof fn lemma_utf8_len_ascii(s: Seq<char>)
    requires
        forall|i: int| 0 <= i < s.len() ==> (#[trigger] s[i] as u32) < 0x80,
    ensures
        utf8_len(s) == s.len(),
    decreases s.len(),
{
    if s.len() > 0 {
        assert(forall|i: int| 0 <= i < s.drop_last().len() ==> #[trigger] s.drop_last()[i] == s[i]);
        lemma_utf8_len_ascii(s.drop_last());
        assert(s.last() == s[s.len() - 1]);
    }
}

/// The number of UTF-8 bytes that encode `c`.
fn utf8_width(c: char) -> (r: u64)
    ensures
        r == char_width(c),
{
    let v = c as u32;
    if v < 0x80 {
        1
    } else if v < 0x800 {
        2
    } else if v < 0x10000 {
        3
    } else {
        4
    }
}

/// The number of UTF-8 bytes that encode `s`.
fn utf8_length(s: &str) -> (r: u128)
    ensures
        r == utf8_len(s@),
{
    let n = s.unicode_len();
    let mut total: u128 = 0;
    let mut i: usize = 0;
    while i < n
        invariant
            n == s@.len(),
            0 <= i <= n,
            total == utf8_len(s@.take(i as int)),
            total <= 4 * i,
        decreases n - i,
    {
        let w = utf8_width(s.get_char(i));
        assert(s@.take(i + 1).drop_last() =~= s@.take(i as int));
        total = total + w as u128;
        i = i + 1;
    }
    assert(s@.take(n as int) =~= s@);
    total
}

/// The value of a hexadecimal digit of either case.
fn hex_digit_value(c: char) -> (r: Option<u64>)
    ensures
        r == hex_value(c),
{
    if '0' <= c && c <= '9' {
        Some((c as u64) - 48)
    } else if 'a' <= c && c <= 'f' {
        Some((c as u64) - 87)
    } else if 'A' <= c && c <= 'F' {
        Some((c as u64) - 55)
    } else {
        None
    }
}

proof fn lemma_div16(i: int, t: int)
    requires
        0 <= t < 16,
    ensures
        (16 * i + t) / 16 == i,
        (16 * i + t) % 16 == t,
{
    assert(16 * i == i * 16) by (nonlinear_arith);
    vstd::arithmetic::div_mod::lemma_fundamental_div_mod_converse(16 * i + t, 16, i, t);
}

pub proof fn lemma_groups_step(s: Seq<char>, g: nat)
    ensures
        parse_groups(s, g + 1) == match parse_groups(s, g) {
            Ok(vs) => match group_digits(s, 2 + 16 * (g as int)) {
                Some(ds) => if digits_value(ds) <= MAX {
                    Ok(vs.push(digits_value(ds)))
                } else {
                    Err(ParsePublicAnnouncementError::NonCanonicalRepresentation)
                },
                None => Err(ParsePublicAnnouncementError::ParseIntError),
            },
            Err(e) => Err(e),
        },
{
    assert((g + 1 - 1) as nat == g);
}

proof fn lemma_groups_error_stays(s: Seq<char>, i: nat, n: nat)
    requires
        i <= n,
        parse_groups(s, i) is Err,
    ensures
        parse_groups(s, n) == parse_groups(s, i),
    decreases n - i,
{
    if i < n {
        lemma_groups_error_stays(s, i, (n - 1) as nat);
    }
}

/// Relies on collecting characters into a `String` (std's `FromIterator`):
/// the string holds exactly those characters.
#[verifier::external_body]
pub(crate) fn string_from_chars(cs: &Vec<char>) -> (r: String)
    ensures
        r@ == cs@,
{
    cs.iter().collect()
}

/// Reading sixteen hexadecimal digits of `v` gives `v` back.
pub proof fn lemma_hex16_value(v: u64)
    ensures
        forall|k: int| 0 <= k < 16 ==> hex_value(#[trigger] hex16(v)[k]) == Some(nibble(v, k)),
        digits_value(Seq::new(16, |k: int| nibble(v, k))) == v,
{
    assert forall|k: int| 0 <= k < 16 implies hex_value(#[trigger] hex16(v)[k]) == Some(nibble(v, k)) by {
        let sh = (60 - 4 * k) as u64;
        let d = nibble(v, k);
        assert(d == (v >> sh) & 0xf);
        assert(d < 16) by (bit_vector)
            requires
                d == (v >> sh) & 0xf,
        ;
    }
    let ds = Seq::new(16, |k: int| nibble(v, k));
    reveal_with_fuel(digits_value, 17);
    let n0 = (v >> 60u64) & 0xf;
    let n1 = (v >> 56u64) & 0xf;
    let n2 = (v >> 52u64) & 0xf;
    let n3 = (v >> 48u64) & 0xf;
    let n4 = (v >> 44u64) & 0xf;
    let n5 = (v >> 40u64) & 0xf;
    let n6 = (v >> 36u64) & 0xf;
    let n7 = (v >> 32u64) & 0xf;
    let n8 = (v >> 28u64) & 0xf;
    let n9 = (v >> 24u64) & 0xf;
    let n10 = (v >> 20u64) & 0xf;
    let n11 = (v >> 16u64) & 0xf;
    let n12 = (v >> 12u64) & 0xf;
    let n13 = (v >> 8u64) & 0xf;
    let n14 = (v >> 4u64) & 0xf;
    let n15 = (v >> 0u64) & 0xf;
    assert(ds =~= seq![n0, n1, n2, n3, n4, n5, n6, n7, n8, n9, n10, n11, n12, n13, n14, n15]);
    assert(ds.drop_last().drop_last().drop_last().drop_last().drop_last().drop_last().drop_last().drop_last().drop_last().drop_last().drop_last().drop_last().drop_last().drop_last().drop_last().drop_last() =~= seq![]);
    assert(((((((((((((((((((((((((((((((((0u64 << 4u64) | n0) << 4u64) | n1) << 4u64) | n2) << 4u64) | n3)
        << 4u64) | n4) << 4u64) | n5) << 4u64) | n6) << 4u64) | n7) << 4u64) | n8) << 4u64) | n9)
        << 4u64) | n10) << 4u64) | n11) << 4u64) | n12) << 4u64) | n13) << 4u64) | n14) << 4u64)
        | n15) == v) by (bit_vector)
        requires
            n0 == (v >> 60u64) & 0xf,
            n1 == (v >> 56u64) & 0xf,
            n2 == (v >> 52u64) & 0xf,
            n3 == (v >> 48u64) & 0xf,
            n4 == (v >> 44u64) & 0xf,
            n5 == (v >> 40u64) & 0xf,
            n6 == (v >> 36u64) & 0xf,
            n7 == (v >> 32u64) & 0xf,
            n8 == (v >> 28u64) & 0xf,
            n9 == (v >> 24u64) & 0xf,
            n10 == (v >> 20u64) & 0xf,
            n11 == (v >> 16u64) & 0xf,
            n12 == (v >> 12u64) & 0xf,
            n13 == (v >> 8u64) & 0xf,
            n14 == (v >> 4u64) & 0xf,
            n15 == (v >> 0u64) & 0xf,
    ;
}

} // verus!
