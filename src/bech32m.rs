//! Bech32m text encoding, behind the outside crate that implements it.
use bech32::FromBase32;
use bech32::ToBase32;
use vstd::prelude::*;

verus! {

/// The bech32m string with human-readable prefix `hrp` whose data part holds
/// `data`, as the `bech32` crate writes it.
pub uninterp spec fn bech32m_string_of(hrp: Seq<char>, data: Seq<u8>) -> Seq<char>;

/// A human-readable prefix that bech32 accepts and keeps as it is: 1 to 83
/// printable ASCII characters, none of them upper case.
pub open spec fn valid_lower_hrp(hrp: Seq<char>) -> bool {
    &&& 1 <= hrp.len() <= 83
    &&& forall|i: int|
        0 <= i < hrp.len() ==> ('!' <= #[trigger] hrp[i] <= '~' && !('A' <= hrp[i] <= 'Z'))
}

/// The decoded parts of a bech32 string, as plain values: the prefix, whether
/// the checksum is that of bech32m, and the data bytes where the data part
/// converts to bytes.
pub type DecodedView = Option<(Seq<char>, bool, Option<Seq<u8>>)>;

/// The plain values of what `decode_bech32` returns.
pub open spec fn decoded_view(r: Option<(String, bool, Option<Vec<u8>>)>) -> DecodedView {
    match r {
        Some((h, m, d)) => Some(
            (
                h@,
                m,
                match d {
                    Some(v) => Some(v@),
                    None => None,
                },
            ),
        ),
        None => None,
    }
}

/// What the decoder promises on `s`: a string that the encoder wrote from a
/// lower-case prefix and some data decodes to that prefix and that data, with
/// the bech32m checksum.
pub open spec fn decode_post(s: Seq<char>, r: DecodedView) -> bool {
    forall|hrp: Seq<char>, data: Seq<u8>|
        valid_lower_hrp(hrp) && #[trigger] bech32m_string_of(hrp, data) == s ==> r == Some(
            (hrp, true, Some(data)),
        )
}

/// Relies on `bech32::encode` with `Variant::Bech32m`, the bytes converted to
/// five-bit groups by `ToBase32`: it fails only on a prefix that `check_hrp`
/// refuses, and otherwise writes a string that depends on the prefix and the
/// data alone.
#[verifier::external_body]
pub(crate) fn encode_bech32m(hrp: &str, data: &[u8]) -> (r: Option<String>)
    ensures
        valid_lower_hrp(hrp@) ==> r is Some,
        r is Some ==> r->0@ == bech32m_string_of(hrp@, data@),
{
    bech32::encode(hrp, data.to_base32(), bech32::Variant::Bech32m).ok()
}

/// Relies on `bech32::decode`, its five-bit groups converted back to bytes by
/// `FromBase32`: the prefix comes back lower-cased, the checksum variant is
/// reported, and a string that `bech32::encode` wrote decodes to what it was
/// written from.
#[verifier::external_body]
pub(crate) fn decode_bech32(s: &str) -> (r: Option<(String, bool, Option<Vec<u8>>)>)
    ensures
        decode_post(s@, decoded_view(r)),
{
    match bech32::decode(s) {
        Ok((hrp, data, variant)) => Some(
            (hrp, variant == bech32::Variant::Bech32m, Vec::<u8>::from_base32(&data).ok()),
        ),
        Err(_) => None,
    }
}

} // verus!
