use wallet_keys::block_selector::parse_height;
use wallet_keys::block_selector::BlockSelector;
use wallet_keys::block_selector::BlockSelectorLiteral;
use wallet_keys::block_selector::BlockSelectorParseError;
use wallet_keys::block_selector::BlockSelectorSource;
use wallet_keys::field::Digest;

struct Chain;

impl BlockSelectorSource for Chain {
    fn block_digest_for_height(&self, height: u64) -> Option<Digest> {
        if height < 10 {
            Some(Digest::new([height, 0, 0, 0, 0]))
        } else {
            None
        }
    }

    fn block_digest_for_tip(&self) -> Option<Digest> {
        Some(Digest::new([9, 0, 0, 0, 0]))
    }

    fn block_digest_for_genesis(&self) -> Option<Digest> {
        Some(Digest::new([0, 0, 0, 0, 0]))
    }
}

/// The text that a selector is written as, parsed back.
fn text_round_trip(selector: BlockSelector, text: &str) {
    assert_eq!(BlockSelector::from_str(text), Ok(selector));
}

#[test]
fn test_bincode_serialization_for_block_selector() {
    let text: String = bincode::deserialize(&bincode::serialize("tip").unwrap()).unwrap();
    text_round_trip(BlockSelector::Special(BlockSelectorLiteral::Tip), &text);
}

#[test]
fn test_serde_json_serialization_for_block_selector() {
    let text: String = serde_json::from_str(&serde_json::to_string("tip").unwrap()).unwrap();
    text_round_trip(BlockSelector::Special(BlockSelectorLiteral::Tip), &text);
}

#[test]
fn test_serde_json_wasm_serialization_for_block_selector() {
    let text: String = serde_json_wasm::from_str(&serde_json_wasm::to_string("tip").unwrap()).unwrap();
    text_round_trip(BlockSelector::Special(BlockSelectorLiteral::Tip), &text);
}

#[test]
fn selectors_parse() {
    assert_eq!(
        BlockSelector::from_str("genesis"),
        Ok(BlockSelector::Special(BlockSelectorLiteral::Genesis))
    );
    assert_eq!(BlockSelector::from_str("123"), Ok(BlockSelector::Height(123)));
    assert_eq!(BlockSelector::from_str("+7"), Ok(BlockSelector::Height(7)));
    assert_eq!(
        BlockSelector::from_str("Tip"),
        Err(BlockSelectorParseError::InvalidSelector("Tip".to_string()))
    );
    assert_eq!(
        BlockSelector::from_str("18446744073709551616"),
        Err(BlockSelectorParseError::InvalidSelector("18446744073709551616".to_string()))
    );
}

#[test]
fn heights_parse_like_u64() {
    assert_eq!(parse_height("18446744073709551615"), Some(u64::MAX));
    assert_eq!(parse_height("0"), Some(0));
    assert_eq!(parse_height(""), None);
    assert_eq!(parse_height("+"), None);
    assert_eq!(parse_height("-1"), None);
    assert_eq!(parse_height("12a"), None);
    assert_eq!(parse_height("99999999999999999999"), None);
}

#[test]
fn digest_selector_parses_field_library_hex() {
    let values = [1u64, 2, 3, 4, 0xffff_ffff_0000_0000];
    let d = twenty_first::prelude::Digest::new(values.map(twenty_first::prelude::BFieldElement::new));
    let parsed = BlockSelector::from_str(&d.to_hex()).unwrap();
    assert_eq!(parsed, BlockSelector::Digest(Digest::new(values)));
    assert_eq!(parsed.to_digest(), Some(Digest::new(values)));
}

#[test]
fn selectors_look_up_digests() {
    let chain = Chain;
    let d = Digest::new([5, 5, 5, 5, 5]);
    assert_eq!(BlockSelector::Digest(d).as_digest(&chain), Some(d));
    assert_eq!(BlockSelector::Height(3).as_digest(&chain), Some(Digest::new([3, 0, 0, 0, 0])));
    assert_eq!(BlockSelector::Height(30).as_digest(&chain), None);
    assert_eq!(
        BlockSelector::Special(BlockSelectorLiteral::Tip).as_digest(&chain),
        Some(Digest::new([9, 0, 0, 0, 0]))
    );
    assert_eq!(BlockSelector::Special(BlockSelectorLiteral::Genesis).to_digest(), None);
}

#[test]
fn selectors_display_and_parse_back() {
    for b in [
        BlockSelector::Special(BlockSelectorLiteral::Genesis),
        BlockSelector::Special(BlockSelectorLiteral::Tip),
        BlockSelector::Height(0),
        BlockSelector::Height(1234567),
        BlockSelector::Height(u64::MAX),
        BlockSelector::Digest(Digest::new([1, 2, 3, 4, 5])),
    ] {
        assert_eq!(BlockSelector::from_str(&b.to_display_string()), Ok(b));
    }
    assert_eq!(BlockSelector::Height(907).to_display_string(), "907");
    let values = [1u64, 2, 3, 4, 5];
    let d = twenty_first::prelude::Digest::new(values.map(twenty_first::prelude::BFieldElement::new));
    assert_eq!(BlockSelector::Digest(Digest::new(values)).to_display_string(), d.to_hex());
}

#[test]
fn digest_hex_is_little_endian_bytes() {
    let text = format!("0100000000000000{}", "00".repeat(32));
    assert_eq!(BlockSelector::from_str(&text), Ok(BlockSelector::Digest(Digest::new([1, 0, 0, 0, 0]))));
    assert_eq!(BlockSelector::Digest(Digest::new([1, 0, 0, 0, 0])).to_display_string(), text);
    let upper = format!("0A00000000000000{}", "00".repeat(32));
    assert_eq!(BlockSelector::from_str(&upper), Ok(BlockSelector::Digest(Digest::new([10, 0, 0, 0, 0]))));
    let non_canonical = format!("{}{}", "ff".repeat(8), "00".repeat(32));
    assert_eq!(
        BlockSelector::from_str(&non_canonical),
        Err(BlockSelectorParseError::InvalidSelector(non_canonical.clone()))
    );
}
