use jeopardy::ids::make_channel_name;
use jeopardy::{AuthToken, GameId, PlayerId};

const VALUE: u128 = 0xa1a2a3a4_b1b2_c1c2_d1d2_d3d4d5d6d7d8;
const TEXT: &str = "a1a2a3a4-b1b2-c1c2-d1d2-d3d4d5d6d7d8";

#[test]
fn identifiers_are_written_as_hyphenated_hexadecimal() {
    assert_eq!(GameId(VALUE).to_string(), TEXT);
    assert_eq!(PlayerId(VALUE).to_string(), TEXT);
    assert_eq!(AuthToken(VALUE).to_string(), TEXT);
    assert_eq!(PlayerId(0).to_string(), "00000000-0000-0000-0000-000000000000");
    assert_eq!(PlayerId(u128::MAX).to_string(), "ffffffff-ffff-ffff-ffff-ffffffffffff");
}

#[test]
fn identifiers_are_read_back() {
    assert_eq!(GameId::parse(TEXT), Some(GameId(VALUE)));
    assert_eq!(PlayerId::parse(TEXT), Some(PlayerId(VALUE)));
    assert_eq!(AuthToken::parse(TEXT), Some(AuthToken(VALUE)));
    assert_eq!(PlayerId::parse("A1A2A3A4B1B2C1C2D1D2D3D4D5D6D7D8"), Some(PlayerId(VALUE)));
    for value in [0u128, 1, u128::MAX, VALUE] {
        assert_eq!(PlayerId::parse(&PlayerId(value).to_string()), Some(PlayerId(value)));
    }
}

#[test]
fn malformed_identifiers_are_not_read() {
    assert_eq!(GameId::parse(""), None);
    assert_eq!(PlayerId::parse("not an identifier"), None);
    assert_eq!(AuthToken::parse("a1a2a3a4-b1b2-c1c2-d1d2-d3d4d5d6d7"), None);
    assert_eq!(PlayerId::parse("g1a2a3a4-b1b2-c1c2-d1d2-d3d4d5d6d7d8"), None);
}

#[test]
fn random_identifiers_carry_version_and_variant() {
    let mask = 0x0000_0000_0000_f000_c000_0000_0000_0000u128;
    let marks = 0x0000_0000_0000_4000_8000_0000_0000_0000u128;
    let mut seen = Vec::new();
    for _ in 0..64 {
        let id = PlayerId::generate();
        assert_eq!(id.0 & mask, marks);
        assert_eq!(GameId::generate().0 & mask, marks);
        assert_eq!(AuthToken::generate().0 & mask, marks);
        assert!(!seen.contains(&id));
        seen.push(id);
    }
}

#[test]
fn channels_are_named_after_identifiers() {
    assert_eq!(make_channel_name(VALUE), format!("jpdy.chan.{}", TEXT));
}
