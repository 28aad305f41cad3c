use tx_listener::address::{parse_address, Address, ParseError};
use tx_listener::config::{Config, FeedMode};

const SAMPLE: &str = "0x1234567890abcdef1234567890abcdef12345678";
const SAMPLE_BYTES: [u8; 20] = [
    0x12, 0x34, 0x56, 0x78, 0x90, 0xab, 0xcd, 0xef, 0x12, 0x34, 0x56, 0x78, 0x90, 0xab, 0xcd,
    0xef, 0x12, 0x34, 0x56, 0x78,
];

#[test]
fn parses_prefixed_lowercase_address() {
    let a = parse_address(SAMPLE.as_bytes()).unwrap();
    assert_eq!(a.as_bytes().as_slice(), &SAMPLE_BYTES);
}

#[test]
fn parses_unprefixed_address() {
    let a = parse_address("1234567890abcdef1234567890abcdef12345678".as_bytes()).unwrap();
    assert_eq!(a.as_bytes().as_slice(), &SAMPLE_BYTES);
}

#[test]
fn hex_casing_does_not_matter() {
    let lower = parse_address(SAMPLE.as_bytes()).unwrap();
    let upper = parse_address("0X1234567890ABCDEF1234567890ABCDEF12345678".as_bytes()).unwrap();
    assert!(lower.eq_addr(&upper));
}

#[test]
fn rejects_empty_input() {
    assert!(matches!(parse_address(b""), Err(ParseError::WrongLength)));
}

#[test]
fn rejects_bare_prefix() {
    assert!(matches!(parse_address(b"0x"), Err(ParseError::WrongLength)));
}

#[test]
fn rejects_short_input() {
    assert!(matches!(
        parse_address(b"0x1234567890abcdef1234567890abcdef123456"),
        Err(ParseError::WrongLength)
    ));
}

#[test]
fn rejects_long_input() {
    assert!(matches!(
        parse_address(b"0x1234567890abcdef1234567890abcdef1234567890"),
        Err(ParseError::WrongLength)
    ));
}

#[test]
fn rejects_non_hex_character() {
    assert!(matches!(
        parse_address(b"0x1234567890abcdef1234567890abcdef1234567g"),
        Err(ParseError::InvalidDigit)
    ));
}

#[test]
fn from_bytes_accepts_exactly_twenty() {
    let a = Address::from_bytes(SAMPLE_BYTES.to_vec()).unwrap();
    assert_eq!(a.as_bytes().as_slice(), &SAMPLE_BYTES);
    assert!(matches!(
        Address::from_bytes(vec![0u8; 19]),
        Err(ParseError::WrongLength)
    ));
    assert!(matches!(
        Address::from_bytes(vec![0u8; 21]),
        Err(ParseError::WrongLength)
    ));
}

#[test]
fn address_equality_is_byte_for_byte() {
    let a = parse_address(SAMPLE.as_bytes()).unwrap();
    let b = parse_address(SAMPLE.as_bytes()).unwrap();
    let mut other = SAMPLE_BYTES;
    other[19] = 0x79;
    let c = Address::from_bytes(other.to_vec()).unwrap();
    assert!(a.eq_addr(&b));
    assert!(!a.eq_addr(&c));
}

#[test]
fn to_hex_renders_prefixed_lowercase() {
    let a = parse_address("0X1234567890ABCDEF1234567890ABCDEF12345678".as_bytes()).unwrap();
    assert_eq!(a.to_hex(), SAMPLE.as_bytes().to_vec());
}

#[test]
fn to_hex_round_trips_through_parse() {
    let a = Address::from_bytes((0u8..20).map(|i| i.wrapping_mul(13)).collect()).unwrap();
    let b = parse_address(&a.to_hex()).unwrap();
    assert!(a.eq_addr(&b));
}

#[test]
fn startup_succeeds_on_valid_address() {
    let config = Config::from_parts("ws://127.0.0.1:8545/".to_string(), SAMPLE.as_bytes(), FeedMode::NewBlockHeaders).unwrap();
    assert_eq!(config.ws_url, "ws://127.0.0.1:8545/");
    assert_eq!(config.mode, FeedMode::NewBlockHeaders);
    assert_eq!(config.target_address.as_bytes().as_slice(), &SAMPLE_BYTES);
}

#[test]
fn startup_fails_on_malformed_address() {
    assert!(Config::from_parts("ws://127.0.0.1:8545/".to_string(), b"not-an-address", FeedMode::NewBlockHeaders).is_err());
}
