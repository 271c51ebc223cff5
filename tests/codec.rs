use hex_editor::codec::{byte_to_hex, decode, encode, hex_digit, DecodeError, HexCache};

#[test]
fn encode_empty_and_bytes() {
    assert_eq!(encode(&[]), "");
    assert_eq!(encode(&[0xDE, 0xAD, 0x00, 0x0F]), "DE AD 00 0F");
    assert_eq!(encode(&[0x7]), "07");
}

#[test]
fn decode_valid_text() {
    let cache = HexCache::new();
    assert_eq!(decode("DE AD", &cache), Ok(vec![0xDE, 0xAD]));
    assert_eq!(decode("  DE  AD\nBE\tEF \r\n", &cache), Ok(vec![0xDE, 0xAD, 0xBE, 0xEF]));
    assert_eq!(decode("", &cache), Ok(vec![]));
}

#[test]
fn decode_invalid_token_keeps_prior_state() {
    let cache = HexCache::new();
    let mut saved: Vec<u8> = vec![1, 2, 3];
    match decode("DE AZ", &cache) {
        Ok(bytes) => saved = bytes,
        Err(e) => assert_eq!(e, DecodeError::InvalidToken),
    }
    assert_eq!(saved, vec![1, 2, 3]);
}

#[test]
fn decode_rejects_bad_tokens() {
    let cache = HexCache::new();
    assert_eq!(decode("DEA", &cache), Err(DecodeError::InvalidToken));
    assert_eq!(decode("D", &cache), Err(DecodeError::InvalidToken));
    assert_eq!(decode("de", &cache), Err(DecodeError::InvalidToken));
    assert_eq!(decode("D\u{c9}", &cache), Err(DecodeError::InvalidToken));
    assert_eq!(decode("00 11 GG", &cache), Err(DecodeError::InvalidToken));
}

#[test]
fn round_trip_every_byte() {
    let cache = HexCache::new();
    let all: Vec<u8> = (0..=255u8).collect();
    let text = encode(&all);
    assert_eq!(text.len(), 256 * 3 - 1);
    assert_eq!(decode(&text, &cache), Ok(all));
    assert_eq!(decode(&encode(&[]), &cache), Ok(vec![]));
}

#[test]
fn cache_lookup() {
    let cache = HexCache::new();
    assert_eq!(cache.lookup('F', 'F'), Some(255));
    assert_eq!(cache.lookup('0', 'A'), Some(10));
    assert_eq!(cache.lookup('G', '0'), None);
    assert_eq!(cache.lookup('a', '0'), None);
    assert_eq!(cache.lookup('\u{e9}', '0'), None);
}

#[test]
fn single_tokens() {
    assert_eq!(byte_to_hex(0xAB), "AB");
    assert_eq!(byte_to_hex(0x05), "05");
    assert_eq!(hex_digit(15), 'F');
    assert_eq!(hex_digit(9), '9');
}
