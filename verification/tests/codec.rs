use ws_tunnel::codec::{Base64Error, HexError};
use ws_tunnel::proxy::{parse_early_data, parse_user_id, to_url_safe, wrap_early_data, PumpFault};

#[test]
fn a_credential_is_decoded_from_hexadecimal() {
    assert_eq!(
        parse_user_id("d342d11ed4244a839ef58d2a11076099"),
        Ok(vec![
            0xd3, 0x42, 0xd1, 0x1e, 0xd4, 0x24, 0x4a, 0x83, 0x9e, 0xf5, 0x8d, 0x2a, 0x11, 0x07,
            0x60, 0x99
        ])
    );
    assert_eq!(parse_user_id(""), Ok(vec![]));
    assert_eq!(parse_user_id("00ff"), Ok(vec![0x00, 0xff]));
}

#[test]
fn hexadecimal_digits_may_be_of_either_case() {
    assert_eq!(parse_user_id("AbCdEf09"), Ok(vec![0xab, 0xcd, 0xef, 0x09]));
    assert_eq!(parse_user_id("F9b4Ca"), Ok(vec![0xf9, 0xb4, 0xca]));
}

#[test]
fn an_odd_number_of_digits_is_refused_first() {
    assert_eq!(parse_user_id("123"), Err(HexError::OddLength));
    assert_eq!(parse_user_id("zzz"), Err(HexError::OddLength));
    assert_eq!(parse_user_id("a"), Err(HexError::OddLength));
}

#[test]
fn the_first_character_that_is_no_digit_is_reported() {
    assert_eq!(parse_user_id("12g4"), Err(HexError::InvalidHexCharacter { c: 'g', index: 2 }));
    assert_eq!(parse_user_id("1x2y"), Err(HexError::InvalidHexCharacter { c: 'x', index: 1 }));
    assert_eq!(parse_user_id("zz"), Err(HexError::InvalidHexCharacter { c: 'z', index: 0 }));
    assert_eq!(parse_user_id("12 4"), Err(HexError::InvalidHexCharacter { c: ' ', index: 2 }));
    assert_eq!(
        parse_user_id("d342d11e-d424-4a83-9ef5-8d2a11076099"),
        Err(HexError::InvalidHexCharacter { c: '-', index: 8 })
    );
}

#[test]
fn base64_text_is_made_url_safe() {
    assert_eq!(to_url_safe(""), "");
    assert_eq!(to_url_safe("ab+/=="), "ab-_");
    assert_eq!(to_url_safe("+++"), "---");
    assert_eq!(to_url_safe("=a=b="), "ab");
    assert_eq!(to_url_safe("a-b_c"), "a-b_c");
    assert_eq!(to_url_safe("é+ü"), "é-ü");
}

#[test]
fn no_text_is_no_early_data() {
    assert_eq!(parse_early_data(None), Ok(None));
    assert_eq!(parse_early_data(Some(String::new())), Ok(None));
}

#[test]
fn early_data_is_decoded_from_base64() {
    assert_eq!(parse_early_data(Some(String::from("aGVsbG8"))), Ok(Some(b"hello".to_vec())));
    // padding is left out before decoding
    assert_eq!(parse_early_data(Some(String::from("aGVsbG8="))), Ok(Some(b"hello".to_vec())));
    assert_eq!(parse_early_data(Some(String::from("aGk=="))), Ok(Some(b"hi".to_vec())));
    // only padding decodes to nothing, which is still early data
    assert_eq!(parse_early_data(Some(String::from("=="))), Ok(Some(vec![])));
}

#[test]
fn both_alphabets_are_accepted() {
    // 0xfb 0xff 0xfe is "+//+" in the standard alphabet and "-__-" in the URL-safe one
    assert_eq!(parse_early_data(Some(String::from("+//+"))), Ok(Some(vec![0xfb, 0xff, 0xfe])));
    assert_eq!(parse_early_data(Some(String::from("-__-"))), Ok(Some(vec![0xfb, 0xff, 0xfe])));
    assert_eq!(parse_early_data(Some(String::from("AAECAwQF"))), Ok(Some(vec![0, 1, 2, 3, 4, 5])));
}

#[test]
fn text_that_is_no_base64_is_refused() {
    assert_eq!(
        parse_early_data(Some(String::from("a b"))),
        Err(Base64Error::InvalidByte(1, b' '))
    );
    assert_eq!(parse_early_data(Some(String::from("a"))), Err(Base64Error::InvalidLength));
    assert_eq!(parse_early_data(Some(String::from("aGVsbG9"))), Err(Base64Error::InvalidLastSymbol(6, b'9')));
    assert!(parse_early_data(Some(String::from("héllo"))).is_err());
}

#[test]
fn decoded_bytes_become_early_data() {
    assert_eq!(wrap_early_data(Ok(vec![1, 2])), Ok(Some(vec![1, 2])));
    assert_eq!(wrap_early_data(Ok(vec![])), Ok(Some(vec![])));
    assert_eq!(wrap_early_data(Err(Base64Error::InvalidLength)), Err(Base64Error::InvalidLength));
    assert_eq!(
        wrap_early_data(Err(Base64Error::InvalidByte(3, 0x20))),
        Err(Base64Error::InvalidByte(3, 0x20))
    );
}

#[test]
fn every_fault_but_the_unknown_is_benign() {
    assert!(PumpFault::BrokenPipe.is_benign());
    assert!(PumpFault::PeerReset.is_benign());
    assert!(PumpFault::ShutdownRace.is_benign());
    assert!(!PumpFault::Other.is_benign());
}
