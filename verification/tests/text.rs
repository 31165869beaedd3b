use file_bridge::error::FsError;
use file_bridge::text::decode_text;
use file_bridge::text::utf8_check;

#[test]
fn decode_valid_ascii() {
    assert_eq!(decode_text(b"hello".to_vec()), Ok("hello".to_string()));
}

#[test]
fn decode_empty() {
    assert_eq!(decode_text(Vec::new()), Ok(String::new()));
}

#[test]
fn decode_multibyte() {
    let text = "h\u{e9}llo \u{20ac}\u{10348}";
    assert_eq!(decode_text(text.as_bytes().to_vec()), Ok(text.to_string()));
}

#[test]
fn decode_euro_sign() {
    assert_eq!(decode_text(vec![0xe2, 0x82, 0xac]), Ok("\u{20ac}".to_string()));
}

#[test]
fn decode_width_boundaries() {
    assert_eq!(decode_text(vec![0xc2, 0x80]), Ok("\u{80}".to_string()));
    assert_eq!(decode_text(vec![0xdf, 0xbf]), Ok("\u{7ff}".to_string()));
    assert_eq!(decode_text(vec![0xe0, 0xa0, 0x80]), Ok("\u{800}".to_string()));
    assert_eq!(decode_text(vec![0xed, 0x9f, 0xbf]), Ok("\u{d7ff}".to_string()));
    assert_eq!(decode_text(vec![0xee, 0x80, 0x80]), Ok("\u{e000}".to_string()));
    assert_eq!(decode_text(vec![0xf0, 0x90, 0x8d, 0x88]), Ok("\u{10348}".to_string()));
    assert_eq!(decode_text(vec![0xf4, 0x8f, 0xbf, 0xbf]), Ok("\u{10ffff}".to_string()));
}

#[test]
fn decode_rejects_lone_continuation() {
    assert_eq!(decode_text(vec![0x80]), Err(FsError::InvalidEncoding));
}

#[test]
fn decode_rejects_overlong_two_bytes() {
    assert_eq!(decode_text(vec![0xc0, 0xaf]), Err(FsError::InvalidEncoding));
    assert_eq!(decode_text(vec![0xc1, 0xbf]), Err(FsError::InvalidEncoding));
}

#[test]
fn decode_rejects_overlong_three_bytes() {
    assert_eq!(decode_text(vec![0xe0, 0x9f, 0xbf]), Err(FsError::InvalidEncoding));
}

#[test]
fn decode_rejects_overlong_four_bytes() {
    assert_eq!(decode_text(vec![0xf0, 0x8f, 0xbf, 0xbf]), Err(FsError::InvalidEncoding));
}

#[test]
fn decode_rejects_surrogate() {
    assert_eq!(decode_text(vec![0xed, 0xa0, 0x80]), Err(FsError::InvalidEncoding));
    assert_eq!(decode_text(vec![0xed, 0xbf, 0xbf]), Err(FsError::InvalidEncoding));
}

#[test]
fn decode_rejects_truncated_sequences() {
    assert_eq!(decode_text(vec![0xc2]), Err(FsError::InvalidEncoding));
    assert_eq!(decode_text(vec![0xe2, 0x82]), Err(FsError::InvalidEncoding));
    assert_eq!(decode_text(vec![0xf0, 0x90, 0x8d]), Err(FsError::InvalidEncoding));
}

#[test]
fn decode_rejects_bad_continuation() {
    assert_eq!(decode_text(vec![0xc2, 0x41]), Err(FsError::InvalidEncoding));
    assert_eq!(decode_text(vec![0xe2, 0x82, 0xc0]), Err(FsError::InvalidEncoding));
}

#[test]
fn decode_rejects_beyond_max_scalar() {
    assert_eq!(decode_text(vec![0xf4, 0x90, 0x80, 0x80]), Err(FsError::InvalidEncoding));
    assert_eq!(decode_text(vec![0xf5, 0x80, 0x80, 0x80]), Err(FsError::InvalidEncoding));
    assert_eq!(decode_text(vec![0xff]), Err(FsError::InvalidEncoding));
}

#[test]
fn decode_rejects_invalid_after_valid_prefix() {
    let mut bytes = b"fine so far".to_vec();
    bytes.push(0xed);
    bytes.push(0xa0);
    bytes.push(0x80);
    assert_eq!(decode_text(bytes), Err(FsError::InvalidEncoding));
}

#[test]
fn check_agrees_with_std_decoder() {
    let samples: Vec<Vec<u8>> = vec![
        Vec::new(),
        b"hello".to_vec(),
        "h\u{e9}llo \u{20ac}\u{10348}".as_bytes().to_vec(),
        vec![0x80],
        vec![0xc0, 0xaf],
        vec![0xc2],
        vec![0xc2, 0x80],
        vec![0xe0, 0x9f, 0xbf],
        vec![0xe0, 0xa0, 0x80],
        vec![0xed, 0x9f, 0xbf],
        vec![0xed, 0xa0, 0x80],
        vec![0xf0, 0x8f, 0xbf, 0xbf],
        vec![0xf0, 0x90, 0x80, 0x80],
        vec![0xf4, 0x8f, 0xbf, 0xbf],
        vec![0xf4, 0x90, 0x80, 0x80],
        vec![0xf5, 0x80, 0x80, 0x80],
        vec![0xfe, 0xff],
        vec![0x68, 0xe2, 0x82, 0x69],
    ];
    for bytes in samples {
        assert_eq!(utf8_check(&bytes), std::str::from_utf8(&bytes).is_ok());
    }
}

#[test]
fn round_trip_known_content() {
    for content in ["", "hello", "h\u{e9}llo", "\u{10348} \u{20ac} mixed"] {
        assert_eq!(decode_text(content.as_bytes().to_vec()), Ok(content.to_string()));
    }
}
