use seeyou_cub::{decode_string, ByteReader, ByteString};

#[test]
fn read_from_reader() {
    let data = b"Hello World";
    let mut cursor = ByteReader::new(data.to_vec());
    let bs = ByteString::read(&mut cursor, data.len()).unwrap();
    assert_eq!(bs.as_bytes(), b"Hello World");
}

#[test]
fn read_zero_length() {
    let data = b"Hello";
    let mut cursor = ByteReader::new(data.to_vec());
    let bs = ByteString::read(&mut cursor, 0).unwrap();
    assert_eq!(bs.as_bytes(), b"");
}

#[test]
fn debug_valid_utf8() {
    let bs = ByteString::new(b"Hello World".to_vec());
    assert_eq!(bs.debug_string(), "\"Hello World\"");
}

#[test]
fn debug_utf8_with_special_chars() {
    let bs = ByteString::new("Zürich".as_bytes().to_vec());
    assert_eq!(bs.debug_string(), "\"Zürich\"");
}

#[test]
fn debug_invalid_utf8() {
    let bs = ByteString::new(vec![0xE9]);
    assert_eq!(bs.debug_string(), "b\"\\xe9\"");
}

#[test]
fn debug_mixed_extended_ascii() {
    let bs = ByteString::new(vec![0x48, 0x65, 0x6C, 0x6C, 0x6F, 0x20, 0xE9]);
    assert_eq!(bs.debug_string(), "b\"Hello \\xe9\"");
}

#[test]
fn debug_empty() {
    let bs = ByteString::new(vec![]);
    assert_eq!(bs.debug_string(), "\"\"");
}

#[test]
fn as_bytes() {
    let bs = ByteString::new(b"test".to_vec());
    assert_eq!(bs.as_bytes(), b"test");
}

#[test]
fn into_bytes() {
    let bs = ByteString::new(b"test".to_vec());
    assert_eq!(bs.into_bytes(), b"test");
}

#[test]
fn from_vec() {
    let bs = ByteString::from(b"test".to_vec());
    assert_eq!(bs.as_bytes(), b"test");
}

#[test]
fn byte_string_decode_utf8_string() {
    let bs = ByteString::new(b"Hello World".to_vec());
    assert_eq!(bs.decode(), "Hello World");
}

#[test]
fn byte_string_decode_utf8_with_special_chars() {
    let bs = ByteString::new("Zürich".as_bytes().to_vec());
    assert_eq!(bs.decode(), "Zürich");
}

#[test]
fn byte_string_decode_cp1252_fallback() {
    let bs = ByteString::new(vec![0xE9]);
    assert_eq!(bs.decode(), "é");
}

#[test]
fn byte_string_decode_empty_string() {
    let bs = ByteString::new(vec![]);
    assert_eq!(bs.decode(), "");
}

#[test]
fn byte_string_decode_mixed_extended_ascii() {
    let bs = ByteString::new(vec![0x48, 0x65, 0x6C, 0x6C, 0x6F, 0x20, 0xE9]);
    assert_eq!(bs.decode(), "Hello é");
}

#[test]
fn write_to_writer() {
    let bs = ByteString::new(b"Hello World".to_vec());
    let mut buf = Vec::new();
    let written = bs.write(&mut buf).unwrap();
    assert_eq!(written, 11);
    assert_eq!(buf, b"Hello World");
}

#[test]
fn write_empty() {
    let bs = ByteString::new(vec![]);
    let mut buf = Vec::new();
    let written = bs.write(&mut buf).unwrap();
    assert_eq!(written, 0);
    assert_eq!(buf, b"");
}

#[test]
fn decode_decode_utf8_string() {
    assert_eq!(decode_string(b"Hello World"), "Hello World");
}

#[test]
fn decode_decode_utf8_with_special_chars() {
    assert_eq!(decode_string("Zürich".as_bytes()), "Zürich");
}

#[test]
fn decode_decode_cp1252_fallback() {
    assert_eq!(decode_string(&[0xE9]), "é");
}

#[test]
fn decode_decode_empty_string() {
    assert_eq!(decode_string(&[]), "");
}

#[test]
fn decode_decode_mixed_extended_ascii() {
    assert_eq!(decode_string(&[0x48, 0x65, 0x6C, 0x6C, 0x6F, 0x20, 0xE9]), "Hello é");
}

#[test]
fn decode_cp1252_specific_code_points() {
    // 0x80 is the euro sign and 0x93/0x94 curly quotes in Windows-1252,
    // which differ from Latin-1.
    assert_eq!(decode_string(&[0x80, 0x93, 0x41, 0x94]), "€\u{201C}A\u{201D}");
}

#[test]
fn duplicate_keeps_bytes() {
    let bs = ByteString::new(vec![1, 2, 3]);
    assert_eq!(bs.duplicate(), bs);
    assert_eq!(bs.len(), 3);
}
