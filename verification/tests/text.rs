use chocos::text::{c_string_text, integer_text, TextError, DECIMAL_MAX};

#[test]
fn integers_are_printed_in_decimal() {
    assert_eq!(integer_text(0).as_bytes(), b"0");
    assert_eq!(integer_text(9).as_bytes(), b"9");
    assert_eq!(integer_text(10).as_bytes(), b"10");
    assert_eq!(integer_text(1234567890).as_bytes(), b"1234567890");
    assert_eq!(integer_text(4_000_000_000).as_bytes(), b"4000000000");
    assert_eq!(integer_text(u32::MAX).as_bytes(), b"4294967295");
    assert_eq!(DECIMAL_MAX, 10);
    for value in [1u32, 19, 100, 101, 65535, 65536, 999_999_999] {
        assert_eq!(integer_text(value).as_bytes(), format!("{}", value).as_bytes());
    }
}

#[test]
fn equal_integers_have_equal_text() {
    assert_eq!(integer_text(42), integer_text(42));
    assert_ne!(integer_text(42), integer_text(420));
    assert_ne!(integer_text(1), integer_text(10));
}

#[test]
fn c_string_loses_its_terminator() {
    assert_eq!(c_string_text(b"hello\0"), Ok("hello"));
    assert_eq!(c_string_text(b"a\0"), Ok("a"));
    assert_eq!(c_string_text(b"\0"), Ok(""));
    assert_eq!(c_string_text(b"line\n\0"), Ok("line\n"));
}

#[test]
fn c_string_may_hold_any_utf8() {
    assert_eq!(c_string_text("caf\u{e9}\0".as_bytes()), Ok("caf\u{e9}"));
    assert_eq!(c_string_text(&[0xE2, 0x82, 0xAC, 0]), Ok("\u{20ac}"));
    assert_eq!(c_string_text(&[0xF0, 0x9F, 0x98, 0x80, 0]), Ok("\u{1f600}"));
}

#[test]
fn c_string_needs_its_terminator() {
    assert_eq!(c_string_text(b""), Err(TextError::NotTerminated));
    assert_eq!(c_string_text(b"hello"), Err(TextError::NotTerminated));
    assert_eq!(c_string_text(b"he\0llo\0"), Err(TextError::NotTerminated));
    assert_eq!(c_string_text(b"hello\0\0"), Err(TextError::NotTerminated));
    assert_eq!(c_string_text(b"\0hello"), Err(TextError::NotTerminated));
    assert_eq!(c_string_text(&[0xFF, b'a']), Err(TextError::NotTerminated));
}

#[test]
fn c_string_must_be_utf8() {
    assert_eq!(c_string_text(&[0xFF, 0]), Err(TextError::NotUtf8));
    assert_eq!(c_string_text(&[b'a', 0x80, 0]), Err(TextError::NotUtf8));
    assert_eq!(c_string_text(&[0xC3, 0]), Err(TextError::NotUtf8));
    assert_eq!(c_string_text(&[0xC0, 0x80, 0]), Err(TextError::NotUtf8));
    assert_eq!(c_string_text(&[0xED, 0xA0, 0x80, 0]), Err(TextError::NotUtf8));
}
