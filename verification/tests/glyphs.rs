use memdbg::glyph::{to_ascii_glyph, to_hex_digit};
use memdbg::write_ascii;

#[test]
fn hex_digit_of_every_nibble() {
    let expected = [
        '0', '1', '2', '3', '4', '5', '6', '7', '8', '9', 'A', 'B', 'C', 'D', 'E', 'F',
    ];
    for nibble in 0u8..16 {
        assert_eq!(to_hex_digit(nibble), expected[nibble as usize]);
    }
}

#[test]
fn named_bytes_are_shown_as_dots() {
    for byte in [0x00u8, 0x09, 0x0A, 0x20, 0x7F] {
        assert_eq!(to_ascii_glyph(byte), '.');
    }
    for byte in 0x80u8..=0xFF {
        assert_eq!(to_ascii_glyph(byte), '.');
    }
}

#[test]
fn control_bytes_are_shown_as_dots() {
    for byte in 0x00u8..=0x20 {
        assert_eq!(to_ascii_glyph(byte), '.');
    }
}

#[test]
fn graphic_bytes_are_shown_as_themselves() {
    for byte in 0x21u8..=0x7E {
        assert_eq!(to_ascii_glyph(byte), byte as char);
    }
    assert_eq!(to_ascii_glyph(0x21), '!');
    assert_eq!(to_ascii_glyph(0x41), 'A');
    assert_eq!(to_ascii_glyph(0x7E), '~');
    assert_eq!(to_ascii_glyph(0x2E), '.');
}

#[test]
fn glyph_agrees_with_std_on_every_byte() {
    for byte in 0u8..=255 {
        let expected = if byte.is_ascii_graphic() { byte as char } else { '.' };
        assert_eq!(to_ascii_glyph(byte), expected);
    }
}

#[test]
fn write_ascii_of_nothing_writes_nothing() {
    let mut out = String::new();
    write_ascii(&mut out, &[]);
    assert_eq!(out, "");
}

#[test]
fn write_ascii_shows_one_glyph_for_each_byte() {
    let mut out = String::new();
    write_ascii(&mut out, &[0x41, 0x20, 0x68, 0x20, 0x90, 0x00]);
    assert_eq!(out, "A.h...");
}

#[test]
fn write_ascii_appends_to_what_is_there() {
    let mut out = String::from("> ");
    write_ascii(&mut out, b"Hello, world!\n");
    assert_eq!(out, "> Hello,.world!.");
    write_ascii(&mut out, &[0x7F, 0x80, 0xFF, 0x7E]);
    assert_eq!(out, "> Hello,.world!....~");
}

#[test]
fn write_ascii_is_not_cut_into_words() {
    let bytes: Vec<u8> = (0x21u8..=0x7E).collect();
    let mut out = String::new();
    write_ascii(&mut out, &bytes);
    let expected: String = (0x21u8..=0x7E).map(|byte| byte as char).collect();
    assert_eq!(out, expected);
    assert_eq!(out.len(), 94);
}
