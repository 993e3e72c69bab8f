use hotline_tracker::macroman::MacRomanString;
use hotline_tracker::{char_to_macroman, macroman_to_char, macroman_to_string, string_to_macroman};

#[test]
fn it_can_store_a_string() {
    let mrs: MacRomanString<10> = MacRomanString::from_text("spike").unwrap();

    let s = mrs.as_string();

    assert_eq!(s, "spike".to_owned());
}

#[test]
fn every_byte_round_trips_through_its_character() {
    for b in 0..=255u8 {
        assert_eq!(char_to_macroman(macroman_to_char(b)), b, "byte {b}");
    }
}

#[test]
fn table_entries_match_the_code_page() {
    assert_eq!(macroman_to_char(0xA5), '\u{2022}');
    assert_eq!(macroman_to_char(0xD8), '\u{ff}');
    assert_eq!(macroman_to_char(0xDA), '\u{2044}');
    assert_eq!(macroman_to_char(0x80), '\u{c4}');
    assert_eq!(macroman_to_char(0xFF), '\u{2c7}');
    assert_eq!(macroman_to_char(b'A'), 'A');
    assert_eq!(macroman_to_char(0x07), '\u{7}');
    assert_eq!(char_to_macroman('\u{2022}'), 0xA5);
    assert_eq!(char_to_macroman('\u{2044}'), 0xDA);
}

#[test]
fn unrepresentable_character_falls_back_to_its_low_byte() {
    // U+0141 is not in the code page; its low byte is 0x41.
    assert_eq!(char_to_macroman('\u{141}'), 0x41);
}

#[test]
fn strings_convert_both_ways() {
    assert_eq!(macroman_to_string(&[0x48, 0x69, 0xA5, 0x8E]), "Hi\u{2022}\u{e9}");
    assert_eq!(string_to_macroman("Hi\u{2022}\u{e9}"), vec![0x48, 0x69, 0xA5, 0x8E]);
    assert_eq!(macroman_to_string(&[]), "");
    assert_eq!(string_to_macroman(""), Vec::<u8>::new());
}

#[test]
fn macroman_string_holds_up_to_its_capacity() {
    let empty: MacRomanString<255> = MacRomanString::from_bytes(&[]).unwrap();
    assert!(empty.is_empty());
    assert_eq!(empty.len(), 0);

    let full: MacRomanString<255> = MacRomanString::from_bytes(&[b'x'; 255]).unwrap();
    assert_eq!(full.len(), 255);
    assert_eq!(full.as_bytes(), &[b'x'; 255][..]);

    assert!(MacRomanString::<255>::from_bytes(&[b'x'; 256]).is_none());
    assert!(MacRomanString::<10>::from_bytes(&[b'x'; 11]).is_none());
    assert!(MacRomanString::<10>::from_text("eleven char").is_none());
}

#[test]
fn macroman_string_set_and_write() {
    let mut s: MacRomanString<255> = MacRomanString::default();
    s.set(b"abc");
    assert_eq!(s.as_bytes(), b"abc");
    let mut buf = vec![9u8];
    s.write_to_buf(&mut buf);
    assert_eq!(buf, vec![9, 3, b'a', b'b', b'c']);
}

#[test]
fn macroman_string_equality_is_byte_for_byte() {
    let a: MacRomanString<255> = MacRomanString::from_bytes(b"abc").unwrap();
    let b: MacRomanString<255> = MacRomanString::from_text("abc").unwrap();
    let c: MacRomanString<255> = MacRomanString::from_bytes(b"abd").unwrap();
    assert!(a == b);
    assert!(a != c);
    assert!(a.clone() == a);
}
