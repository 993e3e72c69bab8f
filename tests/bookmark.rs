use hotline_tracker::bookmark::{Bookmark, BookmarkError};

#[test]
fn bookmark_round_trip() {
    let mut b = Bookmark::new("24.30.100.120".to_string());
    b.credentials("star".to_string(), "guest".to_string());
    assert!(b.fits());
    let bytes = b.to_bytes();
    assert_eq!(bytes.len(), 460);
    assert_eq!(&bytes[0..4], b"HTsc");
    assert_eq!(&bytes[4..6], &[0, 1]);
    assert_eq!(bytes[135], 4);
    assert_eq!(&bytes[136..140], b"star");
    assert_eq!(bytes[169], 5);
    assert_eq!(&bytes[170..175], b"guest");
    assert_eq!(bytes[203], 13);
    assert!(bytes[6..135].iter().all(|&x| x == 0));
    let back = Bookmark::from_bytes(&bytes).unwrap();
    assert_eq!(back.address, b.address);
    assert_eq!(back.username, b.username);
    assert_eq!(back.password, b.password);
}

#[test]
fn bookmark_fields_too_long_do_not_fit() {
    let mut b = Bookmark::new("host".to_string());
    b.credentials("u".repeat(34), String::new());
    assert!(!b.fits());
    b.credentials("u".repeat(33), "p".repeat(33));
    assert!(b.fits());
    let b = Bookmark::new("a".repeat(256));
    assert!(!b.fits());
}

#[test]
fn bookmark_errors() {
    let good = Bookmark::new("host".to_string()).to_bytes();
    assert_eq!(Bookmark::from_bytes(&good[..5]).unwrap_err(), BookmarkError::TooShort);
    assert_eq!(Bookmark::from_bytes(&good[..200]).unwrap_err(), BookmarkError::TooShort);
    assert_eq!(Bookmark::from_bytes(&good[..207]).unwrap_err(), BookmarkError::TooShort);
    assert!(Bookmark::from_bytes(&good[..208]).is_ok());
    let mut bad = good.clone();
    bad[0] = b'X';
    assert_eq!(Bookmark::from_bytes(&bad).unwrap_err(), BookmarkError::BadMagic);
    let mut bad = good.clone();
    bad[5] = 2;
    assert_eq!(Bookmark::from_bytes(&bad).unwrap_err(), BookmarkError::BadVersion);
    let mut bad = good.clone();
    bad[135] = 34;
    assert_eq!(Bookmark::from_bytes(&bad).unwrap_err(), BookmarkError::FieldTooLong);
}

#[test]
fn bookmark_fields_decode_from_macroman() {
    let mut bytes = Bookmark::new(String::new()).to_bytes();
    bytes[135] = 2;
    bytes[136] = 0xA5;
    bytes[137] = b'x';
    let b = Bookmark::from_bytes(&bytes).unwrap();
    assert_eq!(b.username, "\u{2022}x");
}
