use hotline_tracker::header::Header;
use hotline_tracker::macroman::MacRomanString;
use hotline_tracker::registration_record::RegistrationRecord;
use hotline_tracker::server_record::ServerRecord;
use hotline_tracker::update_record::UpdateRecord;

fn mrs(s: &str) -> MacRomanString<255> {
    MacRomanString::from_text(s).unwrap()
}

#[test]
fn it_parses_back_and_forth() {
    let r = RegistrationRecord {
        name: mrs("Test server"),
        description: mrs("just a test"),
        id: 1234,
        ..Default::default()
    };

    let data = r.to_bytes();
    let new_r = RegistrationRecord::from_bytes(&data).unwrap();

    assert_eq!(r, new_r);
}

#[test]
fn registration_wire_layout() {
    let r = RegistrationRecord {
        port: 5500,
        users_online: 3,
        reserved: 0,
        id: 42,
        name: mrs("Alpha"),
        description: mrs("test"),
        password: mrs(""),
    };
    let data = r.to_bytes();
    assert_eq!(data.len(), 15 + 5 + 4);
    assert_eq!(
        data,
        vec![
            0, 1, 0x15, 0x7c, 0, 3, 0, 0, 0, 0, 0, 42, 5, b'A', b'l', b'p', b'h', b'a', 4, b't',
            b'e', b's', b't', 0
        ]
    );
}

#[test]
fn registration_strings_at_both_length_limits() {
    for n in [0usize, 255] {
        let bytes = vec![b'z'; n];
        let r = RegistrationRecord {
            id: 7,
            name: MacRomanString::from_bytes(&bytes).unwrap(),
            description: MacRomanString::from_bytes(&bytes).unwrap(),
            password: MacRomanString::from_bytes(&bytes).unwrap(),
            ..Default::default()
        };
        let data = r.to_bytes();
        assert_eq!(data.len(), 15 + 3 * n);
        assert_eq!(RegistrationRecord::from_bytes(&data).unwrap(), r);
    }
    assert!(MacRomanString::<255>::from_bytes(&vec![b'z'; 256]).is_none());
}

#[test]
fn registration_with_trailing_garbage_is_rejected() {
    let r = RegistrationRecord { id: 9, name: mrs("n"), ..Default::default() };
    let mut data = r.to_bytes();
    data.push(0);
    assert!(RegistrationRecord::from_bytes(&data).is_none());
}

#[test]
fn registration_too_short_or_wrong_version_is_rejected() {
    let r = RegistrationRecord { id: 9, name: mrs("name"), ..Default::default() };
    let data = r.to_bytes();
    assert!(RegistrationRecord::from_bytes(&data[..14]).is_none());
    assert!(RegistrationRecord::from_bytes(&data[..data.len() - 1]).is_none());
    let mut wrong = data.clone();
    wrong[1] = 2;
    assert!(RegistrationRecord::from_bytes(&wrong).is_none());
}

#[test]
fn registration_defaults() {
    let r = RegistrationRecord::default();
    assert_eq!(r.port, 5500);
    assert_eq!(r.id, 0);
    assert!(r.name.is_empty() && r.description.is_empty() && r.password.is_empty());
}

#[test]
fn registration_becomes_server_record_at_its_address() {
    let r = RegistrationRecord {
        port: 6000,
        users_online: 2,
        reserved: 5,
        id: 1,
        name: mrs("A"),
        description: mrs("B"),
        password: mrs("secret"),
    };
    let s = r.to_server_record([10, 0, 0, 1]);
    assert_eq!(s.address, [10, 0, 0, 1]);
    assert_eq!((s.port, s.users_online, s.reserved), (6000, 2, 5));
    assert_eq!(s.name.as_string(), "A");
    assert_eq!(s.description.as_string(), "B");
}

#[test]
fn server_record_round_trips_and_reports_its_size() {
    let s = ServerRecord {
        address: [24, 30, 100, 120],
        port: 5500,
        users_online: 6,
        reserved: 0,
        name: mrs("Alpha"),
        description: mrs("test"),
    };
    let bytes = s.as_bytes();
    assert_eq!(bytes.len(), s.data_size());
    assert_eq!(s.data_size(), 12 + 5 + 4);
    let mut more = bytes.clone();
    more.extend_from_slice(&[1, 2, 3]);
    let back = ServerRecord::from_bytes(&more).unwrap();
    assert_eq!(back.address, s.address);
    assert_eq!((back.port, back.users_online, back.reserved), (5500, 6, 0));
    assert!(back.name == s.name && back.description == s.description);
}

#[test]
fn server_record_needs_all_its_bytes() {
    let s = ServerRecord { name: mrs("Alpha"), description: mrs("test"), ..Default::default() };
    let bytes = s.as_bytes();
    for k in 0..bytes.len() {
        assert!(ServerRecord::from_bytes(&bytes[..k]).is_none(), "prefix {k}");
    }
    assert!(ServerRecord::from_bytes(&bytes).is_some());
}

#[test]
fn server_record_defaults() {
    let s = ServerRecord::default();
    assert_eq!(s.address, [127, 0, 0, 1]);
    assert_eq!(s.port, 5500);
    assert_eq!(s.name.as_string(), "Hotline Server");
    assert!(s.description.is_empty());
    let mut buf = Vec::new();
    assert_eq!(s.put_slice(&mut buf), 12 + 14);
}

#[test]
fn update_record_round_trips() {
    let u = UpdateRecord { version: 1, remaining_data_size: 21, total_servers: 1, remaining_servers: 1 };
    let bytes = u.as_bytes();
    assert_eq!(bytes, vec![0, 1, 0, 21, 0, 1, 0, 1]);
    assert_eq!(u.data_size(), 8);
    assert_eq!(UpdateRecord::from_bytes(&bytes), Some(u));
    assert_eq!(UpdateRecord::from_bytes(&bytes[..7]), None);
}

#[test]
fn header_default_is_valid_and_six_bytes() {
    let h = Header::default();
    assert!(h.is_valid());
    assert_eq!(h.as_bytes(), b"HTRK\x00\x01".to_vec());
    let mut buf = Vec::new();
    assert_eq!(h.put_slice(&mut buf), 6);
}

#[test]
fn header_reads_and_checks() {
    assert!(Header::from_bytes(b"HTRK\x00").is_none());
    assert!(Header::from_bytes(b"HTRK\x00\x01").unwrap().is_valid());
    assert!(!Header::from_bytes(b"HTRX\x00\x01").unwrap().is_valid());
    assert!(!Header::from_bytes(b"HTRK\x00\x02").unwrap().is_valid());
}
