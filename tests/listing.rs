use hotline_tracker::listing_codec::{HLTrackerCodec, ListingError, State};
use hotline_tracker::macroman::MacRomanString;
use hotline_tracker::server_record::ServerRecord;
use hotline_tracker::tracker_codec::{CodecError, TrackerCodec};
use hotline_tracker::update_record::UpdateRecord;
use hotline_tracker::TrackerPacket;

fn record(address: [u8; 4], name: &str, description: &str) -> ServerRecord {
    ServerRecord {
        address,
        port: 5500,
        users_online: 3,
        reserved: 0,
        name: MacRomanString::from_text(name).unwrap(),
        description: MacRomanString::from_text(description).unwrap(),
    }
}

fn after_header() -> HLTrackerCodec {
    let mut c = HLTrackerCodec::new();
    match c.decode(b"HTRK\x00\x01") {
        Ok(Some((TrackerPacket::Header, 6))) => {}
        other => panic!("unexpected {other:?}"),
    }
    c
}

#[test]
fn header_needs_six_bytes_then_decodes() {
    let mut c = HLTrackerCodec::new();
    assert!(matches!(c.decode(b"HTR"), Ok(None)));
    assert_eq!(c.state, State::Initialized);
    assert!(matches!(c.decode(b"HTRK\x00\x01"), Ok(Some((TrackerPacket::Header, 6)))));
    assert_eq!(c.state, State::ReceivedHeader);
}

#[test]
fn invalid_header_is_an_error() {
    let mut c = HLTrackerCodec::new();
    match c.decode(b"HTXX\x00\x07") {
        Err(ListingError::InvalidHeader(m, v)) => {
            assert_eq!(&m, b"HTXX");
            assert_eq!(v, 7);
        }
        other => panic!("unexpected {other:?}"),
    }
}

#[test]
fn name_length_byte_split_across_reads_resumes() {
    let mut c = after_header();
    let bytes = record([10, 0, 0, 1], "Alpha", "test").as_bytes();
    // The first read ends just before the name length byte at offset 10.
    assert!(matches!(c.decode(&bytes[..10]), Ok(None)));
    assert_eq!(c.received_server_count, 0);
    // The first read holds the length byte but not the name.
    assert!(matches!(c.decode(&bytes[..11]), Ok(None)));
    match c.decode(&bytes) {
        Ok(Some((TrackerPacket::Server(s), n))) => {
            assert_eq!(n, bytes.len());
            assert_eq!(s.name.as_string(), "Alpha");
            assert_eq!(s.description.as_string(), "test");
            assert_eq!(s.address, [10, 0, 0, 1]);
        }
        other => panic!("unexpected {other:?}"),
    }
    assert_eq!(c.received_server_count, 1);
}

#[test]
fn whole_listing_decodes_then_completes_once() {
    let mut stream = b"HTRK\x00\x01".to_vec();
    let a = record([10, 0, 0, 1], "Alpha", "test");
    let b = record([10, 0, 0, 2], "Beta", "");
    let update = UpdateRecord {
        version: 1,
        remaining_data_size: (a.data_size() + b.data_size()) as u16,
        total_servers: 2,
        remaining_servers: 2,
    };
    stream.extend(update.as_bytes());
    stream.extend(a.as_bytes());
    stream.extend(b.as_bytes());

    let mut c = HLTrackerCodec::new();
    let mut at = 0;
    let mut seen = Vec::new();
    loop {
        match c.decode(&stream[at..]).unwrap() {
            None => break,
            Some((p, n)) => {
                at += n;
                let done = matches!(p, TrackerPacket::Complete);
                seen.push(p);
                if done {
                    break;
                }
            }
        }
    }
    assert_eq!(at, stream.len());
    assert_eq!(seen.len(), 5);
    assert!(matches!(seen[0], TrackerPacket::Header));
    assert!(matches!(seen[1], TrackerPacket::Update(u) if u == update));
    assert!(matches!(&seen[2], TrackerPacket::Server(s) if s.name.as_string() == "Alpha"));
    assert!(matches!(&seen[3], TrackerPacket::Server(s) if s.name.as_string() == "Beta"));
    assert!(matches!(seen[4], TrackerPacket::Complete));
    assert_eq!(c.state, State::Completed);
    assert!(matches!(c.decode(&[]), Ok(None)));
}

#[test]
fn record_from_address_zero_reads_as_update() {
    let mut c = after_header();
    let bytes = record([0, 0, 0, 0], "Zero", "").as_bytes();
    match c.decode(&bytes) {
        Ok(Some((TrackerPacket::Update(_), 8))) => {}
        other => panic!("unexpected {other:?}"),
    }
    assert_eq!(c.received_server_count, 0);
}

#[test]
fn empty_listing_completes_after_update() {
    let mut c = after_header();
    let update = UpdateRecord { version: 1, remaining_data_size: 0, total_servers: 0, remaining_servers: 0 };
    assert!(matches!(c.decode(&update.as_bytes()), Ok(Some((TrackerPacket::Update(_), 8)))));
    assert!(matches!(c.decode(&[]), Ok(Some((TrackerPacket::Complete, 0)))));
}

#[test]
fn tracker_codec_awaits_a_whole_header() {
    let mut codec = TrackerCodec::new();
    assert!(matches!(codec.decode(b"HTRK"), Ok(None)));
    assert!(matches!(codec.decode_eof(b"HTRK"), Err(CodecError::NoHeader)));
    assert!(matches!(codec.decode(b"HTRK\x00\x01"), Ok(Some((TrackerPacket::Header, 6)))));
    assert!(matches!(codec.decode(b"x"), Err(CodecError::UnexpectedData)));
}

#[test]
fn tracker_codec_rejects_a_bad_header() {
    let mut codec = TrackerCodec::new();
    match codec.decode(b"HTRK\x00\x02") {
        Err(CodecError::InvalidHeader(m, v)) => {
            assert_eq!(&m, b"HTRK");
            assert_eq!(v, 2);
        }
        other => panic!("unexpected {other:?}"),
    }
}

#[test]
fn tracker_codec_encodes_each_packet() {
    let mut codec = TrackerCodec::new();
    let mut out = Vec::new();
    codec.encode(TrackerPacket::Header, &mut out);
    assert_eq!(out, b"HTRK\x00\x01".to_vec());
    let update = UpdateRecord { version: 1, remaining_data_size: 21, total_servers: 1, remaining_servers: 1 };
    codec.encode(TrackerPacket::Update(update), &mut out);
    let s = record([10, 0, 0, 1], "Alpha", "test");
    let expected = s.as_bytes();
    codec.encode(TrackerPacket::Server(Box::new(s)), &mut out);
    codec.encode(TrackerPacket::Complete, &mut out);
    assert_eq!(out.len(), 6 + 8 + 21);
    assert_eq!(&out[6..14], &update.as_bytes()[..]);
    assert_eq!(&out[14..], &expected[..]);
}
