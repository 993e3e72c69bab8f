use hotline_tracker::admission::{Admission, Rejection, RegistrationGate};
use hotline_tracker::listing_codec::HLTrackerCodec;
use hotline_tracker::macroman::MacRomanString;
use hotline_tracker::registration_listener::{accept_datagram, RegistrationListenerError};
use hotline_tracker::registration_record::RegistrationRecord;
use hotline_tracker::server_record::ServerRecord;
use hotline_tracker::server_registry::ServerRegistry;
use hotline_tracker::tracker_codec::TrackerCodec;
use hotline_tracker::update_record::UpdateRecord;
use hotline_tracker::TrackerPacket;

fn mrs(s: &str) -> MacRomanString<255> {
    MacRomanString::from_text(s).unwrap()
}

fn registration(id: u32, name: &str) -> RegistrationRecord {
    RegistrationRecord { id, name: mrs(name), ..Default::default() }
}

/// Serves one listing from `registry` and decodes it as a client would.
fn list(registry: &mut ServerRegistry) -> (UpdateRecord, Vec<ServerRecord>) {
    let (update, servers) = registry.snapshot();
    let mut codec = TrackerCodec::new();
    let mut wire = Vec::new();
    codec.encode(TrackerPacket::Header, &mut wire);
    codec.encode(TrackerPacket::Update(update), &mut wire);
    for s in servers {
        codec.encode(TrackerPacket::Server(Box::new(s)), &mut wire);
    }
    let mut client = HLTrackerCodec::new();
    let mut at = 0;
    let mut last_update = None;
    let mut records = Vec::new();
    while let Some((p, n)) = client.decode(&wire[at..]).unwrap() {
        at += n;
        match p {
            TrackerPacket::Update(u) => last_update = Some(u),
            TrackerPacket::Server(s) => records.push(*s),
            TrackerPacket::Complete => break,
            TrackerPacket::Header => {}
        }
    }
    assert_eq!(at, wire.len());
    (last_update.unwrap(), records)
}

/// Admits `datagram` from `source` as the tracker does, with the given
/// storage answers.
fn ingest(
    registry: &mut ServerRegistry,
    gate: &RegistrationGate,
    source: [u8; 4],
    datagram: &[u8],
    authorized: bool,
    banned: bool,
) -> Admission {
    let (address, record) = accept_datagram(Some(source), datagram).unwrap().unwrap();
    let verdict = gate.decide(Some(authorized), Some(banned));
    if verdict == Admission::Register {
        registry.register(address, record);
    }
    verdict
}

#[test]
fn register_then_list_round_trip() {
    let mut registry = ServerRegistry::new();
    let gate = RegistrationGate::new(false);
    let r = RegistrationRecord {
        id: 42,
        port: 5500,
        users_online: 3,
        reserved: 0,
        name: mrs("Alpha"),
        description: mrs("test"),
        password: mrs(""),
    };
    let verdict = ingest(&mut registry, &gate, [10, 0, 0, 1], &r.to_bytes(), false, false);
    assert_eq!(verdict, Admission::Register);

    let (update, servers) = list(&mut registry);
    assert_eq!(
        update,
        UpdateRecord { version: 1, total_servers: 1, remaining_servers: 1, remaining_data_size: 21 }
    );
    assert_eq!(servers.len(), 1);
    let s = &servers[0];
    assert_eq!(s.address, [10, 0, 0, 1]);
    assert_eq!((s.port, s.users_online, s.reserved), (5500, 3, 0));
    assert_eq!(s.name.as_string(), "Alpha");
    assert_eq!(s.description.as_string(), "test");
}

#[test]
fn password_gating_rejects() {
    let mut registry = ServerRegistry::new();
    let gate = RegistrationGate::new(true);
    let r = RegistrationRecord { id: 5, password: mrs("s3cret"), ..Default::default() };
    // No passwords are stored, so the lookup finds none.
    let verdict = ingest(&mut registry, &gate, [10, 0, 0, 2], &r.to_bytes(), false, false);
    assert_eq!(verdict, Admission::Reject(Rejection::BadCredentials));
    let (update, servers) = list(&mut registry);
    assert_eq!(update.total_servers, 0);
    assert!(servers.is_empty());
}

#[test]
fn banlist_gating_rejects() {
    let mut registry = ServerRegistry::new();
    let gate = RegistrationGate::new(false);
    let verdict =
        ingest(&mut registry, &gate, [10, 0, 0, 3], &registration(7, "x").to_bytes(), true, true);
    assert_eq!(verdict, Admission::Reject(Rejection::Banned));
    let (update, servers) = list(&mut registry);
    assert_eq!(update.total_servers, 0);
    assert!(servers.is_empty());
}

#[test]
fn reregistration_overwrites() {
    let mut registry = ServerRegistry::new();
    registry.register([10, 0, 0, 4], registration(1, "A"));
    let (first, _) = list(&mut registry);
    registry.register([10, 0, 0, 4], registration(1, "B"));
    let (update, servers) = list(&mut registry);
    assert_eq!(update.total_servers, first.total_servers);
    assert_eq!(servers.len(), 1);
    assert_eq!(servers[0].name.as_string(), "B");
}

#[test]
fn expiry_removes_stale() {
    let mut registry = ServerRegistry::with_expiry(1000);
    registry.register([10, 0, 0, 5], registration(3, "old"));
    let runtime = tokio::runtime::Runtime::new().unwrap();
    runtime.block_on(async { tokio::time::sleep(std::time::Duration::from_secs(2)).await });
    let (update, servers) = list(&mut registry);
    assert_eq!(update.total_servers, 0);
    assert!(servers.is_empty());
}

#[test]
fn expiry_boundary_on_the_registry_clock() {
    let mut registry = ServerRegistry::with_expiry(300);
    registry.register_at([10, 0, 0, 6], registration(1, "a"), 1000);
    registry.register_at([10, 0, 0, 7], registration(2, "b"), 1200);
    // At 1300 the first entry is exactly at its expiry: still listed.
    let (update, servers) = registry.snapshot_at(1300);
    assert_eq!(update.total_servers, 2);
    assert_eq!(servers.len(), 2);
    // At 1301 it has expired; the second has not.
    let (update, servers) = registry.snapshot_at(1301);
    assert_eq!(update.total_servers, 1);
    assert_eq!(servers[0].name.as_string(), "b");
    registry.expire_at(1501);
    assert!(registry.server_records().is_empty());
}

#[test]
fn update_record_counts_the_snapshot() {
    let mut registry = ServerRegistry::default();
    registry.register_at([1, 2, 3, 4], registration(1, "one"), 0);
    registry.register_at([1, 2, 3, 5], registration(2, "three"), 0);
    let update = registry.create_update_record_at(0);
    assert_eq!(update.total_servers, 2);
    assert_eq!(update.remaining_servers, 2);
    assert_eq!(update.remaining_data_size, (12 + 3) + (12 + 5));
    assert_eq!(registry.server_records().len(), 2);
}

#[test]
fn update_record_sizes_wrap_at_sixteen_bits() {
    let mut registry = ServerRegistry::new();
    let long = "x".repeat(255);
    for id in 0..126u32 {
        let r = RegistrationRecord {
            id,
            name: mrs(&long),
            description: mrs(&long),
            ..Default::default()
        };
        registry.register_at([1, 1, 1, 1], r, 0);
    }
    let update = registry.create_update_record_at(0);
    assert_eq!(update.total_servers, 126);
    assert_eq!(update.remaining_data_size as usize, (126 * 522) % 65536);
}

#[test]
fn datagram_from_ipv6_is_refused() {
    let data = registration(1, "x").to_bytes();
    assert!(matches!(
        accept_datagram(None, &data),
        Err(RegistrationListenerError::UnsupportedProtocol)
    ));
}

#[test]
fn malformed_datagram_is_dropped() {
    let mut data = registration(1, "x").to_bytes();
    data.push(7);
    assert!(matches!(accept_datagram(Some([10, 0, 0, 1]), &data), Ok(None)));
}
