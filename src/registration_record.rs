//! The UDP datagram with which a Hotline server registers at a tracker.
use vstd::prelude::*;

use crate::header::TRACKER_VERSION;
use crate::macroman::MacRomanString;
use crate::server_record::{ServerRecord, ServerView};
use crate::wire::{
    be16, be16_value, be32, be32_value, get_u16, get_u32, lemma_be16_round_trip,
    lemma_be32_round_trip, pstr, put_u16, put_u32,
};

verus! {

/// The fixed part of a registration, length bytes included.
pub const REGISTRATION_FIXED_LEN: usize = 15;

/// The port a Hotline server listens on unless told otherwise.
pub const DEFAULT_SERVER_PORT: u16 = 5500;

/// The data that a registration datagram carries. The datagram holds nothing
/// else, so its length is fixed by the three strings.
#[derive(Debug)]
pub struct RegistrationRecord {
    pub port: u16,
    pub users_online: u16,
    pub reserved: u16,
    /// The server's own identity: a registration with a known id replaces
    /// the earlier one.
    pub id: u32,
    pub name: MacRomanString<255>,
    pub description: MacRomanString<255>,
    pub password: MacRomanString<255>,
}

/// What a registration holds, as plain values.
pub struct RegistrationView {
    pub port: u16,
    pub users_online: u16,
    pub reserved: u16,
    pub id: u32,
    pub name: Seq<u8>,
    pub description: Seq<u8>,
    pub password: Seq<u8>,
}

impl RegistrationView {
    /// Every string fits behind its length byte.
    pub open spec fn wf(&self) -> bool {
        self.name.len() <= 255 && self.description.len() <= 255 && self.password.len() <= 255
    }
}

impl View for RegistrationRecord {
    type V = RegistrationView;

    open spec fn view(&self) -> RegistrationView {
        RegistrationView {
            port: self.port,
            users_online: self.users_online,
            reserved: self.reserved,
            id: self.id,
            name: self.name@,
            description: self.description@,
            password: self.password@,
        }
    }
}

/// The datagram that carries a registration.
pub open spec fn registration_bytes(r: RegistrationView) -> Seq<u8> {
    be16(TRACKER_VERSION) + be16(r.port) + be16(r.users_online) + be16(r.reserved) + be32(r.id)
        + pstr(r.name) + pstr(r.description) + pstr(r.password)
}

/// The registration that datagram `b` carries: `None` unless the three
/// length bytes account for every byte of it and its version is the
/// tracker's.
pub open spec fn parse_registration(b: Seq<u8>) -> Option<RegistrationView> {
    if b.len() < 15 {
        None
    } else {
        let nl = b[12] as int;
        if b.len() < 15 + nl {
            None
        } else {
            let dl = b[13 + nl] as int;
            if b.len() < 15 + nl + dl {
                None
            } else {
                let pl = b[14 + nl + dl] as int;
                if b.len() != 15 + nl + dl + pl {
                    None
                } else if be16_value(b[0], b[1]) != TRACKER_VERSION {
                    None
                } else {
                    Some(
                        RegistrationView {
                            port: be16_value(b[2], b[3]),
                            users_online: be16_value(b[4], b[5]),
                            reserved: be16_value(b[6], b[7]),
                            id: be32_value(b[8], b[9], b[10], b[11]),
                            name: b.subrange(13, 13 + nl),
                            description: b.subrange(14 + nl, 14 + nl + dl),
                            password: b.subrange(15 + nl + dl, 15 + nl + dl + pl),
                        },
                    )
                }
            }
        }
    }
}

proof fn lemma_registration_layout(r: RegistrationView)
    requires
        r.wf(),
    ensures
        ({
            let b = registration_bytes(r);
            let nl = r.name.len() as int;
            let dl = r.description.len() as int;
            let pl = r.password.len() as int;
            &&& b.len() == 15 + nl + dl + pl
            &&& b.subrange(0, 2) == be16(TRACKER_VERSION)
            &&& b.subrange(2, 4) == be16(r.port)
            &&& b.subrange(4, 6) == be16(r.users_online)
            &&& b.subrange(6, 8) == be16(r.reserved)
            &&& b.subrange(8, 12) == be32(r.id)
            &&& b[12] == nl as u8
            &&& b.subrange(13, 13 + nl) == r.name
            &&& b[13 + nl] == dl as u8
            &&& b.subrange(14 + nl, 14 + nl + dl) == r.description
            &&& b[14 + nl + dl] == pl as u8
            &&& b.subrange(15 + nl + dl, 15 + nl + dl + pl) == r.password
        }),
{
    let b = registration_bytes(r);
    let nl = r.name.len() as int;
    let dl = r.description.len() as int;
    let pl = r.password.len() as int;
    let head = be16(TRACKER_VERSION) + be16(r.port) + be16(r.users_online) + be16(r.reserved)
        + be32(r.id);
    assert(head.len() == 12);
    assert(b == head + pstr(r.name) + pstr(r.description) + pstr(r.password));
    assert(b.subrange(0, 2) =~= be16(TRACKER_VERSION));
    assert(b.subrange(2, 4) =~= be16(r.port));
    assert(b.subrange(4, 6) =~= be16(r.users_online));
    assert(b.subrange(6, 8) =~= be16(r.reserved));
    assert(b.subrange(8, 12) =~= be32(r.id));
    assert(b.subrange(13, 13 + nl) =~= r.name);
    assert(b.subrange(14 + nl, 14 + nl + dl) =~= r.description);
    assert(b.subrange(15 + nl + dl, 15 + nl + dl + pl) =~= r.password);
}

/// Decoding the datagram of a registration gives the registration back.
pub proof fn lemma_registration_round_trip(r: RegistrationView)
    requires
        r.wf(),
    ensures
        parse_registration(registration_bytes(r)) == Some(r),
{
    lemma_registration_layout(r);
    let b = registration_bytes(r);
    lemma_be16_round_trip(TRACKER_VERSION);
    lemma_be16_round_trip(r.port);
    lemma_be16_round_trip(r.users_online);
    lemma_be16_round_trip(r.reserved);
    lemma_be32_round_trip(r.id);
    assert(b[0] == b.subrange(0, 2)[0] && b[1] == b.subrange(0, 2)[1]);
    assert(b[2] == b.subrange(2, 4)[0] && b[3] == b.subrange(2, 4)[1]);
    assert(b[4] == b.subrange(4, 6)[0] && b[5] == b.subrange(4, 6)[1]);
    assert(b[6] == b.subrange(6, 8)[0] && b[7] == b.subrange(6, 8)[1]);
    assert(b[8] == b.subrange(8, 12)[0] && b[9] == b.subrange(8, 12)[1] && b[10] == b.subrange(
        8,
        12,
    )[2] && b[11] == b.subrange(8, 12)[3]);
}

/// A datagram that carries a registration and then anything more is
/// rejected.
pub proof fn lemma_registration_trailing_bytes_rejected(r: RegistrationView, extra: Seq<u8>)
    requires
        r.wf(),
        extra.len() > 0,
    ensures
        parse_registration(registration_bytes(r) + extra) is None,
{
    lemma_registration_layout(r);
    let b = registration_bytes(r);
    let c = b + extra;
    let nl = r.name.len() as int;
    let dl = r.description.len() as int;
    assert(c[12] == b[12]);
    assert(c[13 + nl] == b[13 + nl]);
    assert(c[14 + nl + dl] == b[14 + nl + dl]);
}

/// A registration that decodes from a datagram is exactly that datagram.
pub proof fn lemma_registration_parse_exact(b: Seq<u8>)
    requires
        parse_registration(b) is Some,
    ensures
        parse_registration(b)->0.wf(),
        registration_bytes(parse_registration(b)->0) == b,
{
    let r = parse_registration(b)->0;
    lemma_registration_layout(r);
    let e = registration_bytes(r);
    let nl = b[12] as int;
    let dl = b[13 + nl] as int;
    let pl = b[14 + nl + dl] as int;
    crate::wire::lemma_be16_split(b[0], b[1]);
    crate::wire::lemma_be16_split(b[2], b[3]);
    crate::wire::lemma_be16_split(b[4], b[5]);
    crate::wire::lemma_be16_split(b[6], b[7]);
    crate::wire::lemma_be32_split(b[8], b[9], b[10], b[11]);
    assert forall|i: int| 0 <= i < e.len() implies e[i] == b[i] by {
        if i < 2 {
            assert(e[i] == e.subrange(0, 2)[i]);
        } else if i < 4 {
            assert(e[i] == e.subrange(2, 4)[i - 2]);
        } else if i < 6 {
            assert(e[i] == e.subrange(4, 6)[i - 4]);
        } else if i < 8 {
            assert(e[i] == e.subrange(6, 8)[i - 6]);
        } else if i < 12 {
            assert(e[i] == e.subrange(8, 12)[i - 8]);
        } else if 13 <= i < 13 + nl {
            assert(e[i] == e.subrange(13, 13 + nl)[i - 13]);
        } else if 14 + nl <= i < 14 + nl + dl {
            assert(e[i] == e.subrange(14 + nl, 14 + nl + dl)[i - 14 - nl]);
        } else if 15 + nl + dl <= i {
            assert(e[i] == e.subrange(15 + nl + dl, 15 + nl + dl + pl)[i - 15 - nl - dl]);
        }
    }
    assert(e =~= b);
}

impl RegistrationRecord {
    /// Reads a registration datagram: `None` unless it is exactly one
    /// well-formed registration of the tracker's version.
    pub fn from_bytes(bytes: &[u8]) -> (r: Option<RegistrationRecord>)
        ensures
            match r {
                Some(rec) => parse_registration(bytes@) == Some(rec@),
                None => parse_registration(bytes@) is None,
            },
    {
        if bytes.len() < REGISTRATION_FIXED_LEN {
            return None;
        }
        let nl = bytes[12] as usize;
        if bytes.len() < 15 + nl {
            return None;
        }
        let dl = bytes[13 + nl] as usize;
        if bytes.len() < 15 + nl + dl {
            return None;
        }
        let pl = bytes[14 + nl + dl] as usize;
        if bytes.len() != 15 + nl + dl + pl {
            return None;
        }
        if get_u16(bytes, 0) != TRACKER_VERSION {
            return None;
        }
        let name = MacRomanString::<255>::from_bytes(
            vstd::slice::slice_subrange(bytes, 13, 13 + nl),
        ).unwrap();
        let description = MacRomanString::<255>::from_bytes(
            vstd::slice::slice_subrange(bytes, 14 + nl, 14 + nl + dl),
        ).unwrap();
        let password = MacRomanString::<255>::from_bytes(
            vstd::slice::slice_subrange(bytes, 15 + nl + dl, 15 + nl + dl + pl),
        ).unwrap();
        Some(
            RegistrationRecord {
                port: get_u16(bytes, 2),
                users_online: get_u16(bytes, 4),
                reserved: get_u16(bytes, 6),
                id: get_u32(bytes, 8),
                name,
                description,
                password,
            },
        )
    }

    /// The datagram that carries this registration.
    pub fn to_bytes(&self) -> (r: Vec<u8>)
        ensures
            r@ == registration_bytes(self@),
    {
        let mut buf: Vec<u8> = Vec::new();
        put_u16(&mut buf, TRACKER_VERSION);
        put_u16(&mut buf, self.port);
        put_u16(&mut buf, self.users_online);
        put_u16(&mut buf, self.reserved);
        put_u32(&mut buf, self.id);
        self.name.write_to_buf(&mut buf);
        self.description.write_to_buf(&mut buf);
        self.password.write_to_buf(&mut buf);
        assert(buf@ =~= registration_bytes(self@));
        buf
    }

    /// The listing entry for this registration, at the address it came from.
    pub fn to_server_record(self, address: [u8; 4]) -> (r: ServerRecord)
        ensures
            r@ == (ServerView {
                address: address@,
                port: self.port,
                users_online: self.users_online,
                reserved: self.reserved,
                name: self@.name,
                description: self@.description,
            }),
    {
        ServerRecord {
            address,
            port: self.port,
            users_online: self.users_online,
            reserved: self.reserved,
            name: self.name,
            description: self.description,
        }
    }
}

impl Default for RegistrationRecord {
    fn default() -> (r: RegistrationRecord)
        ensures
            r@ == (RegistrationView {
                port: DEFAULT_SERVER_PORT,
                users_online: 0,
                reserved: 0,
                id: 0,
                name: Seq::empty(),
                description: Seq::empty(),
                password: Seq::empty(),
            }),
    {
        RegistrationRecord {
            port: DEFAULT_SERVER_PORT,
            users_online: 0,
            reserved: 0,
            id: 0,
            name: MacRomanString::default(),
            description: MacRomanString::default(),
            password: MacRomanString::default(),
        }
    }
}

impl PartialEq for RegistrationRecord {
    fn eq(&self, other: &Self) -> (r: bool) {
        self.port == other.port && self.users_online == other.users_online && self.reserved
            == other.reserved && self.id == other.id && self.name == other.name
            && self.description == other.description && self.password == other.password
    }
}

impl vstd::std_specs::cmp::PartialEqSpecImpl for RegistrationRecord {
    open spec fn obeys_eq_spec() -> bool {
        true
    }

    open spec fn eq_spec(&self, other: &Self) -> bool {
        self@ == other@
    }
}

} // verus!
