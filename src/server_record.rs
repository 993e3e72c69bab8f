//! One entry of a tracker listing: where a Hotline server is and how it
//! describes itself.
use vstd::prelude::*;

use crate::macroman::MacRomanString;
use crate::wire::{be16, be16_value, get_u16, lemma_be16_round_trip, pstr, put_u16};

verus! {

/// The fixed part of a server record, length bytes included.
pub const SERVER_RECORD_FIXED_LEN: usize = 12;

#[derive(Debug)]
pub struct ServerRecord {
    /// The IPv4 address, first octet first.
    pub address: [u8; 4],
    pub port: u16,
    pub users_online: u16,
    pub reserved: u16,
    pub name: MacRomanString<255>,
    pub description: MacRomanString<255>,
}

/// What a server record holds, as plain values.
pub struct ServerView {
    pub address: Seq<u8>,
    pub port: u16,
    pub users_online: u16,
    pub reserved: u16,
    pub name: Seq<u8>,
    pub description: Seq<u8>,
}

impl ServerView {
    /// Every field fits its place on the wire.
    pub open spec fn wf(&self) -> bool {
        self.address.len() == 4 && self.name.len() <= 255 && self.description.len() <= 255
    }
}

impl View for ServerRecord {
    type V = ServerView;

    open spec fn view(&self) -> ServerView {
        ServerView {
            address: self.address@,
            port: self.port,
            users_online: self.users_online,
            reserved: self.reserved,
            name: self.name@,
            description: self.description@,
        }
    }
}

/// The wire form of a server record.
pub open spec fn server_bytes(s: ServerView) -> Seq<u8> {
    s.address + be16(s.port) + be16(s.users_online) + be16(s.reserved) + pstr(s.name) + pstr(
        s.description,
    )
}

/// The server record at the front of `b`, or `None` while its bytes have
/// not all arrived.
pub open spec fn parse_server(b: Seq<u8>) -> Option<ServerView> {
    if b.len() < 12 {
        None
    } else {
        let nl = b[10] as int;
        if b.len() < 12 + nl {
            None
        } else {
            let dl = b[11 + nl] as int;
            if b.len() < 12 + nl + dl {
                None
            } else {
                Some(
                    ServerView {
                        address: b.subrange(0, 4),
                        port: be16_value(b[4], b[5]),
                        users_online: be16_value(b[6], b[7]),
                        reserved: be16_value(b[8], b[9]),
                        name: b.subrange(11, 11 + nl),
                        description: b.subrange(12 + nl, 12 + nl + dl),
                    },
                )
            }
        }
    }
}

proof fn lemma_server_bytes_layout(s: ServerView)
    requires
        s.wf(),
    ensures
        ({
            let b = server_bytes(s);
            let nl = s.name.len() as int;
            let dl = s.description.len() as int;
            &&& b.len() == 12 + nl + dl
            &&& b.subrange(0, 4) == s.address
            &&& b[4] == be16(s.port)[0] && b[5] == be16(s.port)[1]
            &&& b[6] == be16(s.users_online)[0] && b[7] == be16(s.users_online)[1]
            &&& b[8] == be16(s.reserved)[0] && b[9] == be16(s.reserved)[1]
            &&& b[10] == nl as u8
            &&& b.subrange(11, 11 + nl) == s.name
            &&& b[11 + nl] == dl as u8
            &&& b.subrange(12 + nl, 12 + nl + dl) == s.description
        }),
{
    let b = server_bytes(s);
    let nl = s.name.len() as int;
    let dl = s.description.len() as int;
    let head = s.address + be16(s.port) + be16(s.users_online) + be16(s.reserved);
    assert(head.len() == 10);
    assert(b == head + pstr(s.name) + pstr(s.description));
    assert(b.subrange(0, 4) =~= s.address);
    assert(b.subrange(11, 11 + nl) =~= s.name);
    assert(b.subrange(12 + nl, 12 + nl + dl) =~= s.description);
}

/// Decoding the wire form of a server record, whatever follows it, gives the
/// record back, and the wire form is as long as `data_size` says.
pub proof fn lemma_server_round_trip(s: ServerView, rest: Seq<u8>)
    requires
        s.wf(),
    ensures
        server_bytes(s).len() == 12 + s.name.len() + s.description.len(),
        parse_server(server_bytes(s) + rest) == Some(s),
{
    lemma_server_bytes_layout(s);
    lemma_be16_round_trip(s.port);
    lemma_be16_round_trip(s.users_online);
    lemma_be16_round_trip(s.reserved);
    let b = server_bytes(s);
    let nl = s.name.len() as int;
    let dl = s.description.len() as int;
    let c = b + rest;
    assert(c.subrange(0, 4) =~= b.subrange(0, 4));
    assert(c.subrange(11, 11 + nl) =~= b.subrange(11, 11 + nl));
    assert(c.subrange(12 + nl, 12 + nl + dl) =~= b.subrange(12 + nl, 12 + nl + dl));
    assert(c[10] == b[10]);
    assert(c[11 + nl] == b[11 + nl]);
    assert(c[4] == b[4] && c[5] == b[5] && c[6] == b[6] && c[7] == b[7] && c[8] == b[8] && c[9]
        == b[9]);
}

/// Any proper prefix of the wire form of a server record, however it was cut,
/// decodes to "need more".
pub proof fn lemma_server_prefix_needs_more(s: ServerView, k: int)
    requires
        s.wf(),
        0 <= k < server_bytes(s).len(),
    ensures
        parse_server(server_bytes(s).subrange(0, k)) is None,
{
    lemma_server_bytes_layout(s);
    let b = server_bytes(s);
    let p = b.subrange(0, k);
    let nl = s.name.len() as int;
    if k >= 12 {
        assert(p[10] == b[10]);
        if k >= 12 + nl {
            assert(p[11 + nl] == b[11 + nl]);
        }
    }
}

/// A record that decodes from `b` is exactly the front of `b`.
pub proof fn lemma_server_parse_exact(b: Seq<u8>)
    requires
        parse_server(b) is Some,
    ensures
        ({
            let s = parse_server(b)->0;
            &&& s.wf()
            &&& server_bytes(s) == b.subrange(0, server_bytes(s).len() as int)
        }),
{
    let s = parse_server(b)->0;
    lemma_server_bytes_layout(s);
    let nl = b[10] as int;
    let dl = b[11 + nl] as int;
    let e = server_bytes(s);
    crate::wire::lemma_be16_split(b[4], b[5]);
    crate::wire::lemma_be16_split(b[6], b[7]);
    crate::wire::lemma_be16_split(b[8], b[9]);
    assert forall|i: int| 0 <= i < e.len() implies e[i] == b.subrange(0, e.len() as int)[i] by {
        if i < 4 {
            assert(e[i] == e.subrange(0, 4)[i]);
        } else if 11 <= i < 11 + nl {
            assert(e[i] == e.subrange(11, 11 + nl)[i - 11]);
        } else if 12 + nl <= i < 12 + nl + dl {
            assert(e[i] == e.subrange(12 + nl, 12 + nl + dl)[i - 12 - nl]);
        }
    }
    assert(e =~= b.subrange(0, e.len() as int));
}

impl ServerRecord {
    /// Reads the server record at the front of `bytes`; `None` means that its
    /// bytes have not all arrived yet.
    pub fn from_bytes(bytes: &[u8]) -> (r: Option<ServerRecord>)
        ensures
            match r {
                Some(s) => parse_server(bytes@) == Some(s@),
                None => parse_server(bytes@) is None,
            },
    {
        if bytes.len() < SERVER_RECORD_FIXED_LEN {
            return None;
        }
        let nl = bytes[10] as usize;
        if bytes.len() < 12 + nl {
            return None;
        }
        let dl = bytes[11 + nl] as usize;
        if bytes.len() < 12 + nl + dl {
            return None;
        }
        let name_bytes = vstd::slice::slice_subrange(bytes, 11, 11 + nl);
        let desc_bytes = vstd::slice::slice_subrange(bytes, 12 + nl, 12 + nl + dl);
        let name = MacRomanString::<255>::from_bytes(name_bytes).unwrap();
        let description = MacRomanString::<255>::from_bytes(desc_bytes).unwrap();
        let s = ServerRecord {
            address: [bytes[0], bytes[1], bytes[2], bytes[3]],
            port: get_u16(bytes, 4),
            users_online: get_u16(bytes, 6),
            reserved: get_u16(bytes, 8),
            name,
            description,
        };
        assert(s.address@ =~= bytes@.subrange(0, 4));
        Some(s)
    }

    /// The size of this record on the wire.
    pub fn data_size(&self) -> (r: usize)
        ensures
            r == 12 + self@.name.len() + self@.description.len(),
            r <= 522,
    {
        SERVER_RECORD_FIXED_LEN + self.name.len() + self.description.len()
    }

    /// Appends the wire form to `buf`; returns how many bytes it took.
    pub fn put_slice(&self, buf: &mut Vec<u8>) -> (r: usize)
        ensures
            final(buf)@ == old(buf)@ + server_bytes(self@),
            r == server_bytes(self@).len(),
    {
        buf.push(self.address[0]);
        buf.push(self.address[1]);
        buf.push(self.address[2]);
        buf.push(self.address[3]);
        put_u16(buf, self.port);
        put_u16(buf, self.users_online);
        put_u16(buf, self.reserved);
        self.name.write_to_buf(buf);
        self.description.write_to_buf(buf);
        assert(final(buf)@ =~= old(buf)@ + server_bytes(self@));
        self.data_size()
    }

    /// The wire form of this record.
    pub fn as_bytes(&self) -> (r: Vec<u8>)
        ensures
            r@ == server_bytes(self@),
    {
        let mut buf: Vec<u8> = Vec::new();
        self.put_slice(&mut buf);
        assert(buf@ =~= server_bytes(self@));
        buf
    }
}

/// "Hotline Server", the name a server record has until it is given one.
pub open spec fn default_server_name() -> Seq<u8> {
    seq![0x48u8, 0x6f, 0x74, 0x6c, 0x69, 0x6e, 0x65, 0x20, 0x53, 0x65, 0x72, 0x76, 0x65, 0x72]
}

impl Default for ServerRecord {
    /// A server on the loopback address at the default port, with the default
    /// name, no description and nobody online.
    fn default() -> (r: ServerRecord)
        ensures
            r@ == (ServerView {
                address: seq![127u8, 0, 0, 1],
                port: crate::registration_record::DEFAULT_SERVER_PORT,
                users_online: 0,
                reserved: 0,
                name: default_server_name(),
                description: Seq::empty(),
            }),
    {
        let name_bytes: [u8; 14] = [
            0x48, 0x6f, 0x74, 0x6c, 0x69, 0x6e, 0x65, 0x20, 0x53, 0x65, 0x72, 0x76, 0x65, 0x72,
        ];
        assert(name_bytes@ =~= default_server_name());
        let name = MacRomanString::<255>::from_bytes(name_bytes.as_slice()).unwrap();
        let address: [u8; 4] = [127, 0, 0, 1];
        assert(address@ =~= seq![127u8, 0, 0, 1]);
        ServerRecord {
            address,
            port: crate::registration_record::DEFAULT_SERVER_PORT,
            users_online: 0,
            reserved: 0,
            name,
            description: MacRomanString::default(),
        }
    }
}

impl Clone for ServerRecord {
    fn clone(&self) -> (r: Self)
        ensures
            r@ == self@,
    {
        ServerRecord {
            address: self.address,
            port: self.port,
            users_online: self.users_online,
            reserved: self.reserved,
            name: self.name.clone(),
            description: self.description.clone(),
        }
    }
}

} // verus!
