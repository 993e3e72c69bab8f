//! The eight-byte summary that precedes the server records of a listing.
use vstd::prelude::*;

use crate::wire::{be16, be16_value, get_u16, put_u16};

verus! {

/// Length of an update record on the wire.
pub const UPDATE_RECORD_LEN: usize = 8;

#[derive(Debug, Clone, Copy, PartialEq, Eq, Structural)]
pub struct UpdateRecord {
    pub version: u16,
    /// The byte count of the server records that follow.
    pub remaining_data_size: u16,
    pub total_servers: u16,
    /// The count of server records that follow.
    pub remaining_servers: u16,
}

/// The wire form of an update record.
pub open spec fn update_bytes(u: UpdateRecord) -> Seq<u8> {
    be16(u.version) + be16(u.remaining_data_size) + be16(u.total_servers) + be16(
        u.remaining_servers,
    )
}

/// The update record at the front of `b`, if all eight bytes are there.
pub open spec fn parse_update(b: Seq<u8>) -> Option<UpdateRecord> {
    if b.len() < 8 {
        None
    } else {
        Some(
            UpdateRecord {
                version: be16_value(b[0], b[1]),
                remaining_data_size: be16_value(b[2], b[3]),
                total_servers: be16_value(b[4], b[5]),
                remaining_servers: be16_value(b[6], b[7]),
            },
        )
    }
}

/// Decoding the wire form of an update record, whatever follows it, gives
/// the record back; the wire form is eight bytes.
pub proof fn lemma_update_round_trip(u: UpdateRecord, rest: Seq<u8>)
    ensures
        update_bytes(u).len() == UPDATE_RECORD_LEN,
        parse_update(update_bytes(u) + rest) == Some(u),
{
    let b = update_bytes(u) + rest;
    crate::wire::lemma_be16_round_trip(u.version);
    crate::wire::lemma_be16_round_trip(u.remaining_data_size);
    crate::wire::lemma_be16_round_trip(u.total_servers);
    crate::wire::lemma_be16_round_trip(u.remaining_servers);
    assert(b[0] == be16(u.version)[0] && b[1] == be16(u.version)[1]);
    assert(b[2] == be16(u.remaining_data_size)[0] && b[3] == be16(u.remaining_data_size)[1]);
    assert(b[4] == be16(u.total_servers)[0] && b[5] == be16(u.total_servers)[1]);
    assert(b[6] == be16(u.remaining_servers)[0] && b[7] == be16(u.remaining_servers)[1]);
}

impl UpdateRecord {
    /// Reads an update record from the first eight bytes; `None` while fewer
    /// are there.
    pub fn from_bytes(bytes: &[u8]) -> (r: Option<UpdateRecord>)
        ensures
            r == parse_update(bytes@),
    {
        if bytes.len() < UPDATE_RECORD_LEN {
            return None;
        }
        Some(
            UpdateRecord {
                version: get_u16(bytes, 0),
                remaining_data_size: get_u16(bytes, 2),
                total_servers: get_u16(bytes, 4),
                remaining_servers: get_u16(bytes, 6),
            },
        )
    }

    /// The size of an update record on the wire.
    pub fn data_size(&self) -> (r: usize)
        ensures
            r == UPDATE_RECORD_LEN,
            r == update_bytes(*self).len(),
    {
        UPDATE_RECORD_LEN
    }

    /// Appends the wire form to `buf`; returns how many bytes it took.
    pub fn put_slice(&self, buf: &mut Vec<u8>) -> (r: usize)
        ensures
            final(buf)@ == old(buf)@ + update_bytes(*self),
            r == UPDATE_RECORD_LEN,
    {
        put_u16(buf, self.version);
        put_u16(buf, self.remaining_data_size);
        put_u16(buf, self.total_servers);
        put_u16(buf, self.remaining_servers);
        assert(final(buf)@ =~= old(buf)@ + update_bytes(*self));
        UPDATE_RECORD_LEN
    }

    /// The wire form of this record.
    pub fn as_bytes(&self) -> (r: Vec<u8>)
        ensures
            r@ == update_bytes(*self),
    {
        let mut buf: Vec<u8> = Vec::new();
        self.put_slice(&mut buf);
        assert(buf@ =~= update_bytes(*self));
        buf
    }
}

} // verus!
