//! The six-byte framing token that opens a listing conversation.
use vstd::prelude::*;

use crate::wire::{be16, be16_value, get_u16, put_u16};

verus! {

/// Length of a header on the wire.
pub const HEADER_LEN: usize = 6;

/// The protocol version that trackers speak.
pub const TRACKER_VERSION: u16 = 1;

/// "HTRK", the magic word of a tracker header.
pub open spec fn tracker_magic() -> Seq<u8> {
    seq![0x48u8, 0x54, 0x52, 0x4b]
}

#[derive(Debug, Clone, Copy)]
pub struct Header {
    pub magic_word: [u8; 4],
    pub version: u16,
}

/// The wire form of a header.
pub open spec fn header_bytes(h: Header) -> Seq<u8> {
    h.magic_word@ + be16(h.version)
}

impl Header {
    /// A header is valid when both its magic word and its version are the
    /// tracker's.
    pub open spec fn valid(&self) -> bool {
        self.magic_word@ == tracker_magic() && self.version == TRACKER_VERSION
    }

    pub fn is_valid(&self) -> (r: bool)
        ensures
            r == self.valid(),
    {
        let ok = self.magic_word[0] == 0x48 && self.magic_word[1] == 0x54
            && self.magic_word[2] == 0x52 && self.magic_word[3] == 0x4b
            && self.version == TRACKER_VERSION;
        assert(ok ==> self.magic_word@ =~= tracker_magic());
        ok
    }

    /// Reads a header from the first six bytes; `None` while fewer are there.
    /// Nothing is checked here: see `is_valid`.
    pub fn from_bytes(bytes: &[u8]) -> (r: Option<Header>)
        ensures
            r is Some <==> bytes@.len() >= HEADER_LEN,
            r matches Some(h) ==> h.magic_word@ == bytes@.subrange(0, 4) && h.version
                == be16_value(bytes@[4], bytes@[5]),
            r matches Some(h) ==> header_bytes(h) == bytes@.subrange(0, 6),
    {
        if bytes.len() < HEADER_LEN {
            return None;
        }
        let magic_word: [u8; 4] = [bytes[0], bytes[1], bytes[2], bytes[3]];
        let version = get_u16(bytes, 4);
        let h = Header { magic_word, version };
        assert(magic_word@ =~= bytes@.subrange(0, 4));
        assert(header_bytes(h) =~= bytes@.subrange(0, 6)) by {
            assert(be16(version) =~= seq![bytes@[4], bytes@[5]]);
        }
        Some(h)
    }

    /// The wire form of this header.
    pub fn as_bytes(&self) -> (r: Vec<u8>)
        ensures
            r@ == header_bytes(*self),
    {
        let mut buf: Vec<u8> = Vec::new();
        self.put_slice(&mut buf);
        assert(buf@ =~= header_bytes(*self));
        buf
    }

    /// Appends the wire form to `buf`; returns how many bytes it took.
    pub fn put_slice(&self, buf: &mut Vec<u8>) -> (r: usize)
        ensures
            final(buf)@ == old(buf)@ + header_bytes(*self),
            r == HEADER_LEN,
    {
        buf.push(self.magic_word[0]);
        buf.push(self.magic_word[1]);
        buf.push(self.magic_word[2]);
        buf.push(self.magic_word[3]);
        put_u16(buf, self.version);
        assert(final(buf)@ =~= old(buf)@ + header_bytes(*self));
        HEADER_LEN
    }
}

impl Default for Header {
    fn default() -> (r: Header)
        ensures
            r.valid(),
    {
        let h = Header { magic_word: [0x48, 0x54, 0x52, 0x4b], version: TRACKER_VERSION };
        assert(h.magic_word@ =~= tracker_magic());
        h
    }
}

} // verus!
