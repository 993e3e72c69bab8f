//! The tracker's side of a listing connection: it waits for the client's
//! header, then writes the listing.
use vstd::prelude::*;

use crate::header::{header_bytes, Header, HEADER_LEN};
use crate::packet::{packet_bytes, tracker_header_bytes, TrackerPacket};
use crate::wire::be16_value;

verus! {

/// The TCP port at which trackers serve listings.
pub const TRACKER_LISTEN_PORT: u16 = 5498;

/// Where a listing connection stands on the tracker's side.
#[derive(PartialEq, Eq, Structural, Debug, Clone, Copy)]
enum Phase {
    Initialized,
    ReceivedHeader,
}

pub struct TrackerCodec {
    state: Phase,
}

#[derive(Debug)]
pub enum CodecError {
    /// The client's header has the wrong magic word or version.
    InvalidHeader([u8; 4], u16),
    /// The connection ended before a whole header arrived.
    NoHeader,
    /// The client sent something after its header.
    UnexpectedData,
}

/// What decoding `src` gives, from whether the header was awaited
/// (`before`) to whether it still is (`after`). While the header is awaited:
/// "need more" (`Ok(None)`) until six bytes are there, then the header, which
/// is consumed, or `InvalidHeader` with what was read. Once it has come, any
/// data is unexpected.
pub open spec fn tracker_decoded(
    before: bool,
    src: Seq<u8>,
    r: Result<Option<(TrackerPacket, usize)>, CodecError>,
    after: bool,
) -> bool {
    if !before {
        r matches Err(CodecError::UnexpectedData) && !after
    } else if src.len() < HEADER_LEN {
        r matches Ok(None) && after
    } else if src.subrange(0, 6) == tracker_header_bytes() {
        r matches Ok(Some((p, n))) && p is Header && n == HEADER_LEN && !after
    } else {
        r matches Err(CodecError::InvalidHeader(m, v)) && m@ == src.subrange(0, 4) && v
            == be16_value(src[4], src[5]) && after
    }
}

impl TrackerCodec {
    /// Whether the client's header is still to come.
    pub closed spec fn awaiting_header(&self) -> bool {
        self.state == Phase::Initialized
    }

    pub fn new() -> (r: Self)
        ensures
            r.awaiting_header(),
    {
        TrackerCodec { state: Phase::Initialized }
    }

    /// Decodes what the client sent: see `tracker_decoded`.
    pub fn decode(&mut self, src: &[u8]) -> (r: Result<Option<(TrackerPacket, usize)>, CodecError>)
        ensures
            tracker_decoded(old(self).awaiting_header(), src@, r, final(self).awaiting_header()),
    {
        if self.state == Phase::ReceivedHeader {
            return Err(CodecError::UnexpectedData);
        }
        match Header::from_bytes(src) {
            None => Ok(None),
            Some(header) => {
                proof {
                    crate::wire::lemma_be16_round_trip(1);
                    if header.valid() {
                        assert(header_bytes(header) =~= tracker_header_bytes());
                    }
                    if header_bytes(header) == tracker_header_bytes() {
                        assert(header.magic_word@ =~= header_bytes(header).subrange(0, 4));
                        assert(crate::wire::be16(header.version) =~= header_bytes(
                            header,
                        ).subrange(4, 6));
                        assert(tracker_header_bytes().subrange(0, 4) =~= crate::header::tracker_magic());
                        assert(tracker_header_bytes().subrange(4, 6) =~= crate::wire::be16(1));
                        crate::wire::lemma_be16_round_trip(header.version);
                        assert(header.valid());
                    }
                }
                if header.is_valid() {
                    self.state = Phase::ReceivedHeader;
                    Ok(Some((TrackerPacket::Header, HEADER_LEN)))
                } else {
                    Err(CodecError::InvalidHeader(header.magic_word, header.version))
                }
            },
        }
    }

    /// Decodes what is left when the client closes the connection: as
    /// `decode`, except that a header cut short is `NoHeader`.
    pub fn decode_eof(&mut self, src: &[u8]) -> (r: Result<Option<(TrackerPacket, usize)>, CodecError>)
        ensures
            old(self).awaiting_header() && src@.len() < HEADER_LEN ==> (r matches Err(
                CodecError::NoHeader,
            ) && final(self).awaiting_header()),
            !(old(self).awaiting_header() && src@.len() < HEADER_LEN) ==> tracker_decoded(
                old(self).awaiting_header(),
                src@,
                r,
                final(self).awaiting_header(),
            ),
    {
        if self.state == Phase::Initialized && src.len() < HEADER_LEN {
            return Err(CodecError::NoHeader);
        }
        self.decode(src)
    }

    /// Appends the wire form of `pkt` to `dst`.
    pub fn encode(&mut self, pkt: TrackerPacket, dst: &mut Vec<u8>)
        ensures
            final(dst)@ == old(dst)@ + packet_bytes(pkt@),
            *final(self) == *old(self),
    {
        match pkt {
            TrackerPacket::Header => {
                let header = Header::default();
                header.put_slice(dst);
                assert(header_bytes(header) =~= tracker_header_bytes());
            },
            TrackerPacket::Update(update) => {
                update.put_slice(dst);
            },
            TrackerPacket::Server(server) => {
                server.put_slice(dst);
            },
            TrackerPacket::Complete => {},
        }
    }
}

} // verus!
