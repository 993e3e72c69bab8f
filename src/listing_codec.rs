//! The client's side of a listing connection: a decoder over the bytes that
//! the tracker streams back.
use vstd::prelude::*;

use crate::header::{Header, HEADER_LEN};
use crate::packet::{tracker_header_bytes, PacketView, TrackerPacket};
use crate::server_record::{parse_server, server_bytes, ServerRecord, ServerView};
use crate::update_record::{parse_update, UpdateRecord, UPDATE_RECORD_LEN};
use crate::wire::be16_value;

verus! {

/// Where a listing stands on the client's side.
#[derive(PartialEq, Eq, Structural, Debug, Clone, Copy)]
pub enum State {
    Initialized,
    ReceivedHeader,
    /// The announced number of server records has arrived; nothing more is
    /// decoded.
    Completed,
}

#[derive(PartialEq, Eq, Structural, Debug, Clone, Copy)]
pub struct HLTrackerCodec {
    pub state: State,
    /// The server count of the last update record, once one has come.
    pub expected_total_servers: Option<u16>,
    pub received_server_count: u16,
}

#[derive(Debug)]
pub enum ListingError {
    /// The tracker's header has the wrong magic word or version.
    InvalidHeader([u8; 4], u16),
}

/// The outcome of one decoding step, as plain values.
pub enum Decoded {
    /// Not enough bytes yet; nothing was consumed.
    NeedMore,
    /// A packet, and how many bytes it consumed.
    Item(PacketView, nat),
    /// The header that was read, which is not the tracker's.
    Invalid(Seq<u8>, u16),
}

pub open spec fn decoded_view(r: Result<Option<(TrackerPacket, usize)>, ListingError>) -> Decoded {
    match r {
        Ok(None) => Decoded::NeedMore,
        Ok(Some((p, n))) => Decoded::Item(p@, n as nat),
        Err(ListingError::InvalidHeader(m, v)) => Decoded::Invalid(m@, v),
    }
}

/// One more server record counted, stopping at the largest count.
pub open spec fn count_one_more(n: u16) -> u16 {
    if n < u16::MAX {
        (n + 1) as u16
    } else {
        n
    }
}

/// One step of the listing decoder on the bytes `src` that have arrived and
/// not been consumed. First the tracker's header; then a byte 0 in front
/// announces an update record, and any other byte a server record (whose
/// first byte is the first octet of an address); once as many server
/// records have come as the last update record announced, the listing is
/// complete.
pub open spec fn listing_step(c: HLTrackerCodec, src: Seq<u8>) -> (HLTrackerCodec, Decoded) {
    match c.state {
        State::Initialized => {
            if src.len() < HEADER_LEN {
                (c, Decoded::NeedMore)
            } else if src.subrange(0, 6) == tracker_header_bytes() {
                (
                    HLTrackerCodec { state: State::ReceivedHeader, ..c },
                    Decoded::Item(PacketView::Header, 6),
                )
            } else {
                (c, Decoded::Invalid(src.subrange(0, 4), be16_value(src[4], src[5])))
            }
        },
        State::Completed => (c, Decoded::NeedMore),
        State::ReceivedHeader => {
            if c.expected_total_servers == Some(c.received_server_count) {
                (HLTrackerCodec { state: State::Completed, ..c }, Decoded::Item(PacketView::Complete, 0))
            } else if src.len() == 0 {
                (c, Decoded::NeedMore)
            } else if src[0] == 0 {
                match parse_update(src) {
                    None => (c, Decoded::NeedMore),
                    Some(u) => (
                        HLTrackerCodec { expected_total_servers: Some(u.total_servers), ..c },
                        Decoded::Item(PacketView::Update(u), 8),
                    ),
                }
            } else {
                match parse_server(src) {
                    None => (c, Decoded::NeedMore),
                    Some(s) => (
                        HLTrackerCodec {
                            received_server_count: count_one_more(c.received_server_count),
                            ..c
                        },
                        Decoded::Item(PacketView::Server(s), server_bytes(s).len()),
                    ),
                }
            }
        },
    }
}

/// A server record whose bytes arrive in two reads, cut anywhere before its
/// end: the first read gives "need more" and leaves the decoder as it was;
/// once the rest has arrived the record is decoded whole.
pub proof fn lemma_listing_resumes_after_partial_record(
    c: HLTrackerCodec,
    s: ServerView,
    k: int,
    rest: Seq<u8>,
)
    requires
        c.state == State::ReceivedHeader,
        c.expected_total_servers != Some(c.received_server_count),
        s.wf(),
        s.address[0] != 0,
        0 <= k < server_bytes(s).len(),
    ensures
        listing_step(c, server_bytes(s).subrange(0, k)) == (c, Decoded::NeedMore),
        listing_step(c, server_bytes(s) + rest).1 == Decoded::Item(
            PacketView::Server(s),
            server_bytes(s).len(),
        ),
{
    crate::server_record::lemma_server_prefix_needs_more(s, k);
    crate::server_record::lemma_server_round_trip(s, rest);
    let b = server_bytes(s);
    assert(b[0] == s.address[0]);
    if k > 0 {
        assert(b.subrange(0, k)[0] == b[0]);
    }
    assert((b + rest)[0] == b[0]);
}

impl HLTrackerCodec {
    pub fn new() -> (r: Self)
        ensures
            r == (HLTrackerCodec {
                state: State::Initialized,
                expected_total_servers: None,
                received_server_count: 0,
            }),
    {
        HLTrackerCodec {
            state: State::Initialized,
            expected_total_servers: None,
            received_server_count: 0,
        }
    }

    /// Decodes the next packet from the front of `src`: `Ok(None)` asks for
    /// more bytes, `Ok(Some((packet, n)))` gives a packet that took the first
    /// `n` bytes. See `listing_step`.
    pub fn decode(&mut self, src: &[u8]) -> (r: Result<Option<(TrackerPacket, usize)>, ListingError>)
        ensures
            (*final(self), decoded_view(r)) == listing_step(*old(self), src@),
    {
        match self.state {
            State::Initialized => {
                match Header::from_bytes(src) {
                    None => Ok(None),
                    Some(header) => {
                        proof {
                            crate::wire::lemma_be16_round_trip(1);
                            if header.valid() {
                                assert(crate::header::header_bytes(header) =~= tracker_header_bytes());
                            }
                            if crate::header::header_bytes(header) == tracker_header_bytes() {
                                assert(header.magic_word@ =~= crate::header::header_bytes(
                                    header,
                                ).subrange(0, 4));
                                assert(crate::wire::be16(header.version) =~= crate::header::header_bytes(
                                    header,
                                ).subrange(4, 6));
                                assert(tracker_header_bytes().subrange(0, 4)
                                    =~= crate::header::tracker_magic());
                                assert(tracker_header_bytes().subrange(4, 6) =~= crate::wire::be16(1));
                                crate::wire::lemma_be16_round_trip(header.version);
                                assert(header.valid());
                            }
                        }
                        if header.is_valid() {
                            self.state = State::ReceivedHeader;
                            Ok(Some((TrackerPacket::Header, HEADER_LEN)))
                        } else {
                            Err(ListingError::InvalidHeader(header.magic_word, header.version))
                        }
                    },
                }
            },
            State::Completed => Ok(None),
            State::ReceivedHeader => {
                if let Some(expected) = self.expected_total_servers {
                    if expected == self.received_server_count {
                        self.state = State::Completed;
                        return Ok(Some((TrackerPacket::Complete, 0)));
                    }
                }
                if src.len() == 0 {
                    return Ok(None);
                }
                if src[0] == 0 {
                    match UpdateRecord::from_bytes(src) {
                        None => Ok(None),
                        Some(update) => {
                            self.expected_total_servers = Some(update.total_servers);
                            Ok(Some((TrackerPacket::Update(update), UPDATE_RECORD_LEN)))
                        },
                    }
                } else {
                    match ServerRecord::from_bytes(src) {
                        None => Ok(None),
                        Some(server) => {
                            let n = server.data_size();
                            proof {
                                crate::server_record::lemma_server_parse_exact(src@);
                            }
                            self.received_server_count = self.received_server_count.saturating_add(1);
                            Ok(Some((TrackerPacket::Server(Box::new(server)), n)))
                        },
                    }
                }
            },
        }
    }
}

} // verus!
