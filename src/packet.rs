//! The items of a listing conversation.
use vstd::prelude::*;

use crate::header::tracker_magic;
use crate::server_record::{server_bytes, ServerRecord, ServerView};
use crate::update_record::{update_bytes, UpdateRecord};
use crate::wire::be16;

verus! {

/// A listing is a header, an update record, then server records. `Complete`
/// marks the end of a listing and has no wire form.
#[derive(Debug)]
pub enum TrackerPacket {
    Header,
    Update(UpdateRecord),
    Server(Box<ServerRecord>),
    Complete,
}

/// A packet as plain values.
pub enum PacketView {
    Header,
    Update(UpdateRecord),
    Server(ServerView),
    Complete,
}

impl View for TrackerPacket {
    type V = PacketView;

    open spec fn view(&self) -> PacketView {
        match self {
            TrackerPacket::Header => PacketView::Header,
            TrackerPacket::Update(u) => PacketView::Update(*u),
            TrackerPacket::Server(s) => PacketView::Server((**s)@),
            TrackerPacket::Complete => PacketView::Complete,
        }
    }
}

/// The header that trackers and their clients send: "HTRK", version 1.
pub open spec fn tracker_header_bytes() -> Seq<u8> {
    tracker_magic() + be16(1)
}

/// The wire form of a packet.
pub open spec fn packet_bytes(p: PacketView) -> Seq<u8> {
    match p {
        PacketView::Header => tracker_header_bytes(),
        PacketView::Update(u) => update_bytes(u),
        PacketView::Server(s) => server_bytes(s),
        PacketView::Complete => Seq::empty(),
    }
}

} // verus!
