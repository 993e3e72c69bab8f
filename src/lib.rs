//! A Hotline tracker: the directory where Hotline servers register over UDP
//! and clients fetch the listing over TCP.
//!
//! The library holds the wire formats (MacRoman strings, registration,
//! server and update records, the bookmark file), the state machines of both
//! ends of a listing connection, the server registry with its expiry, and the
//! rules for admitting a registration. Each is stated over plain values:
//! byte sequences, and views of the record types.

pub mod admission;
pub mod bookmark;
pub mod header;
pub mod listing_codec;
pub mod macroman;
pub mod packet;
pub mod registration_listener;
pub mod registration_record;
pub mod server_record;
pub mod server_registry;
pub mod tracker_codec;
pub mod update_record;
pub mod wire;

pub use header::Header;
pub use macroman::{
    char_to_macroman, macroman_to_char, macroman_to_string, string_to_macroman, MacRomanString,
};
pub use packet::TrackerPacket;
pub use registration_record::RegistrationRecord;
pub use server_record::ServerRecord;
pub use update_record::UpdateRecord;
