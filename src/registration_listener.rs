//! What the tracker does with each datagram that reaches its registration
//! port.
use vstd::prelude::*;

use crate::registration_record::{parse_registration, RegistrationRecord};

verus! {

/// The UDP port at which trackers take registrations.
pub const REGISTRATION_LISTEN_PORT: u16 = 5499;

/// The largest registration: the fixed part and three full strings.
pub const REGISTRATION_BUFFER_LEN: usize = 780;

#[derive(Debug, Clone, Copy, PartialEq, Eq, Structural)]
pub enum RegistrationListenerError {
    /// The datagram came over IPv6, which a registration cannot describe.
    UnsupportedProtocol,
}

/// Handles one datagram from `source` (its IPv4 address, or `None` for an
/// IPv6 sender): an IPv6 sender is an error; a datagram that is not exactly
/// one registration is dropped (`Ok(None)`); otherwise the registration goes
/// on with the address it came from.
pub fn accept_datagram(source: Option<[u8; 4]>, datagram: &[u8]) -> (r: Result<
    Option<([u8; 4], RegistrationRecord)>,
    RegistrationListenerError,
>)
    ensures
        source is None ==> r == Err::<Option<([u8; 4], RegistrationRecord)>, _>(
            RegistrationListenerError::UnsupportedProtocol,
        ),
        source matches Some(a) ==> match parse_registration(datagram@) {
            None => r matches Ok(None),
            Some(v) => r matches Ok(Some((from, rec))) && from == a && rec@ == v,
        },
{
    match source {
        None => Err(RegistrationListenerError::UnsupportedProtocol),
        Some(address) => match RegistrationRecord::from_bytes(datagram) {
            None => Ok(None),
            Some(record) => Ok(Some((address, record))),
        },
    }
}

} // verus!
