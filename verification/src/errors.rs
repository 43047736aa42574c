//! Error taxonomy of the protocol core.
//!
//! Transport failures, protocol-level non-conformance, pre-flight validation
//! and the convergence check each get their own variant, so a caller can
//! tell "could not send" from "sent but not confirmed".

use vstd::prelude::*;

verus! {

/// Why a session operation failed.
#[derive(Debug, Clone, Copy, PartialEq, Eq, Structural)]
pub enum SwitcherError {
    /// The transport could not be opened: reported, not retried here.
    ConnectError,
    /// The login reply carried fewer than the 20 bytes a session id needs.
    LoginTooShort,
    /// The device sent no usable reply to a rename command.
    NoResponse,
    /// The status reply was too short to come from a real device.
    NoOrInvalidDevice,
    /// The requested name has a UTF-8 byte length outside 2..=32; rejected
    /// before any traffic is sent.
    InvalidNameLength,
    /// The command was sent, but two status polls never showed the desired
    /// state; commonly a wrong device identifier.
    CommandNotConfirmed,
}

impl SwitcherError {
    /// A fixed human-readable description of the failure.
    pub fn message(&self) -> (r: &'static str)
        ensures
            *self == SwitcherError::ConnectError ==> r@ == "could not connect to device"@,
            *self == SwitcherError::LoginTooShort ==> r@ == "login response too short"@,
            *self == SwitcherError::NoResponse ==> r@ == "device did not respond"@,
            *self == SwitcherError::NoOrInvalidDevice ==> r@
                == "device did not respond or invalid device ID"@,
            *self == SwitcherError::InvalidNameLength ==> r@
                == "device name length must be between 2 and 32 bytes"@,
            *self == SwitcherError::CommandNotConfirmed ==> r@
                == "command sent but device state did not change"@,
    {
        match self {
            SwitcherError::ConnectError => "could not connect to device",
            SwitcherError::LoginTooShort => "login response too short",
            SwitcherError::NoResponse => "device did not respond",
            SwitcherError::NoOrInvalidDevice => "device did not respond or invalid device ID",
            SwitcherError::InvalidNameLength => "device name length must be between 2 and 32 bytes",
            SwitcherError::CommandNotConfirmed => "command sent but device state did not change",
        }
    }
}

} // verus!
