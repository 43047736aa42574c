//! Session-level protocol: login and response interpretation, and the
//! verify-and-retry policy for power commands.
//!
//! Every operation against a device opens its own TCP connection, logs in,
//! sends one signed command and (for status and rename) reads one reply.
//! The transport itself lives outside this crate; what stands here is the
//! part that decides: which bytes mean a usable login reply, how a status
//! reply is read, and when a power command counts as confirmed.

use vstd::prelude::*;

use crate::device::{spec_le_u16, DeviceState, DeviceStatus};
use crate::errors::SwitcherError;
use crate::hexstr::{hex_encode, is_hex_field, spec_hex_of};
use vstd::slice::slice_subrange;

verus! {

/// TCP port every plug listens on for commands.
pub const SWITCHER_PORT: u16 = 9957;

/// Hard deadline for reading the login reply, in seconds.
pub const LOGIN_TIMEOUT_SECS: u64 = 3;

/// Hard deadline for opening a connection, in seconds.
///
/// The connect of every operation is bounded by this; an unbounded connect
/// would be a silent hang on an unreachable address.
pub const CONNECT_TIMEOUT_SECS: u64 = 5;

/// A login reply must carry at least this many bytes to hold a session id.
pub const MIN_LOGIN_RESPONSE_LEN: usize = 20;

/// Byte offset of the state in a status reply.
pub const DEVICE_STATE_BYTE_POS: usize = 75;

/// Byte offset of the low consumption byte in a status reply.
pub const POWER_BYTE_POS: usize = 77;

/// Settle delay before the first verification poll, in milliseconds.
pub const COMMAND_VERIFY_DELAY_MS: u64 = 500;

/// Longer delay before the one retry poll, in milliseconds.
pub const COMMAND_RETRY_DELAY_MS: u64 = 1000;

/// Addresses one plug for session operations: where to connect and which
/// device id to put into command payloads.
pub struct SwitcherController {
    pub ip_address: String,
    pub device_id: String,
    pub port: u16,
}

impl SwitcherController {
    /// A controller for the device at `ip_address` with the given id,
    /// talking to the standard command port.
    pub fn new(ip_address: String, device_id: String) -> (r: Self)
        ensures
            r.ip_address == ip_address,
            r.device_id == device_id,
            r.port == SWITCHER_PORT,
    {
        SwitcherController { ip_address, device_id, port: SWITCHER_PORT }
    }
}

/// Interprets a login reply.
///
/// A reply of at least 20 bytes yields the session id: the four bytes at
/// offset 16..20, hex-encoded to eight digits. Anything shorter is
/// `LoginTooShort`.
pub fn parse_login_response(response: &[u8]) -> (r: Result<String, SwitcherError>)
    ensures
        r is Ok <==> response@.len() >= MIN_LOGIN_RESPONSE_LEN,
        r matches Ok(sid) ==> {
            &&& sid@ == spec_hex_of(response@.subrange(16, 20))
            &&& is_hex_field(sid@, 8)
        },
        r matches Err(e) ==> e == SwitcherError::LoginTooShort,
{
    if response.len() < MIN_LOGIN_RESPONSE_LEN {
        return Err(SwitcherError::LoginTooShort);
    }
    let sid = hex_encode(slice_subrange(response, 16, 20));
    proof {
        crate::hexstr::lemma_hex_of_props(response@.subrange(16, 20));
    }
    Ok(sid)
}

/// The state a status reply reports.
///
/// Unlike discovery decoding, an unrecognized state byte here is `Unknown`;
/// a reply too short to carry the byte degrades to `Off`.
pub open spec fn spec_status_state(response: Seq<u8>) -> DeviceState {
    if response.len() > DEVICE_STATE_BYTE_POS {
        if response[DEVICE_STATE_BYTE_POS as int] == 0x01 {
            DeviceState::On
        } else if response[DEVICE_STATE_BYTE_POS as int] == 0x00 {
            DeviceState::Off
        } else {
            DeviceState::Unknown
        }
    } else {
        DeviceState::Off
    }
}

/// The consumption a status reply reports: little-endian at its fixed
/// offset, degrading to 0 when the reply is too short to carry both bytes.
pub open spec fn spec_status_power(response: Seq<u8>) -> u16 {
    if response.len() > POWER_BYTE_POS + 1 {
        spec_le_u16(response[POWER_BYTE_POS as int], response[POWER_BYTE_POS + 1])
    } else {
        0
    }
}

/// Interprets a status reply.
///
/// Replies under 50 bytes cannot come from a real device and yield
/// `NoOrInvalidDevice`. Longer replies degrade gracefully per field: state
/// and consumption each fall back to a safe default (`Off`, `0`) when the
/// reply stops before their offset.
pub fn parse_status_response(response: &[u8]) -> (r: Result<DeviceStatus, SwitcherError>)
    ensures
        r is Ok <==> response@.len() >= 50,
        r matches Ok(st) ==> {
            &&& st.state == spec_status_state(response@)
            &&& st.power_consumption == spec_status_power(response@)
        },
        r matches Err(e) ==> e == SwitcherError::NoOrInvalidDevice,
{
    let len = response.len();
    if len < 50 {
        return Err(SwitcherError::NoOrInvalidDevice);
    }
    let state = if len > DEVICE_STATE_BYTE_POS {
        if response[DEVICE_STATE_BYTE_POS] == 0x01 {
            DeviceState::On
        } else if response[DEVICE_STATE_BYTE_POS] == 0x00 {
            DeviceState::Off
        } else {
            DeviceState::Unknown
        }
    } else {
        DeviceState::Off
    };
    let power_consumption = if len > POWER_BYTE_POS + 1 {
        crate::device::le_u16(response[POWER_BYTE_POS], response[POWER_BYTE_POS + 1])
    } else {
        0
    };
    Ok(DeviceStatus { state, power_consumption })
}

/// Interprets the reply to a rename command: at least 20 bytes count as an
/// acknowledgement, anything shorter is `NoResponse`.
pub fn parse_rename_response(response: &[u8]) -> (r: Result<(), SwitcherError>)
    ensures
        r is Ok <==> response@.len() >= 20,
        r matches Err(e) ==> e == SwitcherError::NoResponse,
{
    if response.len() < 20 {
        return Err(SwitcherError::NoResponse);
    }
    Ok(())
}

/// What one verification poll decides.
#[derive(Debug, Clone, Copy, PartialEq, Eq, Structural)]
pub enum PollVerdict {
    /// The device reports the desired state: the command is confirmed.
    Confirmed,
    /// First mismatch: wait the retry delay and poll exactly once more.
    PollAgain,
    /// Second mismatch: the command was sent but never confirmed.
    NotConfirmed,
}

/// What a poll decides, given how many polls went before it.
pub open spec fn spec_poll_verdict(
    desired: DeviceState,
    polls_done: u8,
    observed: DeviceState,
) -> PollVerdict {
    if observed == desired {
        PollVerdict::Confirmed
    } else if polls_done == 0 {
        PollVerdict::PollAgain
    } else {
        PollVerdict::NotConfirmed
    }
}

/// The verify-and-retry policy for a power command: an at-most-two-poll
/// convergence check.
///
/// After the control command is sent, the device's status is polled after a
/// fixed settle delay; a mismatch earns exactly one more poll after a longer
/// fixed delay, and a second mismatch is final. There is no third attempt
/// and no backoff.
pub struct ConvergenceCheck {
    /// The state the command was meant to reach; never `Unknown`.
    pub desired: DeviceState,
    /// How many status polls have been judged so far.
    pub polls_done: u8,
}

impl ConvergenceCheck {
    /// The check's invariant: a real target state, at most two polls.
    pub open spec fn wf(&self) -> bool {
        self.desired != DeviceState::Unknown && self.polls_done <= 2
    }

    /// A fresh check for one command: no polls judged yet.
    pub fn new(desired: DeviceState) -> (r: Self)
        requires
            desired != DeviceState::Unknown,
        ensures
            r.desired == desired,
            r.polls_done == 0,
            r.wf(),
    {
        ConvergenceCheck { desired, polls_done: 0 }
    }

    /// How long to wait before the next status poll: the settle delay before
    /// the first, the longer retry delay before the second.
    pub fn next_delay_ms(&self) -> (r: u64)
        requires
            self.polls_done < 2,
        ensures
            r == if self.polls_done == 0 {
                COMMAND_VERIFY_DELAY_MS
            } else {
                COMMAND_RETRY_DELAY_MS
            },
    {
        if self.polls_done == 0 {
            COMMAND_VERIFY_DELAY_MS
        } else {
            COMMAND_RETRY_DELAY_MS
        }
    }

    /// Judges one observed status against the desired state.
    pub fn observe(&mut self, observed: DeviceState) -> (r: PollVerdict)
        requires
            old(self).wf(),
            old(self).polls_done < 2,
        ensures
            final(self).desired == old(self).desired,
            final(self).polls_done == old(self).polls_done + 1,
            final(self).wf(),
            r == spec_poll_verdict(old(self).desired, old(self).polls_done, observed),
    {
        let first_poll = self.polls_done == 0;
        self.polls_done = self.polls_done + 1;
        if observed == self.desired {
            PollVerdict::Confirmed
        } else if first_poll {
            PollVerdict::PollAgain
        } else {
            PollVerdict::NotConfirmed
        }
    }
}

/// The convergence check polls at most twice: a match confirms at either
/// poll, a first mismatch asks for exactly one more poll, and a second
/// mismatch is final.
pub proof fn lemma_at_most_two_polls(
    desired: DeviceState,
    first: DeviceState,
    second: DeviceState,
)
    ensures
        first == desired ==> spec_poll_verdict(desired, 0, first) == PollVerdict::Confirmed,
        first != desired ==> spec_poll_verdict(desired, 0, first) == PollVerdict::PollAgain,
        second == desired ==> spec_poll_verdict(desired, 1, second) == PollVerdict::Confirmed,
        second != desired ==> spec_poll_verdict(desired, 1, second) == PollVerdict::NotConfirmed,
{
}

} // verus!
