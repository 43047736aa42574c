use switcher_rust::control::{
    parse_login_response, parse_rename_response, parse_status_response, ConvergenceCheck,
    PollVerdict, SwitcherController, COMMAND_RETRY_DELAY_MS, COMMAND_VERIFY_DELAY_MS,
    SWITCHER_PORT,
};
use switcher_rust::device::DeviceState;
use switcher_rust::errors::SwitcherError;
use switcher_rust::config::UnifiedConfig;
use switcher_rust::hexstr::is_hex_str;
use switcher_rust::utils::{current_timestamp, current_timestamp_hex, format_elapsed, format_timestamp, timestamp_hex};

#[test]
fn controller_new_sets_standard_port() {
    let c = SwitcherController::new("192.168.1.100".to_string(), "9c4f22".to_string());
    assert_eq!(c.ip_address, "192.168.1.100");
    assert_eq!(c.device_id, "9c4f22");
    assert_eq!(c.port, SWITCHER_PORT);
    assert_eq!(SWITCHER_PORT, 9957);
}

#[test]
fn login_response_too_short_is_rejected() {
    assert_eq!(
        parse_login_response(&[0u8; 19]),
        Err(SwitcherError::LoginTooShort)
    );
    assert_eq!(parse_login_response(&[]), Err(SwitcherError::LoginTooShort));
}

#[test]
fn login_response_yields_session_id() {
    let mut resp = vec![0u8; 24];
    resp[16] = 0xde;
    resp[17] = 0xad;
    resp[18] = 0xbe;
    resp[19] = 0xef;
    assert_eq!(parse_login_response(&resp).unwrap(), "deadbeef");
}

#[test]
fn status_response_too_short_is_rejected() {
    assert_eq!(
        parse_status_response(&[0u8; 49]),
        Err(SwitcherError::NoOrInvalidDevice)
    );
}

#[test]
fn status_response_reads_state_and_power() {
    let mut resp = vec![0u8; 80];
    resp[75] = 0x01;
    resp[77] = 0xd2;
    resp[78] = 0x04;
    let st = parse_status_response(&resp).unwrap();
    assert_eq!(st.state, DeviceState::On);
    assert_eq!(st.power_consumption, 1234);

    resp[75] = 0x00;
    let st = parse_status_response(&resp).unwrap();
    assert_eq!(st.state, DeviceState::Off);

    // Unlike discovery decoding, an unrecognized live-status byte is Unknown.
    resp[75] = 0x7f;
    let st = parse_status_response(&resp).unwrap();
    assert_eq!(st.state, DeviceState::Unknown);
}

#[test]
fn status_response_degrades_per_field() {
    // 50..=75 bytes: no state byte, no power bytes: safe defaults.
    let resp = vec![0u8; 60];
    let st = parse_status_response(&resp).unwrap();
    assert_eq!(st.state, DeviceState::Off);
    assert_eq!(st.power_consumption, 0);

    // State byte present, power bytes missing.
    let mut resp = vec![0u8; 77];
    resp[75] = 0x01;
    let st = parse_status_response(&resp).unwrap();
    assert_eq!(st.state, DeviceState::On);
    assert_eq!(st.power_consumption, 0);
}

#[test]
fn rename_response_needs_twenty_bytes() {
    assert_eq!(
        parse_rename_response(&[0u8; 19]),
        Err(SwitcherError::NoResponse)
    );
    assert!(parse_rename_response(&[0u8; 20]).is_ok());
    assert!(parse_rename_response(&[0u8; 100]).is_ok());
}

#[test]
fn convergence_confirms_on_immediate_match() {
    // A device that reports the desired state right away: one poll, done.
    let mut check = ConvergenceCheck::new(DeviceState::On);
    assert_eq!(check.next_delay_ms(), COMMAND_VERIFY_DELAY_MS);
    assert_eq!(check.observe(DeviceState::On), PollVerdict::Confirmed);
    assert_eq!(check.polls_done, 1);
}

#[test]
fn convergence_confirms_on_second_poll() {
    // A device that converges only after the retry delay: exactly two polls.
    let mut check = ConvergenceCheck::new(DeviceState::On);
    assert_eq!(check.observe(DeviceState::Off), PollVerdict::PollAgain);
    assert_eq!(check.next_delay_ms(), COMMAND_RETRY_DELAY_MS);
    assert_eq!(check.observe(DeviceState::On), PollVerdict::Confirmed);
    assert_eq!(check.polls_done, 2);
}

#[test]
fn convergence_fails_after_two_mismatches() {
    // A device that never converges: two polls, then a final verdict and no
    // third attempt.
    let mut check = ConvergenceCheck::new(DeviceState::On);
    assert_eq!(check.observe(DeviceState::Off), PollVerdict::PollAgain);
    assert_eq!(check.observe(DeviceState::Off), PollVerdict::NotConfirmed);
    assert_eq!(check.polls_done, 2);
}

#[test]
fn convergence_delays_are_fixed() {
    assert_eq!(COMMAND_VERIFY_DELAY_MS, 500);
    assert_eq!(COMMAND_RETRY_DELAY_MS, 1000);
}

#[test]
fn turn_off_convergence_mirrors_turn_on() {
    let mut check = ConvergenceCheck::new(DeviceState::Off);
    assert_eq!(check.observe(DeviceState::On), PollVerdict::PollAgain);
    assert_eq!(check.observe(DeviceState::Off), PollVerdict::Confirmed);
}

#[test]
fn error_messages_are_stable() {
    assert_eq!(
        SwitcherError::CommandNotConfirmed.message(),
        "command sent but device state did not change"
    );
    assert_eq!(
        SwitcherError::NoOrInvalidDevice.message(),
        "device did not respond or invalid device ID"
    );
    assert_eq!(
        SwitcherError::InvalidNameLength.message(),
        "device name length must be between 2 and 32 bytes"
    );
}

#[test]
fn timestamp_hex_is_eight_zero_padded_digits() {
    assert_eq!(timestamp_hex(0), "00000000");
    assert_eq!(timestamp_hex(0xabc), "00000abc");
    assert_eq!(timestamp_hex(0x12345678), "12345678");
    assert_eq!(timestamp_hex(0xffffffff), "ffffffff");
}

#[test]
fn current_time_renders_as_packet_hex() {
    let before = current_timestamp();
    let hex = current_timestamp_hex();
    let after = current_timestamp();
    assert_eq!(hex.len(), 8);
    assert!(is_hex_str(&hex, 8));
    // The reading sits between the two surrounding clock reads.
    let value = u64::from_str_radix(&hex, 16).unwrap();
    assert!(before <= value && value <= after);
}

#[test]
fn format_timestamp_handles_past_and_future() {
    let now = current_timestamp();
    assert!(format_timestamp(now + 100000).contains("future"));
    assert!(format_timestamp(now.saturating_sub(5)).contains("seconds ago"));
}

#[test]
fn unified_config_starts_empty() {
    let config = UnifiedConfig::new();
    assert!(config.cache.is_none());
    assert!(config.pairing.is_none());
    assert_eq!(config.version, "0.1.0");
}

#[test]
fn elapsed_text_coarsens_units() {
    assert_eq!(format_elapsed(0), "0 seconds ago");
    assert_eq!(format_elapsed(59), "59 seconds ago");
    assert_eq!(format_elapsed(120), "2 minutes ago");
    assert_eq!(format_elapsed(7200), "2 hours ago");
    assert_eq!(format_elapsed(172800), "2 days ago");
}
