//! Packet codec and signer: the hex-textual command payloads and their
//! two-stage CRC signature.
//!
//! Every command travels as a hex string built from a fixed template with a
//! session id, a timestamp and (for addressed commands) the device id
//! interpolated at fixed offsets. Before it goes on the wire the payload is
//! signed: a CRC-16 over the payload bytes, byte-swapped and appended, then a
//! second CRC-16 over that swapped digest padded with 32 ASCII `'0'` bytes,
//! byte-swapped and appended as well. The checksum itself comes from the
//! `crc` crate behind a trusted wrapper; everything around it — templates,
//! byte order, the key buffer, the final layout — is verified.

use vstd::prelude::*;

use crate::errors::SwitcherError;
use crate::hexstr::{
    all_hex, char_repeat, hex_decode, hex_encode, is_hex_digit, is_hex_field, is_hex_str,
    lemma_all_hex_concat, lemma_hex_of_props, push_hex_pair, spec_hex_bytes, spec_hex_of,
    spec_hex_pair, string_push, valid_hex,
};
use vstd::string::{StrSliceExecFns, StringExecFns, StringSliceAdditionalSpecFns};

verus! {

/// Both CRC stages run with this initial register value, not the standard
/// all-zero seed.
pub const CRC_SEED: u16 = 0x1021;

/// What the CRC-16/XMODEM algorithm (polynomial 0x1021) computes over a byte
/// sequence from a given initial register value; a pure function of both.
pub uninterp spec fn crc16_xmodem(init: u16, data: Seq<u8>) -> u16;

/// Relies on crc::Crc<u16> with crc::CRC_16_XMODEM and a caller-chosen
/// initial register: digests the bytes and yields the 16-bit checksum.
#[verifier::external_body]
fn crc16_with_initial(init: u16, data: &[u8]) -> (r: u16)
    ensures
        r == crc16_xmodem(init, data@),
{
    let algo = crc::Crc::<u16>::new(&crc::CRC_16_XMODEM);
    let mut digest = algo.digest_with_initial(init);
    digest.update(data);
    digest.finalize()
}

/// A 16-bit checksum as it appears in a signature: the big-endian hex
/// rendering with its two bytes swapped, so the low byte's pair comes first.
pub open spec fn spec_crc_sig(c: u16) -> Seq<char> {
    spec_hex_pair((c & 0xff) as u8) + spec_hex_pair((c >> 8) as u8)
}

/// The 34-byte key buffer of the second CRC stage: the swapped packet
/// checksum bytes followed by 32 ASCII `'0'` (0x30) bytes.
pub open spec fn spec_key_bytes(c: u16) -> Seq<u8> {
    seq![(c & 0xff) as u8, (c >> 8) as u8] + Seq::new(32, |i: int| 0x30u8)
}

/// The four-character signature suffix for a payload's raw bytes.
pub open spec fn spec_signature(payload_bytes: Seq<u8>) -> Seq<char> {
    let packet_crc = crc16_xmodem(CRC_SEED, payload_bytes);
    let key_crc = crc16_xmodem(CRC_SEED, spec_key_bytes(packet_crc));
    spec_crc_sig(packet_crc) + spec_crc_sig(key_crc)
}

/// A signed packet: the hex payload with its four signature characters
/// appended.
pub open spec fn spec_sign(payload: Seq<char>) -> Seq<char> {
    payload + spec_signature(spec_hex_bytes(payload))
}

/// Appends the two-stage CRC signature to a hex payload.
///
/// Signing is deterministic: the result is a function of the payload text
/// alone, so signing the same payload twice yields the same four trailing
/// characters.
pub fn sign_packet(payload: &str) -> (r: String)
    requires
        valid_hex(payload@),
    ensures
        r@ == spec_sign(payload@),
        r@.len() == payload@.len() + 8,
{
    let bytes = match hex_decode(payload) {
        Ok(b) => b,
        Err(_) => {
            proof {
                assert(false);
            }
            Vec::new()
        },
    };
    let packet_crc = crc16_with_initial(CRC_SEED, bytes.as_slice());

    let mut key: Vec<u8> = Vec::new();
    key.push((packet_crc & 0xff) as u8);
    key.push((packet_crc >> 8) as u8);
    let mut i: usize = 0;
    while i < 32
        invariant
            i <= 32,
            key@ == seq![(packet_crc & 0xff) as u8, (packet_crc >> 8) as u8] + Seq::new(
                i as nat,
                |j: int| 0x30u8,
            ),
        decreases 32 - i,
    {
        key.push(0x30);
        proof {
            assert(Seq::new((i + 1) as nat, |j: int| 0x30u8) =~= Seq::new(i as nat, |j: int| 0x30u8)
                .push(0x30u8));
        }
        i += 1;
    }
    assert(key@ =~= spec_key_bytes(packet_crc));
    let key_crc = crc16_with_initial(CRC_SEED, key.as_slice());

    let mut out = payload.to_owned();
    push_hex_pair(&mut out, (packet_crc & 0xff) as u8);
    push_hex_pair(&mut out, (packet_crc >> 8) as u8);
    push_hex_pair(&mut out, (key_crc & 0xff) as u8);
    push_hex_pair(&mut out, (key_crc >> 8) as u8);
    assert(out@ =~= spec_sign(payload@));
    out
}

/// Signing depends on the payload text alone: equal payloads get equal
/// signed packets, and in particular the same four trailing characters.
pub proof fn lemma_signing_deterministic(p1: Seq<char>, p2: Seq<char>)
    requires
        p1 == p2,
    ensures
        spec_sign(p1) == spec_sign(p2),
        spec_sign(p1).skip(p1.len() as int) == spec_sign(p2).skip(p2.len() as int),
{
}

/// The login payload: no session id; the timestamp sits between two fixed
/// runs of the template.
pub open spec fn spec_login_packet(ts: Seq<char>) -> Seq<char> {
    "fef052000232a10000000000340001000000000000000000"@ + ts
        + "00000000000000000000f0fe0000000000000000000000000000000000000000000000000000000000000000000000000000"@
}

/// Builds the login payload around an 8-digit hex timestamp.
pub fn build_login_packet(timestamp: &str) -> (r: String)
    ensures
        r@ == spec_login_packet(timestamp@),
        is_hex_field(timestamp@, 8) ==> valid_hex(r@),
{
    let mut out = String::from_str("fef052000232a10000000000340001000000000000000000");
    out.append(timestamp);
    out.append(
        "00000000000000000000f0fe0000000000000000000000000000000000000000000000000000000000000000000000000000",
    );
    proof {
        lemma_login_packet_valid(timestamp@);
    }
    out
}

proof fn lemma_login_packet_valid(ts: Seq<char>)
    ensures
        is_hex_field(ts, 8) ==> valid_hex(spec_login_packet(ts)),
{
    let head = "fef052000232a10000000000340001000000000000000000"@;
    let tail =
        "00000000000000000000f0fe0000000000000000000000000000000000000000000000000000000000000000000000000000"@;
    reveal_strlit("fef052000232a10000000000340001000000000000000000");
    reveal_strlit(
        "00000000000000000000f0fe0000000000000000000000000000000000000000000000000000000000000000000000000000",
    );
    assert(head.len() == 48 && all_hex(head));
    assert(tail.len() == 100 && all_hex(tail));
    if is_hex_field(ts, 8) {
        lemma_all_hex_concat(head, ts);
        lemma_all_hex_concat(head + ts, tail);
    }
}

/// The control payload: session id, timestamp, device id and the single
/// ASCII digit command (`'1'` on, `'0'` off) at its fixed offset.
pub open spec fn spec_control_packet(sid: Seq<char>, ts: Seq<char>, did: Seq<char>, cmd: Seq<
    char,
>) -> Seq<char> {
    "fef05d0002320102"@ + sid + "340001000000000000000000"@ + ts
        + "00000000000000000000f0fe"@ + did
        + "000000000000000000000000000000000000000000000000000000000000000000000000000106000"@
        + cmd + "0000000000"@
}

/// Builds the control payload around the session id, the timestamp, the
/// device id and the command digit.
pub fn build_control_packet(session_id: &str, timestamp: &str, device_id: &str, command: &str) -> (r:
    String)
    ensures
        r@ == spec_control_packet(session_id@, timestamp@, device_id@, command@),
        is_hex_field(session_id@, 8) && is_hex_field(timestamp@, 8) && is_hex_field(device_id@, 6)
            && is_hex_field(command@, 1) ==> valid_hex(r@),
{
    let mut out = String::from_str("fef05d0002320102");
    out.append(session_id);
    out.append("340001000000000000000000");
    out.append(timestamp);
    out.append("00000000000000000000f0fe");
    out.append(device_id);
    out.append(
        "000000000000000000000000000000000000000000000000000000000000000000000000000106000",
    );
    out.append(command);
    out.append("0000000000");
    proof {
        lemma_control_packet_valid(session_id@, timestamp@, device_id@, command@);
    }
    out
}

proof fn lemma_control_packet_valid(sid: Seq<char>, ts: Seq<char>, did: Seq<char>, cmd: Seq<char>)
    ensures
        is_hex_field(sid, 8) && is_hex_field(ts, 8) && is_hex_field(did, 6) && is_hex_field(cmd, 1)
            ==> valid_hex(spec_control_packet(sid, ts, did, cmd)),
{
    let a = "fef05d0002320102"@;
    let b = "340001000000000000000000"@;
    let c = "00000000000000000000f0fe"@;
    let d = "000000000000000000000000000000000000000000000000000000000000000000000000000106000"@;
    let e = "0000000000"@;
    reveal_strlit("fef05d0002320102");
    reveal_strlit("340001000000000000000000");
    reveal_strlit("00000000000000000000f0fe");
    reveal_strlit(
        "000000000000000000000000000000000000000000000000000000000000000000000000000106000",
    );
    reveal_strlit("0000000000");
    assert(a.len() == 16 && all_hex(a));
    assert(b.len() == 24 && all_hex(b));
    assert(c.len() == 24 && all_hex(c));
    assert(d.len() == 81 && all_hex(d));
    assert(e.len() == 10 && all_hex(e));
    if is_hex_field(sid, 8) && is_hex_field(ts, 8) && is_hex_field(did, 6) && is_hex_field(cmd, 1) {
        lemma_all_hex_concat(a, sid);
        lemma_all_hex_concat(a + sid, b);
        lemma_all_hex_concat(a + sid + b, ts);
        lemma_all_hex_concat(a + sid + b + ts, c);
        lemma_all_hex_concat(a + sid + b + ts + c, did);
        lemma_all_hex_concat(a + sid + b + ts + c + did, d);
        lemma_all_hex_concat(a + sid + b + ts + c + did + d, cmd);
        lemma_all_hex_concat(a + sid + b + ts + c + did + d + cmd, e);
    }
}

/// The status-request payload: session id, timestamp and device id.
pub open spec fn spec_get_state_packet(sid: Seq<char>, ts: Seq<char>, did: Seq<char>) -> Seq<
    char,
> {
    "fef0300002320103"@ + sid + "340001000000000000000000"@ + ts
        + "00000000000000000000f0fe"@ + did + "00"@
}

/// Builds the status-request payload.
pub fn build_get_state_packet(session_id: &str, timestamp: &str, device_id: &str) -> (r: String)
    ensures
        r@ == spec_get_state_packet(session_id@, timestamp@, device_id@),
        is_hex_field(session_id@, 8) && is_hex_field(timestamp@, 8) && is_hex_field(device_id@, 6)
            ==> valid_hex(r@),
{
    let mut out = String::from_str("fef0300002320103");
    out.append(session_id);
    out.append("340001000000000000000000");
    out.append(timestamp);
    out.append("00000000000000000000f0fe");
    out.append(device_id);
    out.append("00");
    proof {
        lemma_get_state_packet_valid(session_id@, timestamp@, device_id@);
    }
    out
}

proof fn lemma_get_state_packet_valid(sid: Seq<char>, ts: Seq<char>, did: Seq<char>)
    ensures
        is_hex_field(sid, 8) && is_hex_field(ts, 8) && is_hex_field(did, 6) ==> valid_hex(
            spec_get_state_packet(sid, ts, did),
        ),
{
    let a = "fef0300002320103"@;
    let b = "340001000000000000000000"@;
    let c = "00000000000000000000f0fe"@;
    let e = "00"@;
    reveal_strlit("fef0300002320103");
    reveal_strlit("340001000000000000000000");
    reveal_strlit("00000000000000000000f0fe");
    reveal_strlit("00");
    assert(a.len() == 16 && all_hex(a));
    assert(b.len() == 24 && all_hex(b));
    assert(c.len() == 24 && all_hex(c));
    assert(e.len() == 2 && all_hex(e));
    if is_hex_field(sid, 8) && is_hex_field(ts, 8) && is_hex_field(did, 6) {
        lemma_all_hex_concat(a, sid);
        lemma_all_hex_concat(a + sid, b);
        lemma_all_hex_concat(a + sid + b, ts);
        lemma_all_hex_concat(a + sid + b + ts, c);
        lemma_all_hex_concat(a + sid + b + ts + c, did);
        lemma_all_hex_concat(a + sid + b + ts + c + did, e);
    }
}

/// The 64-character name field: the name's bytes hex-encoded, right-padded
/// with `"00"` pairs.
pub open spec fn spec_name_hex(name_bytes: Seq<u8>) -> Seq<char> {
    spec_hex_of(name_bytes) + char_repeat(64 - 2 * name_bytes.len(), '0')
}

/// Encodes a device name for the rename payload.
///
/// Succeeds exactly when the name's UTF-8 byte length lies in 2..=32, before
/// any network traffic; anything else is `InvalidNameLength`. The encoding
/// is the name's bytes in hex, zero-padded to exactly 64 characters.
pub fn encode_device_name(name: &str) -> (r: Result<String, SwitcherError>)
    ensures
        r is Ok <==> 2 <= name.spec_bytes().len() <= 32,
        r matches Ok(h) ==> {
            &&& h@ == spec_name_hex(name.spec_bytes())
            &&& h@.len() == 64
            &&& all_hex(h@)
        },
        r matches Err(e) ==> e == SwitcherError::InvalidNameLength,
{
    let name_bytes = name.as_bytes();
    let length = name_bytes.len();
    if length < 2 || length > 32 {
        return Err(SwitcherError::InvalidNameLength);
    }
    let mut out = hex_encode(name_bytes);
    let mut i: usize = length;
    while i < 32
        invariant
            length <= i <= 32,
            out@ == spec_hex_of(name.spec_bytes()) + char_repeat(2 * (i - length), '0'),
        decreases 32 - i,
    {
        string_push(&mut out, '0');
        string_push(&mut out, '0');
        proof {
            assert(char_repeat(2 * (i + 1 - length), '0') =~= char_repeat(2 * (i - length), '0')
                .push('0').push('0'));
        }
        i += 1;
    }
    proof {
        lemma_hex_of_props(name.spec_bytes());
        assert(char_repeat(2 * (32 - length), '0') =~= char_repeat(
            64 - 2 * name.spec_bytes().len(),
            '0',
        ));
        assert(forall|j: int|
            0 <= j < char_repeat(64 - 2 * name.spec_bytes().len(), '0').len() ==> is_hex_digit(
                #[trigger] char_repeat(64 - 2 * name.spec_bytes().len(), '0')[j],
            ));
        lemma_all_hex_concat(
            spec_hex_of(name.spec_bytes()),
            char_repeat(64 - 2 * name.spec_bytes().len(), '0'),
        );
    }
    Ok(out)
}

/// The rename payload: session id, timestamp, device id and the encoded
/// 64-character name field.
pub open spec fn spec_set_name_packet(
    sid: Seq<char>,
    ts: Seq<char>,
    did: Seq<char>,
    name_hex: Seq<char>,
) -> Seq<char> {
    "fef0740002320202"@ + sid + "340001000000000000000000"@ + ts
        + "00000000000000000000f0fe"@ + did
        + "00000000000000000000000000000000000000000000000000000000000000000000000000"@ + name_hex
}

/// Builds the rename payload around an already-encoded name field.
pub fn build_set_name_packet(session_id: &str, timestamp: &str, device_id: &str, name_hex: &str) -> (r:
    String)
    ensures
        r@ == spec_set_name_packet(session_id@, timestamp@, device_id@, name_hex@),
        is_hex_field(session_id@, 8) && is_hex_field(timestamp@, 8) && is_hex_field(device_id@, 6)
            && is_hex_field(name_hex@, 64) ==> valid_hex(r@),
{
    let mut out = String::from_str("fef0740002320202");
    out.append(session_id);
    out.append("340001000000000000000000");
    out.append(timestamp);
    out.append("00000000000000000000f0fe");
    out.append(device_id);
    out.append("00000000000000000000000000000000000000000000000000000000000000000000000000");
    out.append(name_hex);
    proof {
        lemma_set_name_packet_valid(session_id@, timestamp@, device_id@, name_hex@);
    }
    out
}

proof fn lemma_set_name_packet_valid(sid: Seq<char>, ts: Seq<char>, did: Seq<char>, nh: Seq<char>)
    ensures
        is_hex_field(sid, 8) && is_hex_field(ts, 8) && is_hex_field(did, 6) && is_hex_field(nh, 64)
            ==> valid_hex(spec_set_name_packet(sid, ts, did, nh)),
{
    let a = "fef0740002320202"@;
    let b = "340001000000000000000000"@;
    let c = "00000000000000000000f0fe"@;
    let d = "00000000000000000000000000000000000000000000000000000000000000000000000000"@;
    reveal_strlit("fef0740002320202");
    reveal_strlit("340001000000000000000000");
    reveal_strlit("00000000000000000000f0fe");
    reveal_strlit("00000000000000000000000000000000000000000000000000000000000000000000000000");
    assert(a.len() == 16 && all_hex(a));
    assert(b.len() == 24 && all_hex(b));
    assert(c.len() == 24 && all_hex(c));
    assert(d.len() == 74 && all_hex(d));
    if is_hex_field(sid, 8) && is_hex_field(ts, 8) && is_hex_field(did, 6) && is_hex_field(nh, 64) {
        lemma_all_hex_concat(a, sid);
        lemma_all_hex_concat(a + sid, b);
        lemma_all_hex_concat(a + sid + b, ts);
        lemma_all_hex_concat(a + sid + b + ts, c);
        lemma_all_hex_concat(a + sid + b + ts + c, did);
        lemma_all_hex_concat(a + sid + b + ts + c + did, d);
        lemma_all_hex_concat(a + sid + b + ts + c + did + d, nh);
    }
}

/// Builds and signs the login payload, after checking that the timestamp is
/// an 8-digit hex field.
pub fn signed_login_packet(timestamp: &str) -> (r: Option<String>)
    ensures
        r is Some <==> is_hex_field(timestamp@, 8),
        r matches Some(s) ==> s@ == spec_sign(spec_login_packet(timestamp@)),
{
    if !is_hex_str(timestamp, 8) {
        return None;
    }
    let payload = build_login_packet(timestamp);
    Some(sign_packet(payload.as_str()))
}

/// Builds and signs a control payload, after checking every interpolated
/// field; the command must be exactly `"1"` (on) or `"0"` (off).
pub fn signed_control_packet(session_id: &str, timestamp: &str, device_id: &str, command: &str) -> (r:
    Option<String>)
    ensures
        r is Some <==> {
            &&& is_hex_field(session_id@, 8)
            &&& is_hex_field(timestamp@, 8)
            &&& is_hex_field(device_id@, 6)
            &&& (command@ =~= seq!['1'] || command@ =~= seq!['0'])
        },
        r matches Some(s) ==> s@ == spec_sign(
            spec_control_packet(session_id@, timestamp@, device_id@, command@),
        ),
{
    if !is_hex_str(session_id, 8) || !is_hex_str(timestamp, 8) || !is_hex_str(device_id, 6) {
        return None;
    }
    if command.unicode_len() != 1 {
        return None;
    }
    let c = command.get_char(0);
    if c != '1' && c != '0' {
        return None;
    }
    assert(command@ =~= seq![c]);
    let payload = build_control_packet(session_id, timestamp, device_id, command);
    Some(sign_packet(payload.as_str()))
}

/// Builds and signs a status-request payload, after checking every
/// interpolated field.
pub fn signed_get_state_packet(session_id: &str, timestamp: &str, device_id: &str) -> (r: Option<
    String,
>)
    ensures
        r is Some <==> {
            &&& is_hex_field(session_id@, 8)
            &&& is_hex_field(timestamp@, 8)
            &&& is_hex_field(device_id@, 6)
        },
        r matches Some(s) ==> s@ == spec_sign(
            spec_get_state_packet(session_id@, timestamp@, device_id@),
        ),
{
    if !is_hex_str(session_id, 8) || !is_hex_str(timestamp, 8) || !is_hex_str(device_id, 6) {
        return None;
    }
    let payload = build_get_state_packet(session_id, timestamp, device_id);
    Some(sign_packet(payload.as_str()))
}

/// Builds and signs a rename payload.
///
/// The name is validated and encoded first, so an invalid length comes back
/// as `Err(InvalidNameLength)` before any traffic is sent. A session id,
/// timestamp or device id that is not a well-formed hex field yields
/// `Ok(None)`.
pub fn signed_set_name_packet(
    session_id: &str,
    timestamp: &str,
    device_id: &str,
    name: &str,
) -> (r: Result<Option<String>, SwitcherError>)
    ensures
        r matches Err(e) ==> {
            &&& e == SwitcherError::InvalidNameLength
            &&& !(2 <= name.spec_bytes().len() <= 32)
        },
        r is Ok ==> 2 <= name.spec_bytes().len() <= 32,
        r matches Ok(o) ==> {
            &&& o is Some <==> {
                &&& is_hex_field(session_id@, 8)
                &&& is_hex_field(timestamp@, 8)
                &&& is_hex_field(device_id@, 6)
            }
            &&& o matches Some(s) ==> s@ == spec_sign(
                spec_set_name_packet(
                    session_id@,
                    timestamp@,
                    device_id@,
                    spec_name_hex(name.spec_bytes()),
                ),
            )
        },
{
    let name_hex = match encode_device_name(name) {
        Ok(h) => h,
        Err(e) => {
            return Err(e);
        },
    };
    if !is_hex_str(session_id, 8) || !is_hex_str(timestamp, 8) || !is_hex_str(device_id, 6) {
        return Ok(None);
    }
    let payload = build_set_name_packet(session_id, timestamp, device_id, name_hex.as_str());
    Ok(Some(sign_packet(payload.as_str())))
}

} // verus!
