//! Device records and the discovery-broadcast decoder.
//!
//! A plug advertises itself in a fixed-layout 165-byte UDP broadcast.
//! `SwitcherDevice::from_discovery_packet` turns such a payload into a
//! `SwitcherDevice`, rejecting (with `None`, not an error) anything that is
//! not a well-formed broadcast from the one supported device type.

use vstd::prelude::*;

use crate::hexstr::{
    hex_encode, push_u64_decimal, spec_dec_of, spec_hex_of, string_push, HEX_UPPER,
};
use vstd::slice::slice_subrange;
use vstd::string::StringExecFns;

verus! {

/// Power state reported by a plug, either in a discovery broadcast or in a
/// live status reply.
///
/// Discovery decoding never produces `Unknown`: an unrecognized state byte in
/// a broadcast defaults to `Off`. Live status decoding does produce `Unknown`
/// for unrecognized bytes. Both behaviours are deliberate and asymmetric.
#[derive(Debug, Clone, Copy, PartialEq, Eq, Structural)]
pub enum DeviceState {
    On,
    Off,
    Unknown,
}

/// One physical plug, as advertised by a discovery broadcast.
#[derive(Debug)]
pub struct SwitcherDevice {
    /// Three identifier bytes, hex-encoded: six lowercase hex digits.
    pub device_id: String,
    /// One key byte, hex-encoded: two lowercase hex digits.
    pub device_key: String,
    /// Dotted-quad text form of the advertised address.
    pub ip_address: String,
    /// Colon-separated uppercase hex pairs, six bytes.
    pub mac_address: String,
    /// Device name, truncated at the first NUL byte of its 32-byte field.
    pub name: String,
    /// Human label of the one recognized device type.
    pub device_type: String,
    /// Power state advertised in the broadcast (`On` or `Off`, never
    /// `Unknown`).
    pub state: DeviceState,
    /// Advertised consumption in watts.
    pub power_consumption: u16,
}

/// A live status reading: state plus consumption.
#[derive(Debug, Clone, Copy, PartialEq, Eq, Structural)]
pub struct DeviceStatus {
    pub state: DeviceState,
    pub power_consumption: u16,
}

impl Clone for SwitcherDevice {
    fn clone(&self) -> (r: Self)
        ensures
            r == *self,
    {
        SwitcherDevice {
            device_id: self.device_id.clone(),
            device_key: self.device_key.clone(),
            ip_address: self.ip_address.clone(),
            mac_address: self.mac_address.clone(),
            name: self.name.clone(),
            device_type: self.device_type.clone(),
            state: self.state,
            power_consumption: self.power_consumption,
        }
    }
}

/// A little-endian 16-bit read: the first byte is the low byte.
pub open spec fn spec_le_u16(lo: u8, hi: u8) -> u16 {
    (lo + hi * 256) as u16
}

/// Assembles a `u16` from its low and high bytes.
pub fn le_u16(lo: u8, hi: u8) -> (r: u16)
    ensures
        r == spec_le_u16(lo, hi),
{
    lo as u16 + hi as u16 * 256
}

/// A payload the decoder accepts: exactly 165 bytes, the broadcast magic
/// prefix, and the one recognized type code.
pub open spec fn is_discovery_frame(data: Seq<u8>) -> bool {
    &&& data.len() == 165
    &&& data[0] == 0xfe
    &&& data[1] == 0xf0
    &&& data[74] == 0x01
    &&& data[75] == 0xa8
}

/// The name field up to, and not including, its first NUL byte.
pub open spec fn name_prefix(bytes: Seq<u8>) -> Seq<u8>
    decreases bytes.len(),
{
    if bytes.len() == 0 {
        seq![]
    } else if bytes.first() == 0 {
        seq![]
    } else {
        seq![bytes.first()] + name_prefix(bytes.drop_first())
    }
}

/// What `String::from_utf8_lossy` makes of a byte sequence; the characters
/// depend on the bytes alone.
pub uninterp spec fn utf8_lossy_of(bytes: Seq<u8>) -> Seq<char>;

/// Relies on String::from_utf8_lossy: decodes UTF-8, substituting the
/// replacement character for invalid sequences; a pure function of the bytes.
#[verifier::external_body]
fn utf8_lossy(bytes: &[u8]) -> (r: String)
    ensures
        r@ == utf8_lossy_of(bytes@),
{
    String::from_utf8_lossy(bytes).to_string()
}

/// Uppercase hex pair for one byte, high nibble first.
pub open spec fn spec_hex_pair_upper(b: u8) -> Seq<char> {
    seq![HEX_UPPER[(b >> 4) as int], HEX_UPPER[(b & 0x0f) as int]]
}

/// Canonical MAC text: six uppercase hex pairs joined by colons.
pub open spec fn spec_mac_of(b0: u8, b1: u8, b2: u8, b3: u8, b4: u8, b5: u8) -> Seq<char> {
    spec_hex_pair_upper(b0) + seq![':'] + spec_hex_pair_upper(b1) + seq![':']
        + spec_hex_pair_upper(b2) + seq![':'] + spec_hex_pair_upper(b3) + seq![':']
        + spec_hex_pair_upper(b4) + seq![':'] + spec_hex_pair_upper(b5)
}

/// Dotted-quad text of four address bytes, first byte first.
///
/// The wire field stores the 32-bit address byte-reversed; reversing the
/// four-byte group and then emitting the reassembled value's bytes from the
/// low end up is the same as printing the field's bytes in their stored
/// order, which is what this says.
pub open spec fn spec_ip_of(b0: u8, b1: u8, b2: u8, b3: u8) -> Seq<char> {
    spec_dec_of(b0 as u64) + seq!['.'] + spec_dec_of(b1 as u64) + seq!['.'] + spec_dec_of(
        b2 as u64,
    ) + seq!['.'] + spec_dec_of(b3 as u64)
}

fn push_hex_pair_upper(s: &mut String, b: u8)
    ensures
        final(s)@ == old(s)@ + spec_hex_pair_upper(b),
{
    assert((b >> 4) < 16 && (b & 0x0f) < 16) by (bit_vector);
    string_push(s, HEX_UPPER[(b >> 4) as usize]);
    string_push(s, HEX_UPPER[(b & 0x0f) as usize]);
}

proof fn lemma_name_prefix_take(bytes: Seq<u8>, k: int)
    requires
        0 <= k <= bytes.len(),
        forall|j: int| 0 <= j < k ==> bytes[j] != 0,
        k < bytes.len() ==> bytes[k] == 0,
    ensures
        name_prefix(bytes) == bytes.take(k),
    decreases bytes.len(),
{
    if k == 0 {
        assert(bytes.take(0) =~= Seq::<u8>::empty());
    } else {
        lemma_name_prefix_take(bytes.drop_first(), k - 1);
        assert(bytes.take(k) =~= seq![bytes.first()] + bytes.drop_first().take(k - 1));
    }
}

impl SwitcherDevice {
    /// Decodes one broadcast payload, or rejects it.
    ///
    /// Rejection is a non-match, not an error: broadcast traffic carries
    /// unrelated datagrams by design. A record comes back exactly for
    /// 165-byte payloads with the `fe f0` magic prefix and the `01a8` type
    /// code, and its fields are read from the fixed offsets of that layout.
    pub fn from_discovery_packet(data: &[u8]) -> (r: Option<Self>)
        ensures
            r is Some <==> is_discovery_frame(data@),
            r matches Some(d) ==> {
                &&& d.device_id@ == spec_hex_of(data@.subrange(18, 21))
                &&& crate::hexstr::is_hex_field(d.device_id@, 6)
                &&& d.device_key@ == spec_hex_of(data@.subrange(40, 41))
                &&& crate::hexstr::is_hex_field(d.device_key@, 2)
                &&& d.ip_address@ == spec_ip_of(data@[76], data@[77], data@[78], data@[79])
                &&& d.mac_address@ == spec_mac_of(
                    data@[80],
                    data@[81],
                    data@[82],
                    data@[83],
                    data@[84],
                    data@[85],
                )
                &&& d.name@ == utf8_lossy_of(name_prefix(data@.subrange(42, 74)))
                &&& d.device_type@ == "Switcher Power Plug"@
                &&& d.state == (if data@[133] == 0x01 {
                    DeviceState::On
                } else {
                    DeviceState::Off
                })
                &&& d.power_consumption == spec_le_u16(data@[135], data@[136])
            },
    {
        if data.len() != 165 {
            return None;
        }
        if data[0] != 0xfe || data[1] != 0xf0 {
            return None;
        }
        // Only the Power Plug type code is recognized; other models are
        // rejected outright rather than mislabeled.
        if data[74] != 0x01 || data[75] != 0xa8 {
            return None;
        }

        let device_id = hex_encode(slice_subrange(data, 18, 21));
        let device_key = hex_encode(slice_subrange(data, 40, 41));
        proof {
            crate::hexstr::lemma_hex_of_props(data@.subrange(18, 21));
            crate::hexstr::lemma_hex_of_props(data@.subrange(40, 41));
        }

        // The 32-byte name field ends at its first NUL.
        let name_field = slice_subrange(data, 42, 74);
        let mut name_end: usize = 0;
        while name_end < 32 && name_field[name_end] != 0
            invariant
                name_field@.len() == 32,
                name_end <= 32,
                forall|j: int| 0 <= j < name_end ==> name_field@[j] != 0,
            decreases 32 - name_end,
        {
            name_end += 1;
        }
        proof {
            lemma_name_prefix_take(name_field@, name_end as int);
        }
        let name = utf8_lossy(slice_subrange(name_field, 0, name_end));
        assert(name_field@.subrange(0, name_end as int) == name_field@.take(name_end as int));

        let mut ip_address = String::new();
        push_u64_decimal(&mut ip_address, data[76] as u64);
        string_push(&mut ip_address, '.');
        push_u64_decimal(&mut ip_address, data[77] as u64);
        string_push(&mut ip_address, '.');
        push_u64_decimal(&mut ip_address, data[78] as u64);
        string_push(&mut ip_address, '.');
        push_u64_decimal(&mut ip_address, data[79] as u64);
        assert(ip_address@ == spec_ip_of(data@[76], data@[77], data@[78], data@[79]));

        let mut mac_address = String::new();
        push_hex_pair_upper(&mut mac_address, data[80]);
        string_push(&mut mac_address, ':');
        push_hex_pair_upper(&mut mac_address, data[81]);
        string_push(&mut mac_address, ':');
        push_hex_pair_upper(&mut mac_address, data[82]);
        string_push(&mut mac_address, ':');
        push_hex_pair_upper(&mut mac_address, data[83]);
        string_push(&mut mac_address, ':');
        push_hex_pair_upper(&mut mac_address, data[84]);
        string_push(&mut mac_address, ':');
        push_hex_pair_upper(&mut mac_address, data[85]);
        assert(mac_address@ == spec_mac_of(
            data@[80],
            data@[81],
            data@[82],
            data@[83],
            data@[84],
            data@[85],
        ));

        let state = if data[133] == 0x01 {
            DeviceState::On
        } else {
            // Unlike live status decoding, discovery defaults unknown state
            // bytes to Off.
            DeviceState::Off
        };

        let power_consumption = le_u16(data[135], data[136]);

        Some(SwitcherDevice {
            device_id,
            device_key,
            ip_address,
            mac_address,
            name,
            device_type: String::from_str("Switcher Power Plug"),
            state,
            power_consumption,
        })
    }
}

} // verus!
