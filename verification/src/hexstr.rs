//! Text helpers shared by the discovery decoder and the packet codec: hex
//! encoding and decoding, digit rendering and character-exact comparison.
//!
//! The wire protocol is hex-textual: every packet travels as a string of hex
//! digits, and several device fields are kept hex-encoded. Encoding and
//! decoding between bytes and hex text is done by the `hex` crate behind
//! trusted wrappers; the spec functions here say exactly what those wrappers
//! return, so everything built on top of them is verified.

use vstd::prelude::*;
use vstd::string::StrSliceExecFns;

verus! {

/// The sixteen lowercase hex digits, indexable from spec and exec code.
pub const HEX_LOWER: [char; 16] = [
    '0', '1', '2', '3', '4', '5', '6', '7', '8', '9', 'a', 'b', 'c', 'd', 'e', 'f',
];

/// The sixteen uppercase hex digits.
pub const HEX_UPPER: [char; 16] = [
    '0', '1', '2', '3', '4', '5', '6', '7', '8', '9', 'A', 'B', 'C', 'D', 'E', 'F',
];

/// Lowercase hex encoding of a byte sequence: two digits per byte, high
/// nibble first.
pub open spec fn spec_hex_of(data: Seq<u8>) -> Seq<char>
    decreases data.len(),
{
    if data.len() == 0 {
        seq![]
    } else {
        seq![
            HEX_LOWER[(data.first() >> 4) as int],
            HEX_LOWER[(data.first() & 0x0f) as int],
        ] + spec_hex_of(data.drop_first())
    }
}

/// A character that the protocol accepts as a hex digit.
pub open spec fn is_hex_digit(c: char) -> bool {
    ('0' <= c && c <= '9') || ('a' <= c && c <= 'f') || ('A' <= c && c <= 'F')
}

/// Numeric value of a hex digit character.
pub open spec fn hex_digit_val(c: char) -> u8 {
    if '0' <= c && c <= '9' {
        (c as u8 - '0' as u8) as u8
    } else if 'a' <= c && c <= 'f' {
        (c as u8 - 'a' as u8 + 10) as u8
    } else {
        (c as u8 - 'A' as u8 + 10) as u8
    }
}

/// Lowercase hex pair for one byte, high nibble first.
pub open spec fn spec_hex_pair(b: u8) -> Seq<char> {
    seq![HEX_LOWER[(b >> 4) as int], HEX_LOWER[(b & 0x0f) as int]]
}

/// Hex digits throughout, with no demand on the length.
pub open spec fn all_hex(s: Seq<char>) -> bool {
    forall|i: int| 0 <= i < s.len() ==> is_hex_digit(#[trigger] s[i])
}

/// A fixed-width hex field: exactly `n` hex digits.
pub open spec fn is_hex_field(s: Seq<char>, n: int) -> bool {
    s.len() == n && all_hex(s)
}

/// Hex digits survive concatenation in both directions.
pub proof fn lemma_all_hex_concat(a: Seq<char>, b: Seq<char>)
    ensures
        all_hex(a + b) <==> (all_hex(a) && all_hex(b)),
{
    if all_hex(a) && all_hex(b) {
        assert forall|i: int| 0 <= i < (a + b).len() implies is_hex_digit(#[trigger] (a + b)[i]) by {
            if i < a.len() {
                assert((a + b)[i] == a[i]);
            } else {
                assert((a + b)[i] == b[i - a.len()]);
            }
        }
    }
    if all_hex(a + b) {
        assert forall|i: int| 0 <= i < a.len() implies is_hex_digit(#[trigger] a[i]) by {
            assert((a + b)[i] == a[i]);
        }
        assert forall|i: int| 0 <= i < b.len() implies is_hex_digit(#[trigger] b[i]) by {
            assert((a + b)[i + a.len()] == b[i]);
        }
    }
}

/// Hex encoding yields hex digits, two per byte.
pub proof fn lemma_hex_of_props(data: Seq<u8>)
    ensures
        spec_hex_of(data).len() == 2 * data.len(),
        all_hex(spec_hex_of(data)),
    decreases data.len(),
{
    if data.len() > 0 {
        lemma_hex_of_props(data.drop_first());
        assert(forall|k: int| 0 <= k < 16 ==> is_hex_digit(#[trigger] HEX_LOWER[k]));
        let b = data.first();
        let pair = seq![HEX_LOWER[(b >> 4) as int], HEX_LOWER[(b & 0x0f) as int]];
        assert((b >> 4) < 16 && (b & 0x0f) < 16) by (bit_vector);
        lemma_all_hex_concat(pair, spec_hex_of(data.drop_first()));
    }
}

/// A string that decodes to whole bytes: even length, hex digits throughout.
pub open spec fn valid_hex(s: Seq<char>) -> bool {
    s.len() % 2 == 0 && forall|i: int| 0 <= i < s.len() ==> is_hex_digit(#[trigger] s[i])
}

/// The bytes a hex string stands for, two digits per byte.
pub open spec fn spec_hex_bytes(s: Seq<char>) -> Seq<u8>
    decreases s.len(),
{
    if s.len() < 2 {
        seq![]
    } else {
        seq![(hex_digit_val(s[0]) * 16 + hex_digit_val(s[1])) as u8] + spec_hex_bytes(
            s.skip(2),
        )
    }
}

#[verifier::external_type_specification]
#[verifier::external_body]
pub struct ExFromHexError(hex::FromHexError);

/// Relies on hex::encode: each byte becomes two lowercase hex digits, high
/// nibble first.
#[verifier::external_body]
pub fn hex_encode(data: &[u8]) -> (r: String)
    ensures
        r@ == spec_hex_of(data@),
{
    hex::encode(data)
}

/// Relies on hex::decode: it succeeds exactly on even-length strings of hex
/// digits (either case) and turns each digit pair into one byte.
#[verifier::external_body]
pub fn hex_decode(s: &str) -> (r: Result<Vec<u8>, hex::FromHexError>)
    ensures
        r is Ok <==> valid_hex(s@),
        r matches Ok(b) ==> b@ == spec_hex_bytes(s@),
{
    hex::decode(s)
}

/// Relies on String::push: appends one character.
#[verifier::external_body]
pub fn string_push(s: &mut String, c: char)
    ensures
        final(s)@ == old(s)@.push(c),
{
    s.push(c);
}

/// Appends the lowercase hex pair of one byte.
pub fn push_hex_pair(s: &mut String, b: u8)
    ensures
        final(s)@ == old(s)@ + spec_hex_pair(b),
{
    assert((b >> 4) < 16 && (b & 0x0f) < 16) by (bit_vector);
    string_push(s, HEX_LOWER[(b >> 4) as usize]);
    string_push(s, HEX_LOWER[(b & 0x0f) as usize]);
}

/// Decimal rendering of an unsigned value, most significant digit first,
/// without leading zeros.
pub open spec fn spec_dec_of(v: u64) -> Seq<char>
    decreases v,
{
    if v < 10 {
        seq![HEX_LOWER[v as int]]
    } else {
        spec_dec_of(v / 10) + seq![HEX_LOWER[(v % 10) as int]]
    }
}

/// Appends the decimal rendering of `v`.
pub fn push_u64_decimal(s: &mut String, v: u64)
    ensures
        final(s)@ == old(s)@ + spec_dec_of(v),
    decreases v,
{
    if v >= 10 {
        push_u64_decimal(s, v / 10);
    }
    string_push(s, HEX_LOWER[(v % 10) as usize]);
}

/// `n` copies of one character; empty when `n` is negative.
pub open spec fn char_repeat(n: int, c: char) -> Seq<char> {
    Seq::new(
        if n < 0 {
            0
        } else {
            n as nat
        },
        |i: int| c,
    )
}

/// Lowercase hex rendering of an unsigned value, most significant digit
/// first, without leading zeros.
pub open spec fn spec_hex_digits(v: u64) -> Seq<char>
    decreases v,
{
    if v < 16 {
        seq![HEX_LOWER[v as int]]
    } else {
        spec_hex_digits(v / 16) + seq![HEX_LOWER[(v % 16) as int]]
    }
}

/// Appends the lowercase hex rendering of `v`, without leading zeros.
pub fn push_u64_hex(s: &mut String, v: u64)
    ensures
        final(s)@ == old(s)@ + spec_hex_digits(v),
    decreases v,
{
    if v >= 16 {
        push_u64_hex(s, v / 16);
    }
    string_push(s, HEX_LOWER[(v % 16) as usize]);
}

/// The hex rendering has at least one digit, all of them hex, and at most
/// eight when the value fits in 32 bits.
pub proof fn lemma_hex_digits_props(v: u64)
    ensures
        1 <= spec_hex_digits(v).len(),
        all_hex(spec_hex_digits(v)),
        v <= u32::MAX ==> spec_hex_digits(v).len() <= 8,
    decreases v,
{
    assert(forall|k: int| 0 <= k < 16 ==> is_hex_digit(#[trigger] HEX_LOWER[k]));
    if v >= 16 {
        lemma_hex_digits_props(v / 16);
        lemma_all_hex_concat(spec_hex_digits(v / 16), seq![HEX_LOWER[(v % 16) as int]]);
        if v <= u32::MAX {
            reveal_with_fuel(pow16, 9);
            assert(pow16(7) == 0x10000000);
            lemma_hex_digits_len_bound(v / 16, 7);
        }
    }
}

/// The rendering of a value below `16^k` has at most `k` digits.
proof fn lemma_hex_digits_len_bound(v: u64, k: nat)
    requires
        1 <= k,
        v < pow16(k),
    ensures
        spec_hex_digits(v).len() <= k,
    decreases k,
{
    if v >= 16 {
        assert(v / 16 < pow16((k - 1) as nat)) by (nonlinear_arith)
            requires
                v < pow16(k),
                pow16(k) == 16 * pow16((k - 1) as nat),
                v >= 16,
        ;
        lemma_hex_digits_len_bound(v / 16, (k - 1) as nat);
    }
}

/// `16^k`, used only to bound hex-digit counts.
spec fn pow16(k: nat) -> int
    decreases k,
{
    if k == 0 {
        1
    } else {
        16 * pow16((k - 1) as nat)
    }
}

/// Character-wise string comparison: true exactly when the two views are
/// the same text.
pub fn str_eq(a: &str, b: &str) -> (r: bool)
    ensures
        r == (a@ == b@),
{
    let n = a.unicode_len();
    if n != b.unicode_len() {
        return false;
    }
    let mut i: usize = 0;
    while i < n
        invariant
            n == a@.len(),
            n == b@.len(),
            i <= n,
            forall|j: int| 0 <= j < i ==> a@[j] == b@[j],
        decreases n - i,
    {
        if a.get_char(i) != b.get_char(i) {
            return false;
        }
        i += 1;
    }
    proof {
        assert(a@ =~= b@);
    }
    true
}

/// True when `s` is exactly `n` hex digits.
pub fn is_hex_str(s: &str, n: usize) -> (r: bool)
    ensures
        r == (s@.len() == n && forall|i: int| 0 <= i < s@.len() ==> is_hex_digit(#[trigger] s@[i])),
{
    let len = s.unicode_len();
    if len != n {
        return false;
    }
    let mut i: usize = 0;
    while i < len
        invariant
            len == s@.len(),
            i <= len,
            forall|j: int| 0 <= j < i ==> is_hex_digit(#[trigger] s@[j]),
        decreases len - i,
    {
        let c = s.get_char(i);
        let ok = ('0' <= c && c <= '9') || ('a' <= c && c <= 'f') || ('A' <= c && c <= 'F');
        if !ok {
            return false;
        }
        i += 1;
    }
    true
}

} // verus!
