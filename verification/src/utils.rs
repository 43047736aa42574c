//! Timestamps: the epoch seconds that go into packets, their 8-digit hex
//! form, and the human-readable age text.

use vstd::prelude::*;

use crate::hexstr::{
    char_repeat, is_hex_field, lemma_all_hex_concat, lemma_hex_digits_props, push_u64_decimal,
    push_u64_hex, spec_dec_of, spec_hex_digits, string_push,
};
use vstd::string::{StrSliceExecFns, StringExecFns};

verus! {

/// Relies on std::time::SystemTime::now: seconds since the Unix epoch, or 0
/// when the clock reads earlier than the epoch.
#[verifier::external_body]
pub fn current_timestamp() -> u64 {
    std::time::SystemTime::now()
        .duration_since(std::time::UNIX_EPOCH)
        .unwrap_or_default()
        .as_secs()
}

/// The packet form of a timestamp: lowercase hex, zero-padded on the left
/// to at least eight digits.
pub open spec fn spec_timestamp_hex(t: u64) -> Seq<char> {
    char_repeat(8 - spec_hex_digits(t).len(), '0') + spec_hex_digits(t)
}

/// Renders a timestamp as packet hex: exactly eight digits for any time
/// that fits in 32 bits.
pub fn timestamp_hex(t: u64) -> (r: String)
    ensures
        r@ == spec_timestamp_hex(t),
        t <= u32::MAX ==> is_hex_field(r@, 8),
{
    let mut digits = String::new();
    push_u64_hex(&mut digits, t);
    let n = digits.as_str().unicode_len();
    let mut out = String::new();
    let mut i: usize = n;
    while i < 8
        invariant
            n <= i <= 8 || (n > 8 && i == n),
            n == spec_hex_digits(t).len(),
            out@ == char_repeat(i - n, '0'),
        decreases 8 - i,
    {
        string_push(&mut out, '0');
        proof {
            assert(char_repeat(i + 1 - n, '0') =~= char_repeat(i - n, '0').push('0'));
        }
        i += 1;
    }
    out.append(digits.as_str());
    proof {
        lemma_timestamp_hex_props(t);
    }
    out
}

/// The packet form of a timestamp is at least eight hex digits, and exactly
/// eight when the time fits in 32 bits.
pub proof fn lemma_timestamp_hex_props(t: u64)
    ensures
        spec_timestamp_hex(t).len() >= 8,
        t <= u32::MAX ==> is_hex_field(spec_timestamp_hex(t), 8),
{
    lemma_hex_digits_props(t);
    let pad = char_repeat(8 - spec_hex_digits(t).len(), '0');
    assert(forall|j: int| 0 <= j < pad.len() ==> pad[j] == '0');
    lemma_all_hex_concat(pad, spec_hex_digits(t));
}

/// The current time in packet hex form.
///
/// Whatever the clock reads, the result is the hex form of some epoch
/// second, zero-padded to at least eight digits.
pub fn current_timestamp_hex() -> (r: String)
    ensures
        exists|t: u64| r@ == spec_timestamp_hex(t),
        r@.len() >= 8,
{
    let t = current_timestamp();
    let r = timestamp_hex(t);
    proof {
        lemma_timestamp_hex_props(t);
    }
    r
}

/// The age text for a duration in seconds: coarsened to seconds, minutes,
/// hours or days.
pub open spec fn spec_elapsed_text(secs: u64) -> Seq<char> {
    if secs < 60 {
        spec_dec_of(secs) + " seconds ago"@
    } else if secs < 3600 {
        spec_dec_of(secs / 60) + " minutes ago"@
    } else if secs < 86400 {
        spec_dec_of(secs / 3600) + " hours ago"@
    } else {
        spec_dec_of(secs / 86400) + " days ago"@
    }
}

/// What a timestamp reads like next to a given current time.
pub open spec fn spec_timestamp_text(timestamp: u64, now: u64) -> Seq<char> {
    if now < timestamp {
        "in the future"@
    } else {
        spec_elapsed_text((now - timestamp) as u64)
    }
}

/// Renders an elapsed duration as age text.
pub fn format_elapsed(secs: u64) -> (r: String)
    ensures
        r@ == spec_elapsed_text(secs),
{
    let mut out = String::new();
    if secs < 60 {
        push_u64_decimal(&mut out, secs);
        out.append(" seconds ago");
    } else if secs < 3600 {
        push_u64_decimal(&mut out, secs / 60);
        out.append(" minutes ago");
    } else if secs < 86400 {
        push_u64_decimal(&mut out, secs / 3600);
        out.append(" hours ago");
    } else {
        push_u64_decimal(&mut out, secs / 86400);
        out.append(" days ago");
    }
    out
}

/// Renders a timestamp relative to the current clock: age text for past
/// times, a fixed marker for future ones.
pub fn format_timestamp(timestamp: u64) -> (r: String)
    ensures
        exists|now: u64| r@ == spec_timestamp_text(timestamp, now),
{
    let now = current_timestamp();
    if now < timestamp {
        let r = String::from_str("in the future");
        proof {
            assert(r@ == spec_timestamp_text(timestamp, now));
        }
        r
    } else {
        let r = format_elapsed(now - timestamp);
        proof {
            assert(r@ == spec_timestamp_text(timestamp, now));
        }
        r
    }
}

} // verus!
