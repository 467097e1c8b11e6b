//! Identifiers and the clock: fresh random UUIDs, their text form, and the
//! current UTC instant.

use vstd::prelude::*;
use crate::auth::os_random_bytes;
use crate::text::{hex_fixed, push_hex_fixed};

verus! {

/// The hyphenated lower-case text of a UUID given as its 128-bit value:
/// `xxxxxxxx-xxxx-xxxx-xxxx-xxxxxxxxxxxx`.
pub open spec fn uuid_text(id: u128) -> Seq<char> {
    hex_fixed((id as nat) / 0x1_0000_0000_0000_0000_0000_0000, 8) + seq!['-'] + hex_fixed(
        (id as nat) / 0x1_0000_0000_0000_0000_0000,
        4,
    ) + seq!['-'] + hex_fixed((id as nat) / 0x1_0000_0000_0000_0000, 4) + seq!['-'] + hex_fixed(
        (id as nat) / 0x1_0000_0000_0000,
        4,
    ) + seq!['-'] + hex_fixed(id as nat, 12)
}

/// The bits of a UUID that name its version and variant.
pub const UUID_V4_MASK: u128 = 0x0000_0000_0000_F000_C000_0000_0000_0000u128;

/// Version 4 (random) and the RFC 4122 variant.
pub const UUID_V4_BITS: u128 = 0x0000_0000_0000_4000_8000_0000_0000_0000u128;

/// A random version-4 UUID, as its 128-bit value: 16 bytes from the system's
/// random source, most significant first, with the version and variant bits
/// set; `None` where the random source fails.
pub fn fresh_id() -> (r: Option<u128>)
    ensures
        r matches Some(id) ==> id & UUID_V4_MASK == UUID_V4_BITS,
{
    let bytes = match os_random_bytes(16) {
        Some(b) => b,
        None => return None,
    };
    let mut x: u128 = 0;
    let mut i: usize = 0;
    while i < 16
        invariant
            i <= 16,
            bytes@.len() == 16,
        decreases 16 - i,
    {
        x = (x << 8u128) | (bytes[i] as u128);
        i = i + 1;
    }
    let id = (x & !UUID_V4_MASK) | UUID_V4_BITS;
    assert(id & 0x0000_0000_0000_F000_C000_0000_0000_0000u128 == 0x0000_0000_0000_4000_8000_0000_0000_0000u128)
        by (bit_vector)
        requires
            id == (x & !0x0000_0000_0000_F000_C000_0000_0000_0000u128) | 0x0000_0000_0000_4000_8000_0000_0000_0000u128,
    ;
    Some(id)
}

/// `n` fresh random ids; `None` where the random source fails.
pub fn fresh_ids(n: usize) -> (r: Option<Vec<u128>>)
    ensures
        r matches Some(v) ==> v@.len() == n,
{
    let mut v: Vec<u128> = Vec::new();
    let mut i: usize = 0;
    while i < n
        invariant
            i <= n,
            v@.len() == i,
        decreases n - i,
    {
        match fresh_id() {
            Some(id) => v.push(id),
            None => return None,
        }
        i = i + 1;
    }
    Some(v)
}

/// The hyphenated lower-case text of a UUID, the form in which the service
/// shows identifiers.
pub fn uuid_to_string(id: u128) -> (s: String)
    ensures
        s@ == uuid_text(id),
{
    let mut s = String::new();
    push_hex_fixed(&mut s, id / 0x1_0000_0000_0000_0000_0000_0000u128, 8);
    s.push('-');
    push_hex_fixed(&mut s, id / 0x1_0000_0000_0000_0000_0000u128, 4);
    s.push('-');
    push_hex_fixed(&mut s, id / 0x1_0000_0000_0000_0000u128, 4);
    s.push('-');
    push_hex_fixed(&mut s, id / 0x1_0000_0000_0000u128, 4);
    s.push('-');
    push_hex_fixed(&mut s, id, 12);
    proof {
        assert(Seq::<char>::empty() + hex_fixed((id as nat) / 0x1_0000_0000_0000_0000_0000_0000, 8)
            =~= hex_fixed((id as nat) / 0x1_0000_0000_0000_0000_0000_0000, 8));
    }
    assert(s@ =~= uuid_text(id));
    s
}

/// `time::OffsetDateTime::now_utc().unix_timestamp_nanos()`: the current
/// instant in nanoseconds since the Unix epoch. Only its range is claimed:
/// the crate's dates span the years -9999 to 9999.
#[verifier::external_body]
pub fn now_nanos() -> (t: i128)
    ensures
        -400_000_000_000_000_000_000 <= t <= 400_000_000_000_000_000_000,
{
    time::OffsetDateTime::now_utc().unix_timestamp_nanos()
}

} // verus!
