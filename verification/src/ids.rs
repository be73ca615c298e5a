//! Record identifiers: fresh random UUIDs and their text form.

use vstd::prelude::*;

use crate::entropy::random_uuid;

verus! {

pub open spec fn hex_char(d: nat) -> char
    recommends
        d < 16,
{
    if d < 10 {
        ((d + 48) as u32) as char
    } else {
        ((d - 10 + 97) as u32) as char
    }
}

/// The last `n` hexadecimal digits of `v`, lowercase, most significant first.
pub open spec fn hex_digits(v: nat, n: nat) -> Seq<char>
    decreases n,
{
    if n == 0 {
        Seq::<char>::empty()
    } else {
        hex_digits(v / 16, (n - 1) as nat).push(hex_char(v % 16))
    }
}

/// The hyphenated form of a UUID: its 32 hex digits, lowercase, in groups of 8, 4, 4,
/// 4 and 12 separated by `-`.
pub open spec fn uuid_hyphenated(id: u128) -> Seq<char> {
    let h = hex_digits(id as nat, 32);
    h.subrange(0, 8) + seq!['-'] + h.subrange(8, 12) + seq!['-'] + h.subrange(12, 16) + seq!['-']
        + h.subrange(16, 20) + seq!['-'] + h.subrange(20, 32)
}

/// `uuid::Uuid::from_u128(id).to_string()`. uuid documents that `from_u128` takes the
/// value big-endian and that `Display` writes the hyphenated lowercase form
/// (`a1a2a3a4-b1b2-c1c2-d1d2-d3d4d5d6d7d8` for `0xa1a2a3a4b1b2c1c2d1d2d3d4d5d6d7d8`).
#[verifier::external_body]
pub(crate) fn uuid_string(id: u128) -> (r: String)
    ensures
        r@ == uuid_hyphenated(id),
{
    uuid::Uuid::from_u128(id).to_string()
}

/// Whether `id` is the value of a version 4 UUID of the RFC 4122 variant: its version
/// field (bits 76 to 79) holds 4 and its variant field (bits 62 and 63) holds `0b10`.
pub open spec fn is_v4_uuid(id: u128) -> bool {
    (id >> 76u128) & 0xfu128 == 4u128 && (id >> 62u128) & 0x3u128 == 2u128
}

/// A fresh random identifier for a new record (a version 4 UUID, as its value).
pub fn new_record_id() -> (r: u128)
    ensures
        is_v4_uuid(r),
{
    random_uuid()
}

} // verus!
