//! Identifiers of downloads: 128-bit values shown in the usual hyphenated
//! UUID form.

use vstd::prelude::*;

verus! {

/// Lower-case hexadecimal digit of a value below 16.
pub open spec fn hex_digit(n: int) -> char {
    if n < 10 {
        ((n + 48) as u8) as char
    } else {
        ((n - 10 + 97) as u8) as char
    }
}

pub open spec fn pow16(k: nat) -> nat
    decreases k,
{
    if k == 0 { 1 } else { 16 * pow16((k - 1) as nat) }
}

/// The 32 hexadecimal digits of `id`, most significant first.
pub open spec fn hex32(id: u128) -> Seq<char> {
    Seq::new(32, |i: int| hex_digit((id as int / pow16((31 - i) as nat) as int) % 16))
}

/// `id` written as 8-4-4-4-12 lower-case hexadecimal digits.
pub open spec fn uuid_text(id: u128) -> Seq<char> {
    let h = hex32(id);
    h.subrange(0, 8) + seq!['-'] + h.subrange(8, 12) + seq!['-'] + h.subrange(12, 16) + seq!['-']
        + h.subrange(16, 20) + seq!['-'] + h.subrange(20, 32)
}

/// The value carries the marks of a random (version 4) UUID: version nibble 4
/// (bits 76..80) and variant bits `10` (bits 62..64).
pub open spec fn is_random_uuid(id: u128) -> bool {
    (id as int / 75557863725914323419136) % 16 == 4 && (id as int / 4611686018427387904) % 4 == 2
}

/// A fresh random identifier.
/// Trusted: uuid's `Uuid::new_v4()`, read as `as_u128()`. Its source masks a
/// random value so that the version nibble is 4 and the variant bits are
/// `10`; the rest of the value is random and not stated.
#[verifier::external_body]
pub fn new_download_id() -> (id: u128)
    ensures
        is_random_uuid(id),
{
    uuid::Uuid::new_v4().as_u128()
}

/// The hyphenated text of an identifier.
/// Trusted: uuid's `Uuid::from_u128(id)` rendered with `to_string()`; its
/// source takes the value's big-endian bytes and writes them as lower-case
/// hexadecimal, with hyphens after the 8th, 12th, 16th and 20th digit.
#[verifier::external_body]
pub fn id_to_text(id: u128) -> (r: String)
    ensures
        r@ == uuid_text(id),
{
    uuid::Uuid::from_u128(id).to_string()
}

} // verus!
