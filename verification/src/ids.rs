//! Identifiers of trades: random request identifiers and their text form.
use vstd::prelude::*;

verus! {

/// The nil identifier, which stands for a trade whose deal is not known yet.
pub const NIL_ID: u128 = 0;

/// A random version-4 identifier as the 128-bit number it is made of.
///
/// Calls `uuid::Uuid::new_v4` and reads it back with `as_u128`. The uuid crate
/// masks in the version nibble 4 (bits 76 to 79) and the variant bits `10`
/// (bits 62 and 63) over random bits; the contract states those fixed bits and
/// nothing of the random ones.
#[verifier::external_body]
pub(crate) fn new_request_id() -> (r: u128)
    ensures
        (r >> 76u128) & 0xfu128 == 4u128,
        (r >> 62u128) & 0x3u128 == 2u128,
{
    uuid::Uuid::new_v4().as_u128()
}

/// An identifier with the version-4 bits set is never the nil identifier.
pub proof fn lemma_version_four_not_nil(r: u128)
    requires
        (r >> 76u128) & 0xfu128 == 4u128,
    ensures
        r != NIL_ID,
{
    assert((r >> 76u128) & 0xfu128 == 4u128 ==> r != 0u128) by (bit_vector);
}

/// The lowercase hexadecimal digit for `d`, from 0 to 15.
pub open spec fn hex_digit(d: int) -> char {
    if d < 10 {
        (48 + d) as char
    } else {
        (87 + d) as char
    }
}

/// The `k`-th of the 32 hexadecimal digits of `id`, the most significant first.
pub open spec fn hex_nibble(id: u128, k: int) -> int {
    ((id >> ((124 - 4 * k) as u128)) & 0xfu128) as int
}

/// Which hexadecimal digit stands at character `i` of the hyphenated text.
pub open spec fn digit_index(i: int) -> int {
    if i < 8 {
        i
    } else if i < 13 {
        i - 1
    } else if i < 18 {
        i - 2
    } else if i < 23 {
        i - 3
    } else {
        i - 4
    }
}

/// The lowercase hyphenated text of an identifier: its 32 hexadecimal digits,
/// most significant first, in groups of 8, 4, 4, 4 and 12 joined by hyphens
/// (36 characters, hyphens at 8, 13, 18 and 23).
pub open spec fn uuid_hyphenated(id: u128) -> Seq<char> {
    Seq::new(
        36,
        |i: int|
            if i == 8 || i == 13 || i == 18 || i == 23 {
                '-'
            } else {
                hex_digit(hex_nibble(id, digit_index(i)))
            },
    )
}

/// The text of an identifier: `uuid::Uuid::from_u128(id).to_string()`, which
/// writes the identifier's big-endian bytes as lowercase hexadecimal in the
/// hyphenated form that `uuid_hyphenated` spells out.
#[verifier::external_body]
pub(crate) fn uuid_text(id: u128) -> (r: String)
    ensures
        r@ == uuid_hyphenated(id),
{
    uuid::Uuid::from_u128(id).to_string()
}

} // verus!
