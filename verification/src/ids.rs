//! UUIDs by their 128-bit value, and their text form.

use vstd::prelude::*;

verus! {

/// The lowercase hexadecimal digit of `n` (`0 <= n < 16`).
pub open spec fn hex_digit(n: u128) -> char {
    if n < 10 {
        ('0' as u8 + n) as char
    } else {
        ('a' as u8 + (n - 10)) as char
    }
}

/// The `k`-th of the 32 hexadecimal digits of `id`, most significant first.
pub open spec fn uuid_nibble(id: u128, k: int) -> char {
    hex_digit((id >> ((4 * (31 - k)) as u128)) & 15)
}

/// The hyphenated text of a UUID: its 32 lowercase hexadecimal digits,
/// most significant first, grouped 8-4-4-4-12 by hyphens.
pub open spec fn uuid_text(id: u128) -> Seq<char> {
    Seq::new(
        36,
        |i: int|
            if i == 8 || i == 13 || i == 18 || i == 23 {
                '-'
            } else if i < 8 {
                uuid_nibble(id, i)
            } else if i < 13 {
                uuid_nibble(id, i - 1)
            } else if i < 18 {
                uuid_nibble(id, i - 2)
            } else if i < 23 {
                uuid_nibble(id, i - 3)
            } else {
                uuid_nibble(id, i - 4)
            },
    )
}

/// What `uuid::Uuid::parse_str` reads from `s`: the UUID's value, or the
/// message of its error.
pub uninterp spec fn uuid_reading(s: Seq<char>) -> Result<u128, Seq<char>>;

/// `uuid::Uuid::from_u128(id).to_string()`: the hyphenated lowercase text,
/// which `Uuid::parse_str` reads back as `id`.
#[verifier::external_body]
pub(crate) fn uuid_to_text(id: u128) -> (text: String)
    ensures
        text@ == uuid_text(id),
        uuid_reading(text@) is Ok,
        uuid_reading(text@)->Ok_0 == id,
{
    uuid::Uuid::from_u128(id).to_string()
}

/// `uuid::Uuid::parse_str(s)`, as the UUID's 128-bit value or the error's
/// message.
#[verifier::external_body]
pub(crate) fn uuid_from_text(s: &str) -> (r: Result<u128, String>)
    ensures
        match r {
            Ok(id) => uuid_reading(s@) == Ok::<u128, Seq<char>>(id),
            Err(e) => uuid_reading(s@) == Err::<u128, Seq<char>>(e@),
        },
{
    match uuid::Uuid::parse_str(s) {
        Ok(id) => Ok(id.as_u128()),
        Err(err) => Err(err.to_string()),
    }
}

} // verus!
