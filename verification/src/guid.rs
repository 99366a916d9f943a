//! 128-bit identifiers: the vendor namespace of a firmware variable and the
//! signature of a GPT partition.

use std::str::FromStr;
use uuid::Uuid;
use vstd::prelude::*;

verus! {

/// A 128-bit identifier, held as the sixteen bytes of its canonical text form
/// read left to right.
#[derive(Clone, Copy, Debug, PartialEq, Eq, Hash)]
pub struct Guid {
    pub bytes: [u8; 16],
}

impl View for Guid {
    type V = Seq<u8>;

    open spec fn view(&self) -> Seq<u8> {
        self.bytes@
    }
}

/// The sixteen bytes with the first three fields (of four, two and two bytes)
/// each reversed: the step between the canonical order and the mixed-endian
/// order in which firmware stores an identifier.
pub open spec fn swap_fields(b: Seq<u8>) -> Seq<u8>
    recommends
        b.len() == 16,
{
    seq![
        b[3], b[2], b[1], b[0], b[5], b[4], b[7], b[6],
        b[8], b[9], b[10], b[11], b[12], b[13], b[14], b[15],
    ]
}

/// The lower-case digit that stands for a value under sixteen.
pub open spec fn hex_digit(n: int) -> char
    recommends
        0 <= n < 16,
{
    if n < 10 {
        ('0' as u32 + n) as u32 as char
    } else {
        ('a' as u32 + n - 10) as u32 as char
    }
}

/// Two lower-case hexadecimal digits for each byte, the high digit first.
pub open spec fn hex(b: Seq<u8>) -> Seq<char> {
    Seq::new(2 * b.len(), |i: int| hex_digit(if i % 2 == 0 { b[i / 2] as int / 16 } else { b[i / 2] as int % 16 }))
}

/// The canonical text form of an identifier: its bytes as hexadecimal digits
/// in groups of four, two, two, two and six bytes, with a hyphen between the
/// groups.
pub open spec fn hyphenated(b: Seq<u8>) -> Seq<char>
    recommends
        b.len() == 16,
{
    hex(b.subrange(0, 4)) + seq!['-'] + hex(b.subrange(4, 6)) + seq!['-'] + hex(b.subrange(6, 8))
        + seq!['-'] + hex(b.subrange(8, 10)) + seq!['-'] + hex(b.subrange(10, 16))
}

/// The identifier that `uuid` reads from a text, as its sixteen bytes in
/// canonical order; `None` where it rejects the text.
pub uninterp spec fn uuid_text_value(text: Seq<char>) -> Option<Seq<u8>>;

#[verifier::external_type_specification]
#[verifier::external_body]
pub struct ExUuidError(uuid::Error);

/// Calls `uuid::Uuid::from_str`, which reads an identifier from its text form,
/// and hands out the bytes of the identifier it returns.
#[verifier::external_body]
fn uuid_from_str(text: &str) -> (r: Result<[u8; 16], uuid::Error>)
    ensures
        match r {
            Ok(bytes) => uuid_text_value(text@) == Some(bytes@),
            Err(_) => uuid_text_value(text@) is None,
        },
{
    match Uuid::from_str(text) {
        Ok(id) => Ok(id.into_bytes()),
        Err(e) => Err(e),
    }
}

/// Calls `uuid::Uuid::from_bytes_le`, which builds an identifier from bytes
/// whose first three fields are stored low byte first, and hands out the
/// identifier's bytes in canonical order.
#[verifier::external_body]
fn uuid_from_bytes_le(stored: [u8; 16]) -> (bytes: [u8; 16])
    ensures
        bytes@ == swap_fields(stored@),
{
    Uuid::from_bytes_le(stored).into_bytes()
}

/// Calls `uuid::Uuid::to_bytes_le` on the identifier with the given canonical
/// bytes, which returns them with the first three fields low byte first.
#[verifier::external_body]
fn uuid_to_bytes_le(bytes: [u8; 16]) -> (stored: [u8; 16])
    ensures
        stored@ == swap_fields(bytes@),
{
    Uuid::from_bytes(bytes).to_bytes_le()
}

/// Formats `uuid::Uuid` with `{:x}`, which writes the identifier's canonical
/// text form with lower-case digits.
#[verifier::external_body]
fn uuid_to_text(bytes: [u8; 16]) -> (text: String)
    ensures
        text@ == hyphenated(bytes@),
{
    format!("{:x}", Uuid::from_bytes(bytes))
}

impl Guid {
    /// The identifier with the given bytes in canonical order.
    pub fn from_bytes(bytes: [u8; 16]) -> (g: Guid)
        ensures
            g@ == bytes@,
    {
        Guid { bytes }
    }

    /// The identifier's bytes in canonical order.
    pub fn as_bytes(&self) -> (bytes: &[u8; 16])
        ensures
            bytes@ == self@,
    {
        &self.bytes
    }

    /// The identifier that firmware stores as `stored`.
    pub fn from_bytes_le(stored: [u8; 16]) -> (g: Guid)
        ensures
            g@ == swap_fields(stored@),
    {
        Guid { bytes: uuid_from_bytes_le(stored) }
    }

    /// The sixteen bytes as which firmware stores the identifier.
    pub fn to_bytes_le(&self) -> (stored: [u8; 16])
        ensures
            stored@ == swap_fields(self@),
    {
        uuid_to_bytes_le(self.bytes)
    }

    /// The identifier's canonical text form, in lower case.
    pub fn to_text(&self) -> (text: String)
        ensures
            text@ == hyphenated(self@),
    {
        uuid_to_text(self.bytes)
    }

    /// Reads an identifier from its text form.
    pub fn parse_str(text: &str) -> (r: Result<Guid, uuid::Error>)
        ensures
            match r {
                Ok(g) => uuid_text_value(text@) == Some(g@),
                Err(_) => uuid_text_value(text@) is None,
            },
    {
        match uuid_from_str(text) {
            Ok(bytes) => Ok(Guid { bytes }),
            Err(e) => Err(e),
        }
    }
}

/// Storing an identifier and reading it back changes nothing, in either
/// direction.
pub proof fn lemma_swap_fields_twice(b: Seq<u8>)
    requires
        b.len() == 16,
    ensures
        swap_fields(b).len() == 16,
        swap_fields(swap_fields(b)) == b,
{
}

} // verus!
