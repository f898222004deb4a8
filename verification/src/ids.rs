use crate::text::{hex_lower, lemma_hex_lower_digits, on_one_line};
use uuid::Uuid;
use vstd::prelude::*;

verus! {

/// The sixteen bytes of `id`, the most significant first.
pub open spec fn id_bytes(id: u128) -> Seq<u8> {
    Seq::new(16, |i: int| ((id >> ((120 - 8 * i) as u128)) & 0xffu128) as u8)
}

/// An identifier in the hyphenated form of a UUID: its bytes in
/// lower-case hexadecimal, in groups of 8, 4, 4, 4 and 12 digits.
pub open spec fn id_text(id: u128) -> Seq<char> {
    let digits = hex_lower(id_bytes(id));
    digits.subrange(0, 8) + seq!['-'] + digits.subrange(8, 12) + seq!['-'] + digits.subrange(
        12,
        16,
    ) + seq!['-'] + digits.subrange(16, 20) + seq!['-'] + digits.subrange(20, 32)
}

/// The hyphenated form of an identifier has 36 characters and no line break.
pub proof fn lemma_id_text(id: u128)
    ensures
        id_text(id).len() == 36,
        on_one_line(id_text(id)),
{
    lemma_hex_lower_digits(id_bytes(id));
    let digits = hex_lower(id_bytes(id));
    let text = id_text(id);
    assert forall|i: int| 0 <= i < text.len() implies text[i] != '\n' && text[i] != '\r' by {
        if i < 8 {
            assert(text[i] == digits[i]);
        } else if i == 8 {
        } else if i < 13 {
            assert(text[i] == digits[i - 1]);
        } else if i == 13 {
        } else if i < 18 {
            assert(text[i] == digits[i - 2]);
        } else if i == 18 {
        } else if i < 23 {
            assert(text[i] == digits[i - 3]);
        } else if i == 23 {
        } else {
            assert(text[i] == digits[i - 4]);
        }
    }
}

/// `uuid::Uuid::from_u128` followed by the `Display` of `uuid::Uuid`: the
/// identifier in hyphenated lower-case form.
#[verifier::external_body]
pub(crate) fn hyphenated(id: u128) -> (text: String)
    ensures
        text@ == id_text(id),
{
    Uuid::from_u128(id).to_string()
}

/// The identifier that `text` stands for where it is written as a UUID,
/// as `uuid::Uuid::parse_str` reads it.
pub uninterp spec fn parsed_id(text: Seq<char>) -> Option<u128>;

/// `uuid::Uuid::parse_str`: the identifier that `text` stands for, or
/// nothing where `text` is not written as a UUID.
#[verifier::external_body]
pub(crate) fn parse_uuid(text: &str) -> (id: Option<u128>)
    ensures
        id == parsed_id(text@),
{
    match Uuid::parse_str(text) {
        Ok(uuid) => Some(uuid.as_u128()),
        Err(_) => None,
    }
}

} // verus!
