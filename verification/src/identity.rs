//! Text of identifiers.
use crate::digest::hex_digit;
use es_entity::prelude::uuid::Uuid;
use vstd::arithmetic::power::pow;
use vstd::prelude::*;
use vstd::string::*;

verus! {

/// The hexadecimal digit of `id` at place `k`, counted from the front.
pub open spec fn uuid_digit(id: u128, k: int) -> char {
    hex_digit((id as int / pow(16, (31 - k) as nat)) % 16)
}

/// A UUID in lower-case hexadecimal, in groups of 8, 4, 4, 4 and 12 digits.
pub open spec fn hyphenated(id: u128) -> Seq<char> {
    let d = |from: int, to: int| Seq::new((to - from) as nat, |i: int| uuid_digit(id, from + i));
    d(0, 8) + seq!['-'] + d(8, 12) + seq!['-'] + d(12, 16) + seq!['-'] + d(16, 20) + seq!['-'] + d(
        20,
        32,
    )
}

/// The UUID that text gives, or why it gives none.
pub uninterp spec fn uuid_parsed(text: Seq<char>) -> Result<u128, Seq<char>>;

/// `to_string` of a `uuid::Uuid`: the hyphenated form, which reads back as the
/// same UUID.
#[verifier::external_body]
pub(crate) fn uuid_text(id: u128) -> (r: String)
    ensures
        r@ == hyphenated(id),
        match uuid_parsed(r@) {
            Ok(read) => read == id,
            Err(_) => false,
        },
{
    Uuid::from_u128(id).to_string()
}

/// `uuid::Uuid::parse_str`: the UUID, or the text of the error, is a function
/// of the text.
#[verifier::external_body]
pub(crate) fn uuid_parse(text: &str) -> (r: Result<u128, String>)
    ensures
        match r {
            Ok(id) => uuid_parsed(text@) matches Ok(read) && read == id,
            Err(reason) => uuid_parsed(text@) matches Err(why) && why == reason@,
        },
{
    match Uuid::parse_str(text) {
        Ok(id) => Ok(id.as_u128()),
        Err(error) => Err(error.to_string()),
    }
}

} // verus!
