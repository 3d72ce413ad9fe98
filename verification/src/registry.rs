//! The registries of known monetary codes.
use crate::text::upper_text;
use rusty_money::{crypto, iso};
use vstd::prelude::*;

verus! {

/// Whether `code` is an alphabetic code of the ISO 4217 registry.
pub uninterp spec fn iso_listed(code: Seq<char>) -> bool;

/// Whether `code` is a code of the registry of crypto-currencies.
pub uninterp spec fn crypto_listed(code: Seq<char>) -> bool;

/// `rusty_money::iso::find`: a code is found exactly if it is listed, the
/// entry found bears that very code, and listed codes have no lower-case
/// letter.
#[verifier::external_body]
pub(crate) fn iso_find(code: &str) -> (r: Option<&'static str>)
    ensures
        match r {
            Some(found) => iso_listed(code@) && found@ == code@ && upper_text(code@) == code@,
            None => !iso_listed(code@),
        },
{
    iso::find(code).map(|c| c.iso_alpha_code)
}

/// `rusty_money::crypto::find`: a code is found exactly if it is listed, the
/// entry found bears that very code, and listed codes have no lower-case
/// letter.
#[verifier::external_body]
pub(crate) fn crypto_find(code: &str) -> (r: Option<&'static str>)
    ensures
        match r {
            Some(found) => crypto_listed(code@) && found@ == code@ && upper_text(code@) == code@,
            None => !crypto_listed(code@),
        },
{
    crypto::find(code).map(|c| c.code)
}

/// `rusty_money::iso::USD`: the entry listed under `USD`.
#[verifier::external_body]
pub(crate) fn iso_usd() -> (r: &'static str)
    ensures
        r@ == "USD"@,
        iso_listed(r@),
{
    iso::USD.iso_alpha_code
}

/// `rusty_money::crypto::BTC`: the entry listed under `BTC`, which is no ISO
/// code.
#[verifier::external_body]
pub(crate) fn crypto_btc() -> (r: &'static str)
    ensures
        r@ == "BTC"@,
        crypto_listed(r@),
        !iso_listed(r@),
{
    crypto::BTC.code
}

} // verus!
