//! Conserved units: monetary codes of the known registries and bounded codes
//! that callers define.
use crate::letters::{lemma_spelling, spells, without_small_letters};
use crate::registry::{crypto_btc, crypto_find, crypto_listed, iso_find, iso_listed, iso_usd};
use crate::text::{
    ascii_uppercase, characters, compare_text, join2, law_texts_are_totally_ordered, same_text,
    text_order, upper_text, TextOrder,
};
use std::cmp::Ordering;
use vstd::prelude::*;
use vstd::slice::slice_subrange;
use vstd::std_specs::cmp::{PartialEqSpec, PartialOrdSpec};
use vstd::string::*;
use vstd::utf8::{
    encode_utf8, encode_utf8_decode_utf8, encode_utf8_valid_utf8, is_ascii_chars,
    is_ascii_chars_encode_utf8, valid_utf8,
};

verus! {

/// Longest admitted code of a caller-defined unit.
pub const MAX_CUSTOM_UNIT_CODE_LEN: usize = 64;

/// The error of the standard library's UTF-8 decoder.
#[verifier::external_type_specification]
#[verifier::external_body]
pub struct ExUtf8Error(std::str::Utf8Error);

/// `std::str::from_utf8` accepts exactly well-formed UTF-8 and hands the same
/// bytes back as text.
pub assume_specification<'a>[ std::str::from_utf8 ](v: &'a [u8]) -> (r: Result<
    &'a str,
    std::str::Utf8Error,
>)
    ensures
        r is Ok <==> valid_utf8(v@),
        r matches Ok(s) ==> s.spec_bytes() == v@,
;

/// `std::hash::Hash::hash` of text: feeds `text` to a hasher. Nothing is claimed
/// of what the hasher makes of it. It is public because the contract of the
/// hash of a unit speaks of a call of it.
#[verifier::external_body]
pub fn hash_text<H: std::hash::Hasher>(text: &str, state: &mut H) {
    std::hash::Hash::hash(text, state)
}

fn feed_text<H: std::hash::Hasher, F: Fn(&str, &mut H)>(feed: F, text: &str, state: &mut H)
    requires
        forall|s: &mut H| call_requires(feed, (text, s)),
    ensures
        exists|s: &mut H|
            *s == *old(state) && *final(s) == *final(state) && #[trigger] call_ensures(
                feed,
                (text, s),
                (),
            ),
{
    feed(text, state)
}

/// The characters that the code of a caller-defined unit may hold.
pub open spec fn is_unit_char(c: char) -> bool {
    ||| '0' <= c && c <= '9'
    ||| 'A' <= c && c <= 'Z'
    ||| 'a' <= c && c <= 'z'
    ||| c == '_'
    ||| c == '-'
    ||| c == '.'
    ||| c == ':'
    ||| c == '/'
}

/// Whether `code` may name a caller-defined unit.
pub open spec fn valid_unit_code(code: Seq<char>) -> bool {
    &&& 1 <= code.len() <= MAX_CUSTOM_UNIT_CODE_LEN
    &&& forall|i: int| 0 <= i < code.len() ==> is_unit_char(#[trigger] code[i])
}

fn unit_char(c: char) -> (r: bool)
    ensures
        r == is_unit_char(c),
{
    ('0' <= c && c <= '9') || ('A' <= c && c <= 'Z') || ('a' <= c && c <= 'z') || c == '_' || c
        == '-' || c == '.' || c == ':' || c == '/'
}

/// Why text names no unit.
#[derive(Debug)]
pub enum ParseCurrencyError {
    InvalidUnitCode(String),
}

impl ParseCurrencyError {
    /// The failure as it is shown to users.
    pub fn message(&self) -> (r: String)
        ensures
            match self {
                ParseCurrencyError::InvalidUnitCode(text) => r@
                    == "CalaCoreTypeError - InvalidUnitCode: "@ + text@,
            },
    {
        match self {
            ParseCurrencyError::InvalidUnitCode(text) => join2(
                "CalaCoreTypeError - InvalidUnitCode: ",
                text.as_str(),
            ),
        }
    }
}

/// A validated caller-defined conserved-unit code stored entirely inline.
///
/// Inline storage keeps [`Currency`] `Copy` without process-global interning,
/// allocation leaks, mutable registries, or parse-order-dependent failures.
#[derive(Debug, Clone, Copy, PartialOrd, Ord, Hash)]
pub struct CustomUnitCode {
    length: u8,
    bytes: [u8; MAX_CUSTOM_UNIT_CODE_LEN],
}

impl View for CustomUnitCode {
    type V = Seq<char>;

    closed spec fn view(&self) -> Seq<char> {
        Seq::new(self.length as nat, |i: int| self.bytes[i] as char)
    }
}

impl CustomUnitCode {
    /// Whether the code is valid and nothing is stored behind it.
    #[verifier::type_invariant]
    pub closed spec fn wf(self) -> bool {
        &&& valid_unit_code(self@)
        &&& forall|i: int|
            self.length <= i < MAX_CUSTOM_UNIT_CODE_LEN ==> #[trigger] self.bytes[i] == 0
    }

    /// Admits 1 to 64 ASCII letters, digits and `_-.:/`, case kept. The text of a
    /// code gives back that code.
    pub fn parse(code: &str) -> (r: Result<Self, ParseCurrencyError>)
        ensures
            forall|unit: CustomUnitCode| #[trigger]
                unit.wf() && unit@ == code@ ==> r == Ok::<Self, ParseCurrencyError>(unit),
            match r {
                Ok(unit) => valid_unit_code(code@) && unit@ == code@ && unit.wf(),
                Err(ParseCurrencyError::InvalidUnitCode(text)) => !valid_unit_code(code@) && text@
                    == code@,
            },
    {
        let chars = characters(code);
        if chars.len() == 0 || chars.len() > MAX_CUSTOM_UNIT_CODE_LEN {
            return Err(ParseCurrencyError::InvalidUnitCode(code.to_owned()));
        }
        let mut bytes: [u8; MAX_CUSTOM_UNIT_CODE_LEN] = [0; MAX_CUSTOM_UNIT_CODE_LEN];
        let mut i: usize = 0;
        while i < chars.len()
            invariant
                i <= chars.len() <= MAX_CUSTOM_UNIT_CODE_LEN,
                chars@ == code@,
                forall|k: int| 0 <= k < i ==> is_unit_char(#[trigger] chars[k]),
                forall|k: int| 0 <= k < i ==> #[trigger] bytes[k] as char == chars[k],
                forall|k: int| i <= k < MAX_CUSTOM_UNIT_CODE_LEN ==> #[trigger] bytes[k] == 0,
            decreases chars.len() - i,
        {
            if !unit_char(chars[i]) {
                return Err(ParseCurrencyError::InvalidUnitCode(code.to_owned()));
            }
            bytes[i] = chars[i] as u8;
            i = i + 1;
        }
        let length: u8 = chars.len() as u8;
        proof {
            assert(Seq::new(length as nat, |k: int| bytes[k] as char) =~= code@);
        }
        let parsed = CustomUnitCode { length, bytes };
        proof {
            assert forall|unit: CustomUnitCode| #[trigger] unit.wf() && unit@ == code@ implies parsed
                == unit by {
                law_custom_code_is_its_text(parsed, unit);
            }
        }
        Ok(parsed)
    }

    /// The code as text.
    pub fn as_str(&self) -> (r: &str)
        ensures
            r@ == self@,
            valid_unit_code(r@),
            self.wf(),
    {
        proof {
            use_type_invariant(self);
        }
        let stored = slice_subrange(self.bytes.as_slice(), 0, self.length as usize);
        proof {
            assert(is_ascii_chars(self@));
            is_ascii_chars_encode_utf8(self@);
            assert(stored@ =~= encode_utf8(self@));
            encode_utf8_valid_utf8(self@);
            encode_utf8_decode_utf8(self@);
        }
        match std::str::from_utf8(stored) {
            Ok(text) => {
                proof {
                    encode_utf8_decode_utf8(text@);
                }
                text
            },
            Err(_) => {
                proof {
                    assert(false);
                }
                ""
            },
        }
    }
}

impl PartialEq for CustomUnitCode {
    fn eq(&self, other: &CustomUnitCode) -> (r: bool) {
        same_text(self.as_str(), other.as_str())
    }
}

impl vstd::std_specs::cmp::PartialEqSpecImpl for CustomUnitCode {
    open spec fn obeys_eq_spec() -> bool {
        true
    }

    open spec fn eq_spec(&self, other: &CustomUnitCode) -> bool {
        self@ == other@
    }
}

impl Eq for CustomUnitCode {

}

/// Codes with the same text are the same value: what is parsed from the text of
/// a code is that code, and parsed codes are equal exactly if their texts are.
pub proof fn law_custom_code_is_its_text(a: CustomUnitCode, b: CustomUnitCode)
    requires
        a.wf(),
        b.wf(),
    ensures
        a@ == b@ <==> a == b,
        a.eq_spec(&b) <==> a == b,
{
    if a@ == b@ {
        assert(a.length == a@.len());
        assert(b.length == b@.len());
        assert forall|i: int| 0 <= i < MAX_CUSTOM_UNIT_CODE_LEN implies a.bytes[i] == b.bytes[i] by {
            if i < a.length {
                assert(a@[i] == b@[i]);
            }
        }
        assert(a.bytes =~= b.bytes);
    }
}

/// A unit whose amount is conserved.
#[derive(Debug, Clone, Copy)]
pub enum Currency {
    Iso(&'static str),
    Crypto(&'static str),
    /// A caller-defined conserved unit held inline with no global registry.
    Custom(CustomUnitCode),
}

/// Whether `code` is a monetary code of either registry.
pub open spec fn known(code: Seq<char>) -> bool {
    iso_listed(code) || crypto_listed(code)
}

/// The code of the unit that `text` names, if it names one.
///
/// Known monetary codes are case-insensitive aliases of the spelling in the
/// registry. Every other code is case-sensitive and must be a valid
/// caller-defined one.
pub open spec fn unit_named(text: Seq<char>) -> Option<Seq<char>> {
    if known(text) {
        Some(text)
    } else if known(upper_text(text)) {
        Some(upper_text(text))
    } else if valid_unit_code(text) {
        Some(text)
    } else {
        None
    }
}

impl Currency {
    /// The code that identifies the unit.
    pub open spec fn code_text(self) -> Seq<char> {
        match self {
            Currency::Iso(code) => code@,
            Currency::Crypto(code) => code@,
            Currency::Custom(code) => code@,
        }
    }

    /// Whether the unit stands under the registry that holds its code, or
    /// under none if no registry does.
    pub open spec fn wf(self) -> bool {
        match self {
            Currency::Iso(code) => iso_listed(code@),
            Currency::Crypto(code) => crypto_listed(code@) && !iso_listed(code@),
            Currency::Custom(code) => {
                &&& valid_unit_code(code@)
                &&& !known(code@)
                &&& !known(upper_text(code@))
            },
        }
    }

    /// Bitcoin.
    pub fn btc() -> (r: Currency)
        ensures
            r is Crypto,
            r.code_text() == "BTC"@,
            r.wf(),
    {
        Currency::Crypto(crypto_btc())
    }

    /// The US dollar.
    pub fn usd() -> (r: Currency)
        ensures
            r is Iso,
            r.code_text() == "USD"@,
            r.wf(),
    {
        Currency::Iso(iso_usd())
    }

    /// The code of the unit in its canonical spelling.
    pub fn code(&self) -> (r: &str)
        ensures
            r@ == self.code_text(),
    {
        match self {
            Currency::Iso(code) => code,
            Currency::Crypto(code) => code,
            Currency::Custom(code) => code.as_str(),
        }
    }

    fn parse_custom(code: &str) -> (r: Result<Currency, ParseCurrencyError>)
        ensures
            match r {
                Ok(unit) => valid_unit_code(code@) && unit is Custom && unit.code_text() == code@,
                Err(ParseCurrencyError::InvalidUnitCode(text)) => !valid_unit_code(code@) && text@
                    == code@,
            },
    {
        match CustomUnitCode::parse(code) {
            Ok(unit) => Ok(Currency::Custom(unit)),
            Err(error) => Err(error),
        }
    }

    /// The code as owned text.
    pub fn to_text(&self) -> (r: String)
        ensures
            r@ == self.code_text(),
    {
        self.code().to_owned()
    }
}

impl std::str::FromStr for Currency {
    type Err = ParseCurrencyError;

    fn from_str(s: &str) -> (r: Result<Currency, ParseCurrencyError>)
        ensures
            match r {
                Ok(unit) => {
                    &&& unit_named(s@) == Some(unit.code_text())
                    &&& unit.wf()
                    &&& !(unit is Custom) ==> unit.code_text() == upper_text(s@)
                },
                Err(ParseCurrencyError::InvalidUnitCode(text)) => unit_named(s@) is None && text@
                    == s@,
            },
            known(upper_text(s@)) ==> (r matches Ok(unit) && unit.code_text() == upper_text(s@)),
            forall|code: Seq<char>| #[trigger]
                spells(s@, code) && without_small_letters(code) && known(code) ==> (r matches Ok(
                    unit,
                ) && unit.code_text() == code),
    {
        proof {
            assert forall|code: Seq<char>| #[trigger] spells(s@, code) && without_small_letters(
                code,
            ) implies upper_text(s@) == code by {
                lemma_spelling(s@, code);
            }
        }
        match iso_find(s) {
            Some(code) => Ok(Currency::Iso(code)),
            None => match crypto_find(s) {
                Some(code) => Ok(Currency::Crypto(code)),
                None => {
                    let canonical = ascii_uppercase(s);
                    match iso_find(canonical.as_str()) {
                        Some(code) => Ok(Currency::Iso(code)),
                        None => match crypto_find(canonical.as_str()) {
                            Some(code) => Ok(Currency::Crypto(code)),
                            None => Currency::parse_custom(s),
                        },
                    }
                },
            },
        }
    }
}

impl TryFrom<String> for Currency {
    type Error = ParseCurrencyError;

    fn try_from(s: String) -> (r: Result<Currency, ParseCurrencyError>)
        ensures
            match r {
                Ok(unit) => unit_named(s@) == Some(unit.code_text()) && unit.wf(),
                Err(ParseCurrencyError::InvalidUnitCode(text)) => unit_named(s@) is None && text@
                    == s@,
            },
            known(upper_text(s@)) ==> (r matches Ok(unit) && unit.code_text() == upper_text(s@)),
    {
        <Currency as std::str::FromStr>::from_str(s.as_str())
    }
}

impl vstd::std_specs::convert::TryFromSpecImpl<String> for Currency {
    open spec fn obeys_try_from_spec() -> bool {
        false
    }

    open spec fn try_from_spec(s: String) -> Result<Currency, ParseCurrencyError> {
        arbitrary()
    }
}

impl AsRef<str> for Currency {
    fn as_ref(&self) -> (r: &str)
        ensures
            r@ == self.code_text(),
            forall|code: &str|
                #[trigger] call_ensures(Currency::code, (self,), code) ==> r@ == code@,
    {
        self.code()
    }
}

impl From<Currency> for String {
    fn from(c: Currency) -> (r: String)
        ensures
            r@ == c.code_text(),
    {
        c.to_text()
    }
}

impl vstd::std_specs::convert::FromSpecImpl<Currency> for String {
    open spec fn obeys_from_spec() -> bool {
        false
    }

    open spec fn from_spec(c: Currency) -> String {
        arbitrary()
    }
}

impl PartialEq for Currency {
    fn eq(&self, other: &Currency) -> (r: bool) {
        same_text(self.code(), other.code())
    }
}

impl vstd::std_specs::cmp::PartialEqSpecImpl for Currency {
    open spec fn obeys_eq_spec() -> bool {
        true
    }

    open spec fn eq_spec(&self, other: &Currency) -> bool {
        self.code_text() == other.code_text()
    }
}

impl Eq for Currency {

}

impl PartialOrd for Currency {
    fn partial_cmp(&self, other: &Currency) -> (r: Option<Ordering>) {
        match compare_text(self.code(), other.code()) {
            TextOrder::Less => Some(Ordering::Less),
            TextOrder::Equal => Some(Ordering::Equal),
            TextOrder::Greater => Some(Ordering::Greater),
        }
    }
}

impl vstd::std_specs::cmp::PartialOrdSpecImpl for Currency {
    open spec fn obeys_partial_cmp_spec() -> bool {
        true
    }

    open spec fn partial_cmp_spec(&self, other: &Currency) -> Option<Ordering> {
        match text_order(self.code_text(), other.code_text()) {
            TextOrder::Less => Some(Ordering::Less),
            TextOrder::Equal => Some(Ordering::Equal),
            TextOrder::Greater => Some(Ordering::Greater),
        }
    }
}

/// A unit feeds its code to a hasher and nothing else, so that equal units hash
/// alike.
impl std::hash::Hash for Currency {
    fn hash<H: std::hash::Hasher>(&self, state: &mut H)
        ensures
            exists|text: &str, s: &mut H|
                text@ == self.code_text() && *s == *old(state) && *final(s) == *final(state)
                    && #[trigger] call_ensures(hash_text::<H>, (text, s), ()),
    {
        feed_text(hash_text::<H>, self.code(), state)
    }
}

/// The code of a unit names that unit again.
pub proof fn law_code_names_its_unit(unit: Currency)
    requires
        unit.wf(),
    ensures
        unit_named(unit.code_text()) == Some(unit.code_text()),
{
}

/// What text names a unit by is itself a name of that unit.
pub proof fn law_naming_is_stable(text: Seq<char>)
    ensures
        unit_named(text) matches Some(code) ==> unit_named(code) == Some(code),
{
}

/// A spelling of a known code that the registries do not list names the known
/// unit, never a caller-defined one.
pub proof fn law_known_codes_ignore_case(text: Seq<char>)
    requires
        !known(text),
        known(upper_text(text)),
    ensures
        unit_named(text) == Some(upper_text(text)),
        unit_named(text) == unit_named(upper_text(text)),
{
}

/// Codes of caller-defined units are told apart by every character, case
/// included.
pub proof fn law_custom_codes_keep_case(a: Seq<char>, b: Seq<char>)
    requires
        valid_unit_code(a),
        valid_unit_code(b),
        !known(a) && !known(upper_text(a)),
        !known(b) && !known(upper_text(b)),
    ensures
        unit_named(a) == unit_named(b) <==> a == b,
{
}

/// Only text of 1 to 64 admitted characters, or a known code in any case, names
/// a unit.
pub proof fn law_names_are_bounded(text: Seq<char>)
    ensures
        unit_named(text) is Some <==> known(text) || known(upper_text(text)) || valid_unit_code(
            text,
        ),
        valid_unit_code(text) ==> 1 <= text.len() <= MAX_CUSTOM_UNIT_CODE_LEN,
{
}

/// Equal units hash alike: what feeding one of them to a hasher may leave of the
/// hasher, feeding the other may leave.
pub proof fn law_equal_units_hash_alike<H: std::hash::Hasher>(
    a: Currency,
    b: Currency,
    before: H,
    after: H,
)
    requires
        a.eq_spec(&b),
        exists|text: &str, s: &mut H|
            text@ == a.code_text() && *s == before && *final(s) == after
                && #[trigger] call_ensures(hash_text::<H>, (text, s), ()),
    ensures
        exists|text: &str, s: &mut H|
            text@ == b.code_text() && *s == before && *final(s) == after
                && #[trigger] call_ensures(hash_text::<H>, (text, s), ()),
{
    law_equal_units_have_equal_codes(a, b);
}

/// Units are equal exactly if their codes are, which is when neither comes
/// before the other.
pub proof fn law_equal_units_have_equal_codes(a: Currency, b: Currency)
    ensures
        a.eq_spec(&b) <==> a.code_text() == b.code_text(),
        a.eq_spec(&b) <==> a.partial_cmp_spec(&b) == Some(Ordering::Equal),
{
    law_texts_are_totally_ordered(a.code_text(), b.code_text(), a.code_text());
}

/// Units are equal exactly if neither comes before the other, of two different
/// units one comes first, and the order is transitive.
pub proof fn law_units_are_totally_ordered(a: Currency, b: Currency, c: Currency)
    ensures
        a.code_text() == b.code_text() <==> text_order(a.code_text(), b.code_text())
            == TextOrder::Equal,
        text_order(a.code_text(), b.code_text()) == TextOrder::Less <==> text_order(
            b.code_text(),
            a.code_text(),
        ) == TextOrder::Greater,
        text_order(a.code_text(), b.code_text()) == TextOrder::Less && text_order(
            b.code_text(),
            c.code_text(),
        ) == TextOrder::Less ==> text_order(a.code_text(), c.code_text()) == TextOrder::Less,
{
    law_texts_are_totally_ordered(a.code_text(), b.code_text(), c.code_text());
}

} // verus!
