//! What text helpers and unit codes do, letter by letter.
use crate::currency::{
    is_unit_char, valid_unit_code, Currency, CustomUnitCode, ParseCurrencyError,
};
use crate::registry::{crypto_listed, iso_listed};
use crate::text::{
    ascii_lowercase, ascii_uppercase, bytes_order, characters, compare_text, contains_text, decimal,
    decimal_signed, decimal_unsigned, digit, digits, is_white, join2, join3,
    law_texts_are_totally_ordered, lower, lower_text, same_text, same_text_ignoring_case, stands_at,
    text_of, trim_back, trim_front, trim_text, upper, upper_text, TextOrder,
};
use std::cmp::Ordering;
use vstd::prelude::*;
use vstd::string::*;
use vstd::utf8::encode_utf8;

verus! {

/// The small letters of ASCII.
pub open spec fn small_letters() -> Seq<char> {
    seq![
        'a', 'b', 'c', 'd', 'e', 'f', 'g', 'h', 'i', 'j', 'k', 'l', 'm', 'n', 'o', 'p', 'q', 'r',
        's', 't', 'u', 'v', 'w', 'x', 'y', 'z',
    ]
}

/// The capital letters of ASCII, in the same order.
pub open spec fn capital_letters() -> Seq<char> {
    seq![
        'A', 'B', 'C', 'D', 'E', 'F', 'G', 'H', 'I', 'J', 'K', 'L', 'M', 'N', 'O', 'P', 'Q', 'R',
        'S', 'T', 'U', 'V', 'W', 'X', 'Y', 'Z',
    ]
}

/// Whether `small` and `capital` are the two cases of the letter at place `j` of
/// the alphabet.
pub open spec fn cases_of(small: char, capital: char, j: int) -> bool {
    0 <= j < 26 && small_letters()[j] == small && capital_letters()[j] == capital
}

/// Whether `small` and `capital` are the two cases of one letter.
pub open spec fn two_cases(small: char, capital: char) -> bool {
    exists|j: int| cases_of(small, capital, j)
}

/// Whether `c` is a small letter.
pub open spec fn is_small(c: char) -> bool {
    small_letters().contains(c)
}

/// Whether `c` is a capital letter.
pub open spec fn is_capital(c: char) -> bool {
    capital_letters().contains(c)
}

/// A letter is small exactly if it has a capital, and capital exactly if it has
/// a small form; each has one.
proof fn lemma_cases(c: char)
    ensures
        is_small(c) <==> 97 <= c as u32 <= 122,
        is_small(c) ==> two_cases(c, (c as u32 - 32) as char),
        is_capital(c) <==> 65 <= c as u32 <= 90,
        is_capital(c) ==> two_cases((c as u32 + 32) as char, c),
        forall|d: char| two_cases(c, d) ==> is_small(c) && d as u32 == c as u32 - 32,
        forall|d: char| two_cases(d, c) ==> is_capital(c) && d as u32 == c as u32 + 32,
{
    let small = small_letters();
    let capital = capital_letters();
    assert forall|j: int| 0 <= j < 26 implies #[trigger] small[j] as u32 == 97 + j && capital[j]
        as u32 == 65 + j by {
        assert(j == 0 || j == 1 || j == 2 || j == 3 || j == 4 || j == 5 || j == 6 || j == 7 || j
            == 8 || j == 9 || j == 10 || j == 11 || j == 12 || j == 13 || j == 14 || j == 15 || j
            == 16 || j == 17 || j == 18 || j == 19 || j == 20 || j == 21 || j == 22 || j == 23 || j
            == 24 || j == 25);
    }
    if 97 <= c as u32 <= 122 {
        let j = c as u32 - 97;
        assert(small[j] == c);
        assert(cases_of(c, (c as u32 - 32) as char, j));
    }
    if 65 <= c as u32 <= 90 {
        let j = c as u32 - 65;
        assert(small[j] as u32 == 97 + j);
        assert(capital[j] == c);
        assert(cases_of((c as u32 + 32) as char, c, j));
    }
    assert forall|d: char| two_cases(c, d) implies is_small(c) && d as u32 == c as u32 - 32 by {
        let j = choose|j: int| cases_of(c, d, j);
        assert(small[j] as u32 == 97 + j);
    }
    assert forall|d: char| two_cases(d, c) implies is_capital(c) && d as u32 == c as u32 + 32 by {
        let j = choose|j: int| cases_of(d, c, j);
        assert(small[j] as u32 == 97 + j);
        assert(capital[j] == c);
    }
    if small.contains(c) {
        let j = choose|j: int| 0 <= j < small.len() && small[j] == c;
        assert(small[j] as u32 == 97 + j);
    }
    if capital.contains(c) {
        let j = choose|j: int| 0 <= j < capital.len() && capital[j] == c;
        assert(small[j] as u32 == 97 + j);
    }
}

/// Upper-casing turns each of the small letters into its capital and keeps every
/// other character in its place.
pub proof fn law_uppercase_by_letters(s: &str, r: String, i: int)
    requires
        call_ensures(ascii_uppercase, (s,), r),
        0 <= i < s@.len(),
    ensures
        r@.len() == s@.len(),
        is_small(s@[i]) ==> two_cases(s@[i], r@[i]),
        !is_small(s@[i]) ==> r@[i] == s@[i],
{
    lemma_cases(s@[i]);
}

/// Lower-casing turns each of the capital letters into its small form and keeps
/// every other character in its place.
pub proof fn law_lowercase_by_letters(s: &str, r: String, i: int)
    requires
        call_ensures(ascii_lowercase, (s,), r),
        0 <= i < s@.len(),
    ensures
        r@.len() == s@.len(),
        is_capital(s@[i]) ==> two_cases(r@[i], s@[i]),
        !is_capital(s@[i]) ==> r@[i] == s@[i],
{
    lemma_cases(s@[i]);
}

/// Whether `s` is a spelling of `code`: at each place it has the same character
/// or the small form of the capital letter there.
pub open spec fn spells(s: Seq<char>, code: Seq<char>) -> bool {
    &&& s.len() == code.len()
    &&& forall|i: int|
        0 <= i < s.len() ==> (s[i] == #[trigger] code[i] || two_cases(s[i], code[i]))
}

/// Whether no character of `code` is a small letter.
pub open spec fn without_small_letters(code: Seq<char>) -> bool {
    forall|i: int| 0 <= i < code.len() ==> !is_small(#[trigger] code[i])
}

/// Upper-casing a spelling of a code without small letters gives the code.
pub proof fn lemma_spelling(s: Seq<char>, code: Seq<char>)
    requires
        spells(s, code),
        without_small_letters(code),
    ensures
        upper_text(s) == code,
{
    assert forall|i: int| 0 <= i < s.len() implies upper(s[i]) == #[trigger] code[i] by {
        lemma_cases(s[i]);
        lemma_cases(code[i]);
    }
    assert(upper_text(s) =~= code);
}

/// Every spelling of a listed code names the listed unit: no mix of cases makes
/// a unit of its own. Listed codes have no small letters.
pub proof fn law_spellings_name_the_listed_unit(
    s: String,
    code: Seq<char>,
    r: Result<Currency, ParseCurrencyError>,
)
    requires
        call_ensures(<Currency as TryFrom<String>>::try_from, (s,), r),
        iso_listed(code) || crypto_listed(code),
        s@ == code || without_small_letters(code) && spells(s@, code),
    ensures
        match r {
            Ok(Currency::Iso(found)) => iso_listed(code) && found@ == code,
            Ok(Currency::Crypto(found)) => !iso_listed(code) && found@ == code,
            Ok(Currency::Custom(_)) => false,
            Err(_) => false,
        },
{
    if s@ != code {
        lemma_spelling(s@, code);
    }
}

/// Upper-cased text has no small letters, and the text spells it.
pub proof fn lemma_uppercase_is_spelled(s: Seq<char>)
    ensures
        spells(s, upper_text(s)),
        without_small_letters(upper_text(s)),
{
    let code = upper_text(s);
    assert forall|i: int| 0 <= i < s.len() implies (s[i] == #[trigger] code[i] || two_cases(
        s[i],
        code[i],
    )) by {
        lemma_cases(s[i]);
    }
    assert forall|i: int| 0 <= i < code.len() implies !is_small(#[trigger] code[i]) by {
        lemma_cases(s[i]);
        lemma_cases(code[i]);
    }
}

/// The decimal digits.
pub open spec fn ten_digits() -> Seq<char> {
    seq!['0', '1', '2', '3', '4', '5', '6', '7', '8', '9']
}

/// Whether `c` may stand in a caller-defined code: a letter, a digit or one of
/// five signs.
pub open spec fn in_unit_codes(c: char) -> bool {
    is_small(c) || is_capital(c) || ten_digits().contains(c) || seq!['_', '-', '.', ':', '/']
        .contains(c)
}

/// Whether `code` has 1 to 64 characters, all of which may stand in a
/// caller-defined code.
pub open spec fn may_be_defined(code: Seq<char>) -> bool {
    1 <= code.len() <= 64 && forall|i: int|
        0 <= i < code.len() ==> in_unit_codes(#[trigger] code[i])
}

proof fn lemma_digit_place(c: char)
    ensures
        ten_digits().contains(c) <==> 48 <= c as u32 <= 57,
{
    let ten = ten_digits();
    if 48 <= c as u32 <= 57 {
        let j = c as u32 - 48;
        assert(ten[j] == c) by {
            assert(j == 0 || j == 1 || j == 2 || j == 3 || j == 4 || j == 5 || j == 6 || j == 7
                || j == 8 || j == 9);
        }
    }
}

proof fn lemma_unit_char(c: char)
    ensures
        is_unit_char(c) <==> in_unit_codes(c),
{
    lemma_cases(c);
    lemma_digit_place(c);
    let signs = seq!['_', '-', '.', ':', '/'];
    assert(signs[0] == '_' && signs[1] == '-' && signs[2] == '.' && signs[3] == ':' && signs[4]
        == '/');
}

/// What may be a caller-defined code, letter by letter.
pub proof fn lemma_unit_code(code: Seq<char>)
    ensures
        valid_unit_code(code) <==> may_be_defined(code),
{
    assert forall|i: int| 0 <= i < code.len() implies is_unit_char(#[trigger] code[i])
        == in_unit_codes(code[i]) by {
        lemma_unit_char(code[i]);
    }
}

/// A caller-defined code is admitted exactly if it has 1 to 64 characters among
/// letters, digits and five signs, and it is kept as it was given.
pub proof fn law_defined_codes_by_letters(
    code: &str,
    r: Result<CustomUnitCode, ParseCurrencyError>,
)
    requires
        call_ensures(CustomUnitCode::parse, (code,), r),
    ensures
        r is Ok <==> may_be_defined(code@),
        r matches Ok(unit) ==> forall|text: &str|
            call_ensures(CustomUnitCode::as_str, (&unit,), text) ==> text@ == code@,
        r matches Err(ParseCurrencyError::InvalidUnitCode(text)) ==> text@ == code@,
{
    lemma_unit_code(code@);
}

/// Text that spells no listed code names a caller-defined unit by exactly that
/// text, if it may be a code at all, and is refused by name if not.
pub proof fn law_other_texts_name_defined_units(
    s: String,
    r: Result<Currency, ParseCurrencyError>,
)
    requires
        call_ensures(<Currency as TryFrom<String>>::try_from, (s,), r),
        forall|code: Seq<char>|
            #![trigger spells(s@, code)]
            spells(s@, code) ==> !iso_listed(code) && !crypto_listed(code),
    ensures
        match r {
            Ok(Currency::Custom(unit)) => may_be_defined(s@) && unit@ == s@,
            Ok(_) => false,
            Err(ParseCurrencyError::InvalidUnitCode(text)) => !may_be_defined(s@) && text@ == s@,
        },
{
    lemma_unit_code(s@);
    lemma_uppercase_is_spelled(s@);
    assert(spells(s@, s@));
}

/// The code of a unit names an equal unit, and a unit is shown as its code.
pub proof fn law_units_are_read_back(
    unit: Currency,
    code: &str,
    shown: String,
    s: String,
    r: Result<Currency, ParseCurrencyError>,
)
    requires
        unit.wf(),
        call_ensures(Currency::code, (&unit,), code),
        call_ensures(Currency::to_text, (&unit,), shown),
        s@ == code@,
        call_ensures(<Currency as TryFrom<String>>::try_from, (s,), r),
        without_small_letters(code@) || unit is Custom,
    ensures
        match (unit, r) {
            (Currency::Iso(a), Ok(Currency::Iso(b))) => a@ == b@ && code@ == a@,
            (Currency::Crypto(a), Ok(Currency::Crypto(b))) => a@ == b@ && code@ == a@,
            (Currency::Custom(a), Ok(Currency::Custom(b))) => a@ == b@ && code@ == a@,
            _ => false,
        },
{
    if !(unit is Custom) {
        assert(spells(code@, code@));
        lemma_spelling(code@, code@);
    }
}

/// The number that decimal digits stand for.
pub open spec fn number_read(digits: Seq<char>) -> int
    decreases digits.len(),
{
    if digits.len() == 0 {
        0
    } else {
        10 * number_read(digits.drop_last()) + ten_digits().index_of(digits.last())
    }
}

/// Whether text is a number as it is commonly written: digits, of which the
/// first is a zero only if it is the only one.
pub open spec fn plainly_written(digits: Seq<char>) -> bool {
    &&& digits.len() > 0
    &&& forall|i: int| 0 <= i < digits.len() ==> ten_digits().contains(#[trigger] digits[i])
    &&& digits.len() > 1 ==> digits[0] != '0'
}

proof fn lemma_digit(d: int)
    requires
        0 <= d < 10,
    ensures
        ten_digits().contains(digit(d)),
        ten_digits().index_of(digit(d)) == d,
        digit(d) == '0' <==> d == 0,
{
    let ten = ten_digits();
    assert forall|j: int| 0 <= j < 10 implies #[trigger] ten[j] as u32 == 48 + j by {
        assert(j == 0 || j == 1 || j == 2 || j == 3 || j == 4 || j == 5 || j == 6 || j == 7 || j
            == 8 || j == 9);
    }
    assert(ten[d] == digit(d));
    let k = ten.index_of(digit(d));
    assert(ten[k] as u32 == 48 + k);
}

/// The decimal digits of a number are plainly written and stand for it.
pub proof fn lemma_digits(n: nat)
    ensures
        plainly_written(digits(n)),
        number_read(digits(n)) == n,
        n > 0 ==> digits(n)[0] != '0',
    decreases n,
{
    lemma_digit((n % 10) as int);
    if n < 10 {
        assert(digits(n).drop_last() =~= Seq::<char>::empty());
        assert(number_read(Seq::<char>::empty()) == 0);
    } else {
        lemma_digits(n / 10);
        assert(digits(n).drop_last() =~= digits(n / 10));
    }
}

/// A number is written in plain decimal digits that stand for it, with a sign in
/// front if it is negative.
pub proof fn law_numbers_are_written_in_decimal(n: u64, m: i64, r: String, t: String)
    requires
        call_ensures(decimal_unsigned, (n,), r),
        call_ensures(decimal_signed, (m,), t),
    ensures
        plainly_written(r@) && number_read(r@) == n,
        m >= 0 ==> plainly_written(t@) && number_read(t@) == m,
        m < 0 ==> t@.len() > 0 && t@[0] == '-' && plainly_written(t@.skip(1)) && number_read(
            t@.skip(1),
        ) == -m,
{
    lemma_digits(n as nat);
    if m >= 0 {
        lemma_digits(m as nat);
    } else {
        lemma_digits((-m) as nat);
        assert(t@.skip(1) =~= digits((-m) as nat));
    }
}

/// Whether `text` writes `n` in decimal, with a sign in front if it is negative.
pub open spec fn writes_number(text: Seq<char>, n: int) -> bool {
    if n >= 0 {
        plainly_written(text) && number_read(text) == n
    } else {
        text.len() > 0 && text[0] == '-' && plainly_written(text.skip(1)) && number_read(
            text.skip(1),
        ) == -n
    }
}

/// The decimal form of a number writes it.
pub proof fn lemma_decimal(n: int)
    ensures
        writes_number(decimal(n), n),
{
    if n >= 0 {
        lemma_digits(n as nat);
    } else {
        lemma_digits((-n) as nat);
        assert(decimal(n).skip(1) =~= digits((-n) as nat));
    }
}

/// The characters that are white space.
pub open spec fn white_space() -> Seq<char> {
    seq![
        '\u{9}', '\u{a}', '\u{b}', '\u{c}', '\u{d}', '\u{20}', '\u{85}', '\u{a0}', '\u{1680}',
        '\u{2000}', '\u{2001}', '\u{2002}', '\u{2003}', '\u{2004}', '\u{2005}', '\u{2006}',
        '\u{2007}', '\u{2008}', '\u{2009}', '\u{200a}', '\u{2028}', '\u{2029}', '\u{202f}',
        '\u{205f}', '\u{3000}',
    ]
}

proof fn lemma_white(c: char)
    ensures
        is_white(c) <==> white_space().contains(c),
{
    let w = white_space();
    assert(w[0] == '\u{9}' && w[1] == '\u{a}' && w[2] == '\u{b}' && w[3] == '\u{c}' && w[4]
        == '\u{d}' && w[5] == '\u{20}' && w[6] == '\u{85}' && w[7] == '\u{a0}' && w[8]
        == '\u{1680}' && w[9] == '\u{2000}' && w[10] == '\u{2001}' && w[11] == '\u{2002}' && w[12]
        == '\u{2003}' && w[13] == '\u{2004}' && w[14] == '\u{2005}' && w[15] == '\u{2006}' && w[16]
        == '\u{2007}' && w[17] == '\u{2008}' && w[18] == '\u{2009}' && w[19] == '\u{200a}' && w[20]
        == '\u{2028}' && w[21] == '\u{2029}' && w[22] == '\u{202f}' && w[23] == '\u{205f}' && w[24]
        == '\u{3000}');
}

/// Whether text holds white space alone.
pub open spec fn all_white(s: Seq<char>) -> bool {
    forall|i: int| 0 <= i < s.len() ==> white_space().contains(#[trigger] s[i])
}

/// Whether `s` is `core` between white space, and `core` neither begins nor ends
/// with any.
pub open spec fn is_trimmed(s: Seq<char>, front: Seq<char>, core: Seq<char>, back: Seq<char>) -> bool {
    &&& s == front + core + back
    &&& all_white(front)
    &&& all_white(back)
    &&& core.len() > 0 ==> !white_space().contains(core[0]) && !white_space().contains(core.last())
}

proof fn lemma_trim_front(s: Seq<char>) -> (front: Seq<char>)
    ensures
        s == front + trim_front(s),
        all_white(front),
        trim_front(s).len() > 0 ==> !is_white(trim_front(s)[0]),
    decreases s.len(),
{
    if s.len() > 0 && is_white(s[0]) {
        let rest = lemma_trim_front(s.drop_first());
        let front = seq![s[0]] + rest;
        assert(s =~= seq![s[0]] + s.drop_first());
        assert(front + trim_front(s) =~= seq![s[0]] + (rest + trim_front(s.drop_first())));
        lemma_white(s[0]);
        front
    } else {
        assert(s =~= Seq::<char>::empty() + s);
        Seq::empty()
    }
}

proof fn lemma_trim_back(s: Seq<char>) -> (back: Seq<char>)
    ensures
        s == trim_back(s) + back,
        all_white(back),
        trim_back(s).len() > 0 ==> !is_white(trim_back(s).last()) && trim_back(s)[0] == s[0],
    decreases s.len(),
{
    if s.len() > 0 && is_white(s.last()) {
        let rest = lemma_trim_back(s.drop_last());
        let back = rest.push(s.last());
        assert(s =~= s.drop_last().push(s.last()));
        assert(trim_back(s) + back =~= (trim_back(s.drop_last()) + rest).push(s.last()));
        lemma_white(s.last());
        back
    } else {
        assert(s =~= s + Seq::<char>::empty());
        Seq::empty()
    }
}

/// Trimming takes white space off both ends, all of it and nothing else.
pub proof fn law_trimming_takes_white_space_off(s: &str, r: String)
    requires
        call_ensures(trim_text, (s,), r),
    ensures
        exists|front: Seq<char>, back: Seq<char>| is_trimmed(s@, front, r@, back),
{
    let front = lemma_trim_front(s@);
    let back = lemma_trim_back(trim_front(s@));
    assert(s@ =~= front + r@ + back);
    if r@.len() > 0 {
        lemma_white(r@[0]);
        lemma_white(r@.last());
    }
    assert(is_trimmed(s@, front, r@, back));
}

/// Whether `whole` is `before`, then `part`, then `after`.
pub open spec fn composed(
    whole: Seq<char>,
    before: Seq<char>,
    part: Seq<char>,
    after: Seq<char>,
) -> bool {
    whole == before + part + after
}

/// A part is found exactly if something before it and something after it make
/// up the whole.
pub proof fn law_parts_are_found(whole: &str, part: &str, r: bool)
    requires
        call_ensures(contains_text, (whole, part), r),
    ensures
        r <==> exists|before: Seq<char>, after: Seq<char>| composed(whole@, before, part@, after),
{
    if r {
        let at = choose|at: int| stands_at(whole@, part@, at);
        let before = whole@.take(at);
        let after = whole@.skip(at + part@.len());
        assert(whole@ =~= before + whole@.subrange(at, at + part@.len()) + after);
        assert(composed(whole@, before, part@, after));
    }
    if exists|before: Seq<char>, after: Seq<char>| composed(whole@, before, part@, after) {
        let (before, after) = choose|before: Seq<char>, after: Seq<char>|
            composed(whole@, before, part@, after);
        let at = before.len() as int;
        assert(whole@.subrange(at, at + part@.len()) =~= part@);
        assert(stands_at(whole@, part@, at));
    }
}

/// Texts are the same exactly if they have the same characters, and the same up
/// to case exactly if the characters at each place are the same or the two cases
/// of one letter.
pub proof fn law_same_texts(a: &str, b: &str, same: bool, alike: bool)
    requires
        call_ensures(same_text, (a, b), same),
        call_ensures(same_text_ignoring_case, (a, b), alike),
    ensures
        same <==> a@ == b@,
        alike <==> self::alike(a@, b@),
{
    lemma_lowered(a@, b@);
}

/// Whether two texts are the same up to the case of letters.
pub open spec fn alike(a: Seq<char>, b: Seq<char>) -> bool {
    &&& a.len() == b.len()
    &&& forall|i: int|
        0 <= i < a.len() ==> (#[trigger] a[i] == b[i] || two_cases(a[i], b[i]) || two_cases(
            b[i],
            a[i],
        ))
}

/// Texts are alike exactly if they are the same in lower case.
pub proof fn lemma_lowered(a: Seq<char>, b: Seq<char>)
    ensures
        lower_text(a) == lower_text(b) <==> alike(a, b),
{
    assert forall|i: int| 0 <= i < a.len() && i < b.len() implies (lower(#[trigger] a[i]) == lower(
        b[i],
    )) == (a[i] == b[i] || two_cases(a[i], b[i]) || two_cases(b[i], a[i])) by {
        lemma_cases(a[i]);
        lemma_cases(b[i]);
    }
    if lower_text(a) == lower_text(b) {
        assert(lower_text(a).len() == lower_text(b).len());
        assert forall|i: int| 0 <= i < a.len() implies (#[trigger] a[i] == b[i] || two_cases(
            a[i],
            b[i],
        ) || two_cases(b[i], a[i])) by {
            assert(lower_text(a)[i] == lower_text(b)[i]);
        }
    } else if alike(a, b) {
        assert(lower_text(a) =~= lower_text(b));
    }
}

/// Text is like another in lower case exactly if it is that in lower case.
pub proof fn lemma_alike(a: Seq<char>, b: Seq<char>)
    requires
        lower_text(b) == b,
    ensures
        lower_text(a) == b <==> alike(a, b),
{
    lemma_lowered(a, b);
}

/// Whether the bytes of `a` and `b` agree up to place `i`, where `a` ends before
/// `b` or has the smaller byte.
pub open spec fn first_at(a: Seq<u8>, b: Seq<u8>, i: int) -> bool {
    &&& 0 <= i <= a.len()
    &&& i < b.len()
    &&& forall|k: int| 0 <= k < i ==> #[trigger] a[k] == b[k]
    &&& i == a.len() || a[i] < b[i]
}

proof fn lemma_bytes_first(a: Seq<u8>, b: Seq<u8>)
    ensures
        bytes_order(a, b) == TextOrder::Less <==> exists|i: int| first_at(a, b, i),
    decreases a.len(),
{
    if a.len() > 0 && b.len() > 0 && a[0] == b[0] {
        let x = a.drop_first();
        let y = b.drop_first();
        lemma_bytes_first(x, y);
        if exists|i: int| first_at(x, y, i) {
            let i = choose|i: int| first_at(x, y, i);
            assert forall|k: int| 0 <= k < i + 1 implies #[trigger] a[k] == b[k] by {
                if k > 0 {
                    assert(x[k - 1] == y[k - 1]);
                }
            }
            assert(first_at(a, b, i + 1));
        }
        if exists|i: int| first_at(a, b, i) {
            let i = choose|i: int| first_at(a, b, i);
            assert forall|k: int| 0 <= k < i - 1 implies #[trigger] x[k] == y[k] by {
                assert(a[k + 1] == b[k + 1]);
            }
            assert(first_at(x, y, i - 1));
        }
    } else if b.len() > 0 && (a.len() == 0 || a[0] < b[0]) {
        assert(first_at(a, b, 0));
    } else if exists|i: int| first_at(a, b, i) {
        let i = choose|i: int| first_at(a, b, i);
        if i > 0 {
            assert(a[0] == b[0]);
        }
    }
}

/// Text comes before other text exactly if its bytes do: at the first place
/// where they differ it has the smaller byte, or it ends there.
pub proof fn law_texts_are_ordered_by_bytes(a: &str, b: &str, r: TextOrder)
    requires
        call_ensures(compare_text, (a, b), r),
    ensures
        r == TextOrder::Less <==> exists|i: int| first_at(encode_utf8(a@), encode_utf8(b@), i),
        r == TextOrder::Equal <==> a@ == b@,
        r == TextOrder::Greater <==> exists|i: int| first_at(encode_utf8(b@), encode_utf8(a@), i),
{
    lemma_bytes_first(encode_utf8(a@), encode_utf8(b@));
    lemma_bytes_first(encode_utf8(b@), encode_utf8(a@));
    law_texts_are_totally_ordered(a@, b@, a@);
    law_texts_are_totally_ordered(b@, a@, b@);
}

/// Units are equal exactly if their codes are, and ordered as the bytes of their
/// codes.
pub proof fn law_units_compare_by_code(
    a: Currency,
    b: Currency,
    of_a: &str,
    of_b: &str,
    same: bool,
    r: Option<Ordering>,
)
    requires
        call_ensures(Currency::code, (&a,), of_a),
        call_ensures(Currency::code, (&b,), of_b),
        call_ensures(Currency::eq, (&a, &b), same),
        call_ensures(Currency::partial_cmp, (&a, &b), r),
    ensures
        same <==> of_a@ == of_b@,
        r == Some(Ordering::Less) <==> exists|i: int|
            first_at(encode_utf8(of_a@), encode_utf8(of_b@), i),
        r == Some(Ordering::Equal) <==> of_a@ == of_b@,
        r == Some(Ordering::Greater) <==> exists|i: int|
            first_at(encode_utf8(of_b@), encode_utf8(of_a@), i),
{
    lemma_bytes_first(encode_utf8(of_a@), encode_utf8(of_b@));
    lemma_bytes_first(encode_utf8(of_b@), encode_utf8(of_a@));
    law_texts_are_totally_ordered(of_a@, of_b@, of_a@);
    law_texts_are_totally_ordered(of_b@, of_a@, of_b@);
}

/// A unit is shown as its code everywhere, bitcoin as `BTC` and the dollar as
/// `USD`.
pub proof fn law_units_are_shown_by_code(
    unit: Currency,
    code: &str,
    text: String,
    btc: Currency,
    of_btc: &str,
    usd: Currency,
    of_usd: &str,
)
    requires
        call_ensures(Currency::code, (&unit,), code),
        call_ensures(Currency::to_text, (&unit,), text),
        call_ensures(Currency::btc, (), btc),
        call_ensures(Currency::code, (&btc,), of_btc),
        call_ensures(Currency::usd, (), usd),
        call_ensures(Currency::code, (&usd,), of_usd),
    ensures
        text@ == code@,
        btc is Crypto && of_btc@ == "BTC"@,
        usd is Iso && of_usd@ == "USD"@,
{
}

/// Codes of caller-defined units are equal exactly if their texts are.
pub proof fn law_defined_codes_compare_by_text(
    a: CustomUnitCode,
    b: CustomUnitCode,
    of_a: &str,
    of_b: &str,
    same: bool,
)
    requires
        call_ensures(CustomUnitCode::as_str, (&a,), of_a),
        call_ensures(CustomUnitCode::as_str, (&b,), of_b),
        call_ensures(CustomUnitCode::eq, (&a, &b), same),
    ensures
        same <==> of_a@ == of_b@,
{
}

/// Text is taken apart into its characters and put together again, and pieces of
/// text are joined in their order.
pub proof fn law_texts_are_made_of_characters(
    a: &str,
    b: &str,
    c: &str,
    chars: Vec<char>,
    text: String,
    two: String,
    three: String,
)
    requires
        call_ensures(characters, (a,), chars),
        call_ensures(text_of, (&chars,), text),
        call_ensures(join2, (a, b), two),
        call_ensures(join3, (a, b, c), three),
    ensures
        chars@.len() == a@.len(),
        forall|i: int| 0 <= i < a@.len() ==> #[trigger] chars@[i] == a@[i],
        text@ == a@,
        two@.take(a@.len() as int) == a@ && two@.skip(a@.len() as int) == b@,
        three@.take(two@.len() as int) == two@ && three@.skip(two@.len() as int) == c@,
{
}

} // verus!
