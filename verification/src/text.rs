//! Verified text helpers: comparison, ASCII case, substring search, trimming
//! and rendering of numbers.
use vstd::prelude::*;
use vstd::string::*;
use vstd::utf8::{encode_utf8, encode_utf8_decode_utf8};

verus! {

/// `String::push` appends one character.
pub assume_specification[ std::string::String::push ](s: &mut std::string::String, c: char)
    ensures
        final(s)@ == old(s)@.push(c),
;

/// The ASCII upper-case form of one character.
pub open spec fn upper(c: char) -> char {
    if 'a' <= c && c <= 'z' {
        (c as u32 - 32) as char
    } else {
        c
    }
}

/// The ASCII lower-case form of one character.
pub open spec fn lower(c: char) -> char {
    if 'A' <= c && c <= 'Z' {
        (c as u32 + 32) as char
    } else {
        c
    }
}

/// Text with every ASCII letter in upper case.
pub open spec fn upper_text(s: Seq<char>) -> Seq<char> {
    Seq::new(s.len(), |i: int| upper(s[i]))
}

/// Text with every ASCII letter in lower case.
pub open spec fn lower_text(s: Seq<char>) -> Seq<char> {
    Seq::new(s.len(), |i: int| lower(s[i]))
}

/// The characters of `s`, in order.
pub fn characters(s: &str) -> (r: Vec<char>)
    ensures
        r@ == s@,
{
    let mut out: Vec<char> = Vec::new();
    for c in it: s.chars()
        invariant
            it.seq() == s@,
            out@ == s@.take(it.index() as int),
    {
        proof {
            assert(s@.take(it.index() + 1) =~= s@.take(it.index() as int).push(c));
        }
        out.push(c);
    }
    proof {
        assert(s@.take(s@.len() as int) =~= s@);
    }
    out
}

/// Joins characters to text.
pub fn text_of(chars: &Vec<char>) -> (r: String)
    ensures
        r@ == chars@,
{
    let mut out = String::new();
    let mut i: usize = 0;
    while i < chars.len()
        invariant
            i <= chars.len(),
            out@ == chars@.take(i as int),
        decreases chars.len() - i,
    {
        proof {
            assert(chars@.take(i + 1) =~= chars@.take(i as int).push(chars@[i as int]));
        }
        out.push(chars[i]);
        i = i + 1;
    }
    proof {
        assert(chars@.take(chars@.len() as int) =~= chars@);
    }
    out
}

/// Upper-cases the ASCII letters of `s` and keeps every other character.
pub fn ascii_uppercase(s: &str) -> (r: String)
    ensures
        r@ == upper_text(s@),
{
    let mut chars = characters(s);
    let mut i: usize = 0;
    while i < chars.len()
        invariant
            i <= chars.len(),
            chars.len() == s@.len(),
            forall|k: int| 0 <= k < i ==> chars[k] == upper(s@[k]),
            forall|k: int| i <= k < chars.len() ==> chars[k] == s@[k],
        decreases chars.len() - i,
    {
        let c = chars[i];
        if 'a' <= c && c <= 'z' {
            let u: u8 = c as u8;
            chars.set(i, (u - 32) as char);
        }
        i = i + 1;
    }
    proof {
        assert(chars@ =~= upper_text(s@));
    }
    text_of(&chars)
}

/// Lower-cases the ASCII letters of `s` and keeps every other character.
pub fn ascii_lowercase(s: &str) -> (r: String)
    ensures
        r@ == lower_text(s@),
{
    let mut chars = characters(s);
    let mut i: usize = 0;
    while i < chars.len()
        invariant
            i <= chars.len(),
            chars.len() == s@.len(),
            forall|k: int| 0 <= k < i ==> chars[k] == lower(s@[k]),
            forall|k: int| i <= k < chars.len() ==> chars[k] == s@[k],
        decreases chars.len() - i,
    {
        let c = chars[i];
        if 'A' <= c && c <= 'Z' {
            let u: u8 = c as u8;
            chars.set(i, (u + 32) as char);
        }
        i = i + 1;
    }
    proof {
        assert(chars@ =~= lower_text(s@));
    }
    text_of(&chars)
}

/// How two texts stand in the byte-wise lexicographic order.
#[derive(Debug, Clone, Copy, PartialEq, Eq, Structural)]
pub enum TextOrder {
    Less,
    Equal,
    Greater,
}

/// Lexicographic order of byte sequences.
pub open spec fn bytes_order(a: Seq<u8>, b: Seq<u8>) -> TextOrder
    decreases a.len(),
{
    if a.len() == 0 {
        if b.len() == 0 {
            TextOrder::Equal
        } else {
            TextOrder::Less
        }
    } else if b.len() == 0 {
        TextOrder::Greater
    } else if a[0] < b[0] {
        TextOrder::Less
    } else if a[0] > b[0] {
        TextOrder::Greater
    } else {
        bytes_order(a.drop_first(), b.drop_first())
    }
}

/// The order of two texts: that of their UTF-8 bytes.
pub open spec fn text_order(a: Seq<char>, b: Seq<char>) -> TextOrder {
    bytes_order(encode_utf8(a), encode_utf8(b))
}

/// Compares two texts byte by byte.
pub fn compare_text(a: &str, b: &str) -> (r: TextOrder)
    ensures
        r == text_order(a@, b@),
{
    let x = a.as_bytes();
    let y = b.as_bytes();
    let mut i: usize = 0;
    proof {
        assert(x@.skip(0) =~= x@);
        assert(y@.skip(0) =~= y@);
    }
    while i < x.len() && i < y.len()
        invariant
            i <= x.len(),
            i <= y.len(),
            x@ == encode_utf8(a@),
            y@ == encode_utf8(b@),
            bytes_order(x@, y@) == bytes_order(x@.skip(i as int), y@.skip(i as int)),
        decreases x.len() - i,
    {
        if x[i] < y[i] {
            return TextOrder::Less;
        }
        if x[i] > y[i] {
            return TextOrder::Greater;
        }
        proof {
            assert(x@.skip(i as int).drop_first() =~= x@.skip(i + 1));
            assert(y@.skip(i as int).drop_first() =~= y@.skip(i + 1));
        }
        i = i + 1;
    }
    if i < y.len() {
        TextOrder::Less
    } else if i < x.len() {
        TextOrder::Greater
    } else {
        TextOrder::Equal
    }
}

/// Byte-equal sequences, and only those, compare as equal.
pub proof fn lemma_bytes_order_equal(a: Seq<u8>, b: Seq<u8>)
    ensures
        bytes_order(a, b) == TextOrder::Equal <==> a == b,
    decreases a.len(),
{
    if a.len() > 0 && b.len() > 0 && a[0] == b[0] {
        lemma_bytes_order_equal(a.drop_first(), b.drop_first());
        if a.drop_first() == b.drop_first() {
            assert(a =~= seq![a[0]] + a.drop_first());
            assert(b =~= seq![b[0]] + b.drop_first());
        }
    } else if a.len() == 0 && b.len() == 0 {
        assert(a =~= b);
    }
}

/// Equal texts, and only those, compare as equal.
pub proof fn lemma_text_order_equal(a: Seq<char>, b: Seq<char>)
    ensures
        text_order(a, b) == TextOrder::Equal <==> a == b,
{
    lemma_bytes_order_equal(encode_utf8(a), encode_utf8(b));
    encode_utf8_decode_utf8(a);
    encode_utf8_decode_utf8(b);
}

/// The order of byte sequences turns round with them.
pub proof fn lemma_bytes_order_reversed(a: Seq<u8>, b: Seq<u8>)
    ensures
        bytes_order(a, b) == TextOrder::Less <==> bytes_order(b, a) == TextOrder::Greater,
    decreases a.len(),
{
    if a.len() > 0 && b.len() > 0 && a[0] == b[0] {
        lemma_bytes_order_reversed(a.drop_first(), b.drop_first());
    }
}

/// The order of byte sequences is transitive.
pub proof fn lemma_bytes_order_transitive(a: Seq<u8>, b: Seq<u8>, c: Seq<u8>)
    requires
        bytes_order(a, b) == TextOrder::Less,
        bytes_order(b, c) == TextOrder::Less,
    ensures
        bytes_order(a, c) == TextOrder::Less,
    decreases a.len(),
{
    if a.len() > 0 && b.len() > 0 && c.len() > 0 && a[0] == b[0] && b[0] == c[0] {
        lemma_bytes_order_transitive(a.drop_first(), b.drop_first(), c.drop_first());
    }
}

/// Texts are totally ordered: of two different texts one comes first, and the
/// order is transitive.
pub proof fn law_texts_are_totally_ordered(a: Seq<char>, b: Seq<char>, c: Seq<char>)
    ensures
        text_order(a, b) == TextOrder::Equal <==> a == b,
        text_order(a, b) == TextOrder::Less <==> text_order(b, a) == TextOrder::Greater,
        text_order(a, b) == TextOrder::Less && text_order(b, c) == TextOrder::Less ==> text_order(
            a,
            c,
        ) == TextOrder::Less,
{
    lemma_text_order_equal(a, b);
    lemma_bytes_order_reversed(encode_utf8(a), encode_utf8(b));
    if text_order(a, b) == TextOrder::Less && text_order(b, c) == TextOrder::Less {
        lemma_bytes_order_transitive(encode_utf8(a), encode_utf8(b), encode_utf8(c));
    }
}

/// Different numbers have different decimal digits.
pub proof fn lemma_digits_differ(a: nat, b: nat)
    ensures
        digits(a) == digits(b) ==> a == b,
    decreases a,
{
    if digits(a) == digits(b) {
        assert(digits(a).last() == digits(b).last());
        assert(a % 10 == b % 10);
        if a >= 10 && b >= 10 {
            assert(digits(a).drop_last() =~= digits(a / 10));
            assert(digits(b).drop_last() =~= digits(b / 10));
            lemma_digits_differ(a / 10, b / 10);
        } else if a >= 10 {
            lemma_digits_not_empty(a / 10);
        } else if b >= 10 {
            lemma_digits_not_empty(b / 10);
        }
    }
}

proof fn lemma_digits_not_empty(n: nat)
    ensures
        digits(n).len() > 0,
    decreases n,
{
}

/// Whether two texts hold the same characters.
pub fn same_text(a: &str, b: &str) -> (r: bool)
    ensures
        r == (a@ == b@),
{
    proof {
        lemma_text_order_equal(a@, b@);
    }
    match compare_text(a, b) {
        TextOrder::Equal => true,
        _ => false,
    }
}

/// Whether two texts are equal up to the case of ASCII letters.
pub fn same_text_ignoring_case(a: &str, b: &str) -> (r: bool)
    ensures
        r == (lower_text(a@) == lower_text(b@)),
{
    same_text(ascii_lowercase(a).as_str(), ascii_lowercase(b).as_str())
}

/// Whether `part` stands in `whole` at position `at`.
pub open spec fn stands_at(whole: Seq<char>, part: Seq<char>, at: int) -> bool {
    0 <= at && at + part.len() <= whole.len() && whole.subrange(at, at + part.len()) == part
}

/// Whether `part` is a contiguous part of `whole`.
pub open spec fn has_part(whole: Seq<char>, part: Seq<char>) -> bool {
    exists|at: int| stands_at(whole, part, at)
}

fn stands_here(whole: &Vec<char>, part: &Vec<char>, at: usize) -> (r: bool)
    requires
        at + part.len() <= whole.len(),
    ensures
        r == stands_at(whole@, part@, at as int),
{
    let mut k: usize = 0;
    while k < part.len()
        invariant
            k <= part.len(),
            at + part.len() <= whole.len(),
            forall|j: int| 0 <= j < k ==> whole[at + j] == part[j],
        decreases part.len() - k,
    {
        if whole[at + k] != part[k] {
            proof {
                assert(whole@.subrange(at as int, at + part@.len())[k as int] != part@[k as int]);
            }
            return false;
        }
        k = k + 1;
    }
    proof {
        assert(whole@.subrange(at as int, at + part@.len()) =~= part@);
    }
    true
}

/// Searches `whole` for `part`.
pub fn contains_text(whole: &str, part: &str) -> (r: bool)
    ensures
        r == has_part(whole@, part@),
{
    let w = characters(whole);
    let p = characters(part);
    if p.len() > w.len() {
        return false;
    }
    let last: usize = w.len() - p.len();
    let mut at: usize = 0;
    loop
        invariant
            w@ == whole@,
            p@ == part@,
            last == w.len() - p.len(),
            at <= last,
            forall|j: int| 0 <= j < at ==> !stands_at(whole@, part@, j),
        decreases last - at,
    {
        if stands_here(&w, &p, at) {
            return true;
        }
        if at == last {
            return false;
        }
        at = at + 1;
    }
}

/// The characters with the Unicode property `White_Space`.
pub open spec fn is_white(c: char) -> bool {
    ||| '\u{9}' <= c && c <= '\u{d}'
    ||| c == ' '
    ||| c == '\u{85}'
    ||| c == '\u{a0}'
    ||| c == '\u{1680}'
    ||| '\u{2000}' <= c && c <= '\u{200a}'
    ||| c == '\u{2028}'
    ||| c == '\u{2029}'
    ||| c == '\u{202f}'
    ||| c == '\u{205f}'
    ||| c == '\u{3000}'
}

fn white(c: char) -> (r: bool)
    ensures
        r == is_white(c),
{
    ('\u{9}' <= c && c <= '\u{d}') || c == ' ' || c == '\u{85}' || c == '\u{a0}' || c == '\u{1680}'
        || ('\u{2000}' <= c && c <= '\u{200a}') || c == '\u{2028}' || c == '\u{2029}' || c
        == '\u{202f}' || c == '\u{205f}' || c == '\u{3000}'
}

/// Text without the white space it begins with.
pub open spec fn trim_front(s: Seq<char>) -> Seq<char>
    decreases s.len(),
{
    if s.len() > 0 && is_white(s[0]) {
        trim_front(s.drop_first())
    } else {
        s
    }
}

/// Text without the white space it ends with.
pub open spec fn trim_back(s: Seq<char>) -> Seq<char>
    decreases s.len(),
{
    if s.len() > 0 && is_white(s.last()) {
        trim_back(s.drop_last())
    } else {
        s
    }
}

/// Removes white space at both ends.
pub fn trim_text(s: &str) -> (r: String)
    ensures
        r@ == trim_back(trim_front(s@)),
{
    let chars = characters(s);
    let n: usize = chars.len();
    let mut i: usize = 0;
    proof {
        assert(chars@.skip(0) =~= chars@);
    }
    while i < n && white(chars[i])
        invariant
            i <= n,
            n == chars.len(),
            trim_front(chars@) == trim_front(chars@.skip(i as int)),
        decreases n - i,
    {
        proof {
            assert(chars@.skip(i as int).drop_first() =~= chars@.skip(i + 1));
        }
        i = i + 1;
    }
    let ghost front = chars@.skip(i as int);
    let mut j: usize = n;
    proof {
        assert(chars@.subrange(i as int, n as int) =~= front);
    }
    while i < j && white(chars[j - 1])
        invariant
            i <= j <= n,
            n == chars.len(),
            trim_back(front) == trim_back(chars@.subrange(i as int, j as int)),
        decreases j,
    {
        proof {
            assert(chars@.subrange(i as int, j as int).drop_last() =~= chars@.subrange(
                i as int,
                j - 1,
            ));
        }
        j = j - 1;
    }
    let mut kept: Vec<char> = Vec::new();
    let mut k: usize = i;
    while k < j
        invariant
            i <= k <= j <= n,
            n == chars.len(),
            kept@ == chars@.subrange(i as int, k as int),
        decreases j - k,
    {
        kept.push(chars[k]);
        proof {
            assert(kept@ =~= chars@.subrange(i as int, k + 1));
        }
        k = k + 1;
    }
    text_of(&kept)
}

/// The character of one decimal digit.
pub open spec fn digit(d: int) -> char {
    ('0' as u32 + d) as char
}

/// Decimal digits of a natural number, without leading zeros.
pub open spec fn digits(n: nat) -> Seq<char>
    decreases n,
{
    if n < 10 {
        seq![digit(n as int)]
    } else {
        digits(n / 10).push(digit((n % 10) as int))
    }
}

/// Decimal rendering of an integer.
pub open spec fn decimal(n: int) -> Seq<char> {
    if n < 0 {
        seq!['-'] + digits((-n) as nat)
    } else {
        digits(n as nat)
    }
}

/// Renders an unsigned number in decimal.
pub fn decimal_unsigned(n: u64) -> (r: String)
    ensures
        r@ == decimal(n as int),
    decreases n,
{
    let d: u8 = (n % 10) as u8;
    let c: char = (48 + d) as char;
    let mut out = if n < 10 {
        String::new()
    } else {
        decimal_unsigned(n / 10)
    };
    out.push(c);
    proof {
        assert(out@ =~= digits(n as nat));
    }
    out
}

/// Renders a signed number in decimal.
pub fn decimal_signed(n: i64) -> (r: String)
    ensures
        r@ == decimal(n as int),
{
    if n < 0 {
        let magnitude: u64 = (-(n as i128)) as u64;
        let mut out = String::new();
        out.push('-');
        out.append(decimal_unsigned(magnitude).as_str());
        proof {
            assert(out@ =~= decimal(n as int));
        }
        out
    } else {
        decimal_unsigned(n as u64)
    }
}

/// The quoted and escaped form in which the standard library shows text for
/// debugging.
pub uninterp spec fn debug_form(text: Seq<char>) -> Seq<char>;

/// `format!` with `{:?}` on text: the result is the debugging form of `text`.
#[verifier::external_body]
pub(crate) fn debug_text(text: &str) -> (r: String)
    ensures
        r@ == debug_form(text@),
{
    format!("{:?}", text)
}

/// Concatenates three pieces of text.
pub fn join3(a: &str, b: &str, c: &str) -> (r: String)
    ensures
        r@ == a@ + b@ + c@,
{
    let mut out = a.to_owned();
    out.append(b);
    out.append(c);
    out
}

/// Concatenates two pieces of text.
pub fn join2(a: &str, b: &str) -> (r: String)
    ensures
        r@ == a@ + b@,
{
    let mut out = a.to_owned();
    out.append(b);
    out
}

} // verus!
