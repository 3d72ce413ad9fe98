//! What digests, identifiers and instants look like as text.
use crate::digest::{digest_fingerprint, hex_digit, hex_text, sha256, text_fingerprint};
use crate::identity::uuid_digit;
use crate::journal_account::codec::{
    decode_time, decode_version, encode_event_id, encode_id, encode_status, encode_time, parse_id,
};
use crate::journal_account::error::{EntityKind, RepositoryError};
use crate::letters::{lemma_digits, number_read, plainly_written};
use crate::primitives::Status;
use crate::text::digits;
use crate::time::Timestamp;
use vstd::arithmetic::div_mod::{lemma_div_denominator, lemma_fundamental_div_mod};
use vstd::arithmetic::power::{lemma_pow0, lemma_pow1, lemma_pow_adds, lemma_pow_positive, pow};
use vstd::prelude::*;
use vstd::string::*;
use vstd::utf8::encode_utf8;

verus! {

/// The hexadecimal digits.
pub open spec fn sixteen_digits() -> Seq<char> {
    seq!['0', '1', '2', '3', '4', '5', '6', '7', '8', '9', 'a', 'b', 'c', 'd', 'e', 'f']
}

proof fn lemma_hex_digit(d: int)
    requires
        0 <= d < 16,
    ensures
        hex_digit(d) == sixteen_digits()[d],
        sixteen_digits().index_of(hex_digit(d)) == d,
        sixteen_digits().contains(hex_digit(d)),
{
    let all = sixteen_digits();
    assert forall|j: int| 0 <= j < 16 implies #[trigger] all[j] == hex_digit(j) by {
        assert(j == 0 || j == 1 || j == 2 || j == 3 || j == 4 || j == 5 || j == 6 || j == 7 || j
            == 8 || j == 9 || j == 10 || j == 11 || j == 12 || j == 13 || j == 14 || j == 15);
    }
    assert forall|j: int, k: int| 0 <= j < k < 16 implies hex_digit(j) != hex_digit(k) by {}
    assert(all[d] == hex_digit(d));
    let k = all.index_of(hex_digit(d));
    assert(all[k] == hex_digit(k));
}

/// Bytes are written in order, each as the digit of its sixteens and the digit
/// of its ones.
pub proof fn law_bytes_are_written_in_hex(bytes: Vec<u8>, r: String, i: int)
    requires
        call_ensures(hex_text, (&bytes,), r),
        0 <= i < bytes@.len(),
    ensures
        r@.len() == 2 * bytes@.len(),
        r@[2 * i] == sixteen_digits()[bytes@[i] as int / 16],
        r@[2 * i + 1] == sixteen_digits()[bytes@[i] as int % 16],
{
    assert((2 * i) / 2 == i && (2 * i) % 2 == 0);
    assert((2 * i + 1) / 2 == i && (2 * i + 1) % 2 == 1);
    lemma_hex_digit(bytes@[i] as int / 16);
    lemma_hex_digit(bytes@[i] as int % 16);
}

/// A fingerprint is `sha256:` and the digest of the bytes of the text in
/// hexadecimal.
pub proof fn law_fingerprints_name_the_digest(
    text: &str,
    r: String,
    digest: Vec<u8>,
    written: String,
    named: String,
)
    requires
        call_ensures(text_fingerprint, (text,), r),
        digest@ == sha256(encode_utf8(text@)),
        call_ensures(hex_text, (&digest,), written),
        call_ensures(digest_fingerprint, (&digest,), named),
    ensures
        r@ == "sha256:"@ + written@,
        named@ == r@,
{
}

/// The number that hexadecimal digits stand for.
pub open spec fn hex_read(digits: Seq<char>) -> int
    decreases digits.len(),
{
    if digits.len() == 0 {
        0
    } else {
        16 * hex_read(digits.drop_last()) + sixteen_digits().index_of(digits.last())
    }
}

spec fn id_digits(id: u128, n: int) -> Seq<char> {
    Seq::new(n as nat, |k: int| uuid_digit(id, k))
}

proof fn lemma_square(n: nat, value: int)
    requires
        pow(16, n) == value,
    ensures
        pow(16, n + n) == value * value,
{
    lemma_pow_adds(16, n, n);
}

proof fn lemma_id_digits(id: u128, n: int)
    requires
        0 <= n <= 32,
    ensures
        hex_read(id_digits(id, n)) == id as int / pow(16, (32 - n) as nat),
    decreases n,
{
    let rest = pow(16, (32 - n) as nat);
    lemma_pow_positive(16, (32 - n) as nat);
    if n == 0 {
        lemma_pow1(16);
        lemma_square(1, 16);
        lemma_square(2, 256);
        lemma_square(4, 65536);
        lemma_square(8, 4294967296);
        lemma_square(16, 18446744073709551616);
        assert(id as int / pow(16, 32) == 0) by {
            vstd::arithmetic::div_mod::lemma_basic_div(id as int, pow(16, 32));
        }
    } else {
        let k = n - 1;
        lemma_id_digits(id, k);
        let more = pow(16, (32 - k) as nat);
        assert(more == rest * 16) by {
            lemma_pow_adds(16, (32 - n) as nat, 1);
            lemma_pow1(16);
        }
        let high = id as int / rest;
        assert(high / 16 == id as int / more) by {
            lemma_div_denominator(id as int, rest, 16);
        }
        lemma_fundamental_div_mod(high, 16);
        assert(id_digits(id, n).drop_last() =~= id_digits(id, k));
        assert(id_digits(id, n).last() == uuid_digit(id, k));
        assert(31 - k == 32 - n);
        lemma_hex_digit(high % 16);
    }
}

/// Whether `text` is five groups of digits with hyphens between them.
pub open spec fn five_groups(
    text: Seq<char>,
    a: Seq<char>,
    b: Seq<char>,
    c: Seq<char>,
    d: Seq<char>,
    e: Seq<char>,
) -> bool {
    &&& text == a + "-"@ + b + "-"@ + c + "-"@ + d + "-"@ + e
    &&& a.len() == 8 && b.len() == 4 && c.len() == 4 && d.len() == 4 && e.len() == 12
}

/// An identifier is written as 32 small hexadecimal digits that stand for its
/// number, in groups of 8, 4, 4, 4 and 12, and reads back as itself.
pub proof fn law_identifiers_are_written_and_read(
    id: u128,
    text: String,
    given: &str,
    entity_kind: EntityKind,
    r: Result<u128, RepositoryError>,
)
    requires
        call_ensures(encode_id, (id,), text),
        given@ == text@,
        call_ensures(parse_id, (given, entity_kind), r),
    ensures
        exists|a: Seq<char>, b: Seq<char>, c: Seq<char>, d: Seq<char>, e: Seq<char>|
            five_groups(text@, a, b, c, d, e) && hex_read(a + b + c + d + e) == id,
        r == Ok::<u128, RepositoryError>(id),
{
    let all = id_digits(id, 32);
    let a = all.subrange(0, 8);
    let b = all.subrange(8, 12);
    let c = all.subrange(12, 16);
    let d = all.subrange(16, 20);
    let e = all.subrange(20, 32);
    reveal_strlit("-");
    assert("-"@ =~= seq!['-']);
    assert(text@ =~= a + "-"@ + b + "-"@ + c + "-"@ + d + "-"@ + e);
    assert(a + b + c + d + e =~= all);
    lemma_id_digits(id, 32);
    lemma_pow0(16);
    assert(id as int / 1 == id);
    assert(five_groups(text@, a, b, c, d, e));
}

/// An instant of the years 0 to 9999 is read back as itself, cut down to whole
/// microseconds, whichever way it is written and read.
pub proof fn law_instants_are_written_and_read(
    at: Timestamp,
    seconds: i64,
    nanos: u32,
    text: String,
    encoded: String,
    given: &str,
    read: Result<Timestamp, String>,
    decoded: Result<Timestamp, RepositoryError>,
)
    requires
        call_ensures(Timestamp::seconds, (&at,), seconds),
        call_ensures(Timestamp::nanos, (&at,), nanos),
        -62_167_219_200 <= seconds <= 253_402_300_799,
        call_ensures(Timestamp::to_rfc3339, (&at,), text),
        call_ensures(encode_time, (at,), encoded),
        given@ == text@,
        call_ensures(Timestamp::from_rfc3339, (given,), read),
        call_ensures(decode_time, (given,), decoded),
    ensures
        encoded@ == text@,
        read matches Ok(back) && forall|s: i64, n: u32|
            call_ensures(Timestamp::seconds, (&back,), s) && call_ensures(
                Timestamp::nanos,
                (&back,),
                n,
            ) ==> s == seconds && n == nanos - nanos % 1000,
        decoded matches Ok(back) && forall|s: i64, n: u32|
            call_ensures(Timestamp::seconds, (&back,), s) && call_ensures(
                Timestamp::nanos,
                (&back,),
                n,
            ) ==> s == seconds && n == nanos - nanos % 1000,
{
}

/// An instant is made exactly of seconds and nanoseconds that have a date: in the
/// years -262143 to 262142, with less than a second of nanoseconds or, in the last
/// second of a minute, less than two.
pub proof fn law_instants_have_dates(seconds: i64, nanos: u32, r: Option<Timestamp>)
    requires
        call_ensures(Timestamp::new, (seconds, nanos), r),
    ensures
        r is Some <==> -8_334_601_228_800 <= seconds <= 8_210_266_876_799 && (nanos
            < 1_000_000_000 || nanos < 2_000_000_000 && seconds as int % 60 == 59),
        r matches Some(at) ==> forall|s: i64, n: u32|
            call_ensures(Timestamp::seconds, (&at,), s) && call_ensures(
                Timestamp::nanos,
                (&at,),
                n,
            ) ==> s == seconds && n == nanos,
{
}

/// Instants are the same exactly if their seconds and nanoseconds are.
pub proof fn law_same_instants(
    a: Timestamp,
    b: Timestamp,
    a_seconds: i64,
    a_nanos: u32,
    b_seconds: i64,
    b_nanos: u32,
    r: bool,
)
    requires
        call_ensures(Timestamp::seconds, (&a,), a_seconds),
        call_ensures(Timestamp::nanos, (&a,), a_nanos),
        call_ensures(Timestamp::seconds, (&b,), b_seconds),
        call_ensures(Timestamp::nanos, (&b,), b_nanos),
        call_ensures(Timestamp::same, (&a, &b), r),
    ensures
        r <==> a_seconds == b_seconds && a_nanos == b_nanos,
{
}

/// A status is written as `active` or `locked`.
pub proof fn law_statuses_are_written(status: Status, r: &'static str)
    requires
        call_ensures(encode_status, (status,), r),
    ensures
        match status {
            Status::Active => r@ == "active"@,
            Status::Locked => r@ == "locked"@,
        },
{
}

/// A version is read exactly from the numbers 0 to 2^32 - 1, as that number.
pub proof fn law_versions_are_read(
    value: i64,
    entity_kind: EntityKind,
    id: &str,
    r: Result<u32, RepositoryError>,
)
    requires
        call_ensures(decode_version, (value, entity_kind, id), r),
    ensures
        match r {
            Ok(version) => version == value,
            Err(RepositoryError::CorruptState { entity_kind: found, id: sought, .. }) => !(0
                <= value <= 4_294_967_295) && found == entity_kind && sought@ == id@,
            Err(_) => false,
        },
{
}

/// The identifier of an event is its kind, its entity and its number in decimal,
/// with colons between them.
pub proof fn law_events_are_named(
    entity_kind: EntityKind,
    id: &str,
    sequence: u32,
    r: String,
)
    requires
        call_ensures(encode_event_id, (entity_kind, id, sequence), r),
    ensures
        exists|written: Seq<char>|
            #![trigger number_read(written)]
            plainly_written(written) && number_read(written) == sequence && r@ == match entity_kind {
                EntityKind::Journal => "journal"@,
                EntityKind::Account => "account"@,
            } + ":"@ + id@ + ":"@ + written,
{
    lemma_digits(sequence as nat);
    let written = digits(sequence as nat);
    assert(number_read(written) == sequence);
}

} // verus!
