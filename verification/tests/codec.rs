use cala_ledger::digest::{digest_fingerprint, hex_text, text_fingerprint};
use cala_ledger::journal_account::codec::{
    decode_time, decode_version, encode_event_id, encode_id, encode_status, encode_time, parse_id,
};
use cala_ledger::journal_account::error::{EntityKind, RepositoryError};
use cala_ledger::primitives::Status;
use cala_ledger::text::{
    ascii_lowercase, ascii_uppercase, compare_text, contains_text, decimal_signed,
    decimal_unsigned, same_text, same_text_ignoring_case, trim_text, TextOrder,
};
use cala_ledger::time::Timestamp;

// 2026-08-23T10:00:01Z
const SECONDS: i64 = 1_787_479_201;

#[test]
fn times_are_written_with_whole_microseconds() {
    let precise = Timestamp::new(SECONDS, 123_456_789).unwrap();
    let text = encode_time(precise);
    assert_eq!(text, "2026-08-23T10:00:01.123456Z");
    let read = decode_time(&text).unwrap();
    assert_eq!(read.seconds(), SECONDS);
    assert_eq!(read.nanos(), 123_456_000);
    assert!(read.same(&Timestamp::new(SECONDS, 123_456_000).unwrap()));
    assert!(!read.same(&precise));
}

#[test]
fn times_before_1970_and_at_the_edges_read_back() {
    for (seconds, nanos) in [
        (0, 0),
        (-1, 999_999_999),
        (-62_167_219_200, 1_000),
        (253_402_300_799, 999_999_000),
    ] {
        let t = Timestamp::new(seconds, nanos).unwrap();
        let read = decode_time(&encode_time(t)).unwrap();
        assert_eq!(read.seconds(), seconds);
        assert_eq!(read.nanos(), nanos - nanos % 1000);
    }
    assert_eq!(encode_time(Timestamp::new(0, 0).unwrap()), "1970-01-01T00:00:00.000000Z");
}

#[test]
fn leap_seconds_read_back() {
    // 2016-12-31T23:59:60.5Z
    let leap = Timestamp::new(1_483_228_799, 1_500_000_000).unwrap();
    let text = encode_time(leap);
    assert_eq!(text, "2016-12-31T23:59:60.500000Z");
    assert!(decode_time(&text).unwrap().same(&leap));
}

#[test]
fn times_without_a_calendar_date_are_no_timestamps() {
    assert!(Timestamp::new(0, 2_000_000_000).is_none());
    assert!(Timestamp::new(0, 1_000_000_000).is_none());
    assert!(Timestamp::new(59, 1_000_000_000).is_some());
    assert!(Timestamp::new(-1, 1_000_000_000).is_some());
    assert!(Timestamp::new(8_210_266_876_799, 0).is_some());
    assert!(Timestamp::new(8_210_266_876_800, 0).is_none());
    assert!(Timestamp::new(-8_334_601_228_800, 0).is_some());
    assert!(Timestamp::new(-8_334_601_228_801, 0).is_none());
}

#[test]
fn times_with_an_offset_are_read_in_utc() {
    let t = decode_time("2026-08-23T12:00:01+02:00").unwrap();
    assert_eq!(t.seconds(), SECONDS);
    assert_eq!(t.nanos(), 0);
}

#[test]
fn broken_times_say_what_was_read() {
    match decode_time("yester\"day") {
        Err(RepositoryError::Codec(reason)) => {
            assert!(reason.starts_with("invalid UTC timestamp \"yester\\\"day\": "));
            assert!(reason.len() > "invalid UTC timestamp \"yester\\\"day\": ".len());
        }
        other => panic!("unexpected outcome: {other:?}"),
    }
    // The year 10000 is written with a sign, which RFC 3339 does not read.
    let far = Timestamp::new(253_402_300_800, 0).unwrap();
    assert!(matches!(decode_time(&encode_time(far)), Err(RepositoryError::Codec(_))));
}

#[test]
fn statuses_are_written_in_lower_case() {
    assert_eq!(encode_status(Status::Active), "active");
    assert_eq!(encode_status(Status::Locked), "locked");
}

#[test]
fn versions_are_read_within_their_range() {
    assert_eq!(decode_version(0, EntityKind::Journal, "j").unwrap(), 0);
    assert_eq!(decode_version(4_294_967_295, EntityKind::Journal, "j").unwrap(), u32::MAX);
    for value in [-1, 4_294_967_296, i64::MIN, i64::MAX] {
        match decode_version(value, EntityKind::Account, "a") {
            Err(RepositoryError::CorruptState { entity_kind, id, reason }) => {
                assert_eq!(entity_kind, EntityKind::Account);
                assert_eq!(id, "a");
                assert_eq!(reason, format!("invalid projection version {value}"));
            }
            other => panic!("unexpected outcome: {other:?}"),
        }
    }
}

#[test]
fn identifiers_are_written_as_hyphenated_uuids() {
    let id = 0x0123_4567_89ab_cdef_0011_2233_4455_6677_u128;
    let text = encode_id(id);
    assert_eq!(text, "01234567-89ab-cdef-0011-223344556677");
    assert_eq!(parse_id(&text, EntityKind::Journal).unwrap(), id);
    assert_eq!(encode_id(0), "00000000-0000-0000-0000-000000000000");
    assert_eq!(encode_id(u128::MAX), "ffffffff-ffff-ffff-ffff-ffffffffffff");
    assert_eq!(parse_id(&encode_id(u128::MAX), EntityKind::Account).unwrap(), u128::MAX);
}

#[test]
fn broken_identifiers_say_what_was_read() {
    match parse_id("nope", EntityKind::Account) {
        Err(RepositoryError::Codec(reason)) => {
            assert!(reason.starts_with("invalid account id \"nope\": "));
        }
        other => panic!("unexpected outcome: {other:?}"),
    }
    assert!(matches!(
        parse_id("", EntityKind::Journal),
        Err(RepositoryError::Codec(reason)) if reason.starts_with("invalid journal id \"\": ")
    ));
}

#[test]
fn event_identifiers_name_kind_entity_and_place() {
    assert_eq!(encode_event_id(EntityKind::Journal, "abc", 1), "journal:abc:1");
    assert_eq!(encode_event_id(EntityKind::Account, "abc", 4_294_967_295), "account:abc:4294967295");
    assert_ne!(
        encode_event_id(EntityKind::Account, "abc", 1),
        encode_event_id(EntityKind::Account, "abc", 11)
    );
}

#[test]
fn fingerprints_are_sha256_in_hexadecimal() {
    assert_eq!(
        text_fingerprint(""),
        "sha256:e3b0c44298fc1c149afbf4c8996fb92427ae41e4649b934ca495991b7852b855"
    );
    assert_eq!(
        text_fingerprint("abc"),
        "sha256:ba7816bf8f01cfea414140de5dae2223b00361a396177a9cb410ff61f20015ad"
    );
    assert_eq!(hex_text(&vec![0, 10, 255]), "000aff");
    assert_eq!(digest_fingerprint(&vec![0x12]), "sha256:12");
}

#[test]
fn text_is_compared_by_bytes() {
    assert_eq!(compare_text("", ""), TextOrder::Equal);
    assert_eq!(compare_text("", "a"), TextOrder::Less);
    assert_eq!(compare_text("b", "a"), TextOrder::Greater);
    assert_eq!(compare_text("Z", "a"), TextOrder::Less);
    assert_eq!(compare_text("ab", "abc"), TextOrder::Less);
    assert_eq!(compare_text("é", "z"), TextOrder::Greater);
    assert!(same_text("é", "é"));
    assert!(!same_text("é", "e"));
    assert!(same_text_ignoring_case("WaL", "wal"));
    assert!(!same_text_ignoring_case("wall", "wal"));
}

#[test]
fn ascii_case_leaves_other_characters_alone() {
    assert_eq!(ascii_uppercase("usd é1"), "USD é1");
    assert_eq!(ascii_lowercase("USD É1"), "usd É1");
}

#[test]
fn parts_of_text_are_found() {
    assert!(contains_text("unique constraint", "unique"));
    assert!(contains_text("a constraint", "constraint"));
    assert!(contains_text("abc", ""));
    assert!(contains_text("", ""));
    assert!(!contains_text("", "a"));
    assert!(!contains_text("ab", "abc"));
    assert!(contains_text("aab", "ab"));
    assert!(!contains_text("acb", "ab"));
}

#[test]
fn text_is_trimmed_at_both_ends() {
    assert_eq!(trim_text("  a b \t\n"), "a b");
    assert_eq!(trim_text("\u{2003}x\u{a0}"), "x");
    assert_eq!(trim_text(" \r\n "), "");
    assert_eq!(trim_text("x"), "x");
}

#[test]
fn numbers_are_written_in_decimal() {
    assert_eq!(decimal_unsigned(0), "0");
    assert_eq!(decimal_unsigned(u64::MAX), "18446744073709551615");
    assert_eq!(decimal_signed(-1), "-1");
    assert_eq!(decimal_signed(i64::MIN), "-9223372036854775808");
    assert_eq!(decimal_signed(i64::MAX), "9223372036854775807");
}

#[test]
fn timestamps_are_the_dates_of_the_calendar() {
    for seconds in [8_210_266_876_799, 8_210_266_876_800, -8_334_601_228_800, -8_334_601_228_801] {
        for nanos in [0, 999_999_999, 1_000_000_000, 1_999_999_999, 2_000_000_000] {
            let known = chrono::DateTime::<chrono::Utc>::from_timestamp(seconds, nanos).is_some();
            assert_eq!(Timestamp::new(seconds, nanos).is_some(), known);
        }
    }
    for seconds in -200..200 {
        let known = chrono::DateTime::<chrono::Utc>::from_timestamp(seconds, 1_500_000_000);
        assert_eq!(Timestamp::new(seconds, 1_500_000_000).is_some(), known.is_some());
    }
    let last = Timestamp::new(8_210_266_876_799, 999_999_999).unwrap();
    assert_eq!(encode_time(last), "+262142-12-31T23:59:59.999999Z");
    let first = Timestamp::new(-8_334_601_228_800, 0).unwrap();
    assert_eq!(encode_time(first), "-262143-01-01T00:00:00.000000Z");
}

#[test]
fn white_space_is_that_of_unicode() {
    for point in 0..0x11_0000_u32 {
        if let Some(c) = char::from_u32(point) {
            let text = c.to_string();
            if c.is_whitespace() || point % 257 == 0 || point < 0x300 {
                assert_eq!(trim_text(&text), text.trim());
            }
        }
    }
}
