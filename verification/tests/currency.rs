use std::collections::hash_map::DefaultHasher;
use std::hash::{Hash, Hasher};
use std::str::FromStr;

use cala_ledger::currency::{
    Currency, CustomUnitCode, ParseCurrencyError, MAX_CUSTOM_UNIT_CODE_LEN,
};

fn assert_copy<T: Copy>() {}

fn hash_of(unit: &Currency) -> u64 {
    let mut hasher = DefaultHasher::new();
    unit.hash(&mut hasher);
    hasher.finish()
}

#[test]
fn currency_constants() {
    assert_eq!(Currency::usd(), "USD".parse().unwrap());
    assert_eq!(Currency::btc(), "BTC".parse().unwrap());
}

#[test]
fn custom_unit_round_trips_through_json() {
    let unit: Currency = "XAU_FINE_G".parse().unwrap();
    assert_eq!(unit.code(), "XAU_FINE_G");

    let encoded = serde_json::to_string(unit.code()).unwrap();
    assert_eq!(encoded, "\"XAU_FINE_G\"");
    let text: String = serde_json::from_str(&encoded).unwrap();
    let decoded: Currency = text.parse().unwrap();
    assert_eq!(decoded, unit);
}

#[test]
fn custom_unit_rejects_unbounded_or_ambiguous_codes() {
    assert!("".parse::<Currency>().is_err());
    assert!("a unit with spaces".parse::<Currency>().is_err());
    assert!("x".repeat(65).parse::<Currency>().is_err());
}

#[test]
fn custom_units_have_no_process_global_exhaustion_limit() {
    assert_copy::<Currency>();

    for index in 0..70_000_u32 {
        let code = format!("UNIT_{index}");
        let parsed: Currency = code.parse().expect("each inline unit must parse");
        assert_eq!(parsed.code(), code);
    }

    let persisted = "PERSISTED_AFTER_70000";
    let text: String = serde_json::from_str(&format!("\"{persisted}\"")).unwrap();
    let decoded: Currency = text
        .parse()
        .expect("persisted unit must remain decodable regardless of prior ingress");
    assert_eq!(decoded.code(), persisted);
}

#[test]
fn lower_case_known_codes_normalize_instead_of_creating_custom_aliases() {
    let lower_iso: Currency = "usd".parse().unwrap();
    let lower_crypto: Currency = "btc".parse().unwrap();
    let lower_custom: Currency = "widgets".parse().unwrap();
    let upper_custom: Currency = "WIDGETS".parse().unwrap();

    assert_eq!(lower_iso, Currency::usd());
    assert_eq!(lower_iso.code(), "USD");
    assert_eq!(lower_crypto, Currency::btc());
    assert_eq!(lower_crypto.code(), "BTC");
    assert_eq!(serde_json::to_string(lower_iso.code()).unwrap(), "\"USD\"");
    assert_eq!(lower_custom.code(), "widgets");
    assert_ne!(lower_custom, upper_custom);
}

#[test]
fn units_stand_under_their_registry() {
    assert!(matches!(Currency::usd(), Currency::Iso("USD")));
    assert!(matches!(Currency::btc(), Currency::Crypto("BTC")));
    assert!(matches!("eUr".parse::<Currency>().unwrap(), Currency::Iso("EUR")));
    assert!(matches!("eTh".parse::<Currency>().unwrap(), Currency::Crypto("ETH")));
    assert!(matches!("Gold".parse::<Currency>().unwrap(), Currency::Custom(_)));
}

#[test]
fn custom_codes_admit_exactly_their_characters() {
    for code in ["a", "Z", "0", "_", "-", ".", ":", "/", "a_B-c.9:x/y"] {
        assert_eq!(code.parse::<Currency>().unwrap().code(), code);
    }
    for code in [" ", "a b", "\t", "+", "$", "é", "a\u{0}", "货币"] {
        let refused = code.parse::<Currency>();
        assert!(matches!(refused, Err(ParseCurrencyError::InvalidUnitCode(text)) if text == code));
    }
}

#[test]
fn custom_codes_are_bounded_at_their_limit() {
    assert_eq!(MAX_CUSTOM_UNIT_CODE_LEN, 64);
    let longest = "y".repeat(64);
    assert_eq!(longest.parse::<Currency>().unwrap().code(), longest);
    assert!("y".repeat(65).parse::<Currency>().is_err());
    assert_eq!(CustomUnitCode::parse("Barrel").unwrap().as_str(), "Barrel");
    assert!(CustomUnitCode::parse("").is_err());
}

#[test]
fn code_names_its_unit_again() {
    for text in ["usd", "EUR", "btc", "widgets", "Widgets", "x/y"] {
        let unit: Currency = text.parse().unwrap();
        let again: Currency = unit.code().parse().unwrap();
        assert_eq!(again, unit);
        assert_eq!(again.code(), unit.code());
    }
}

#[test]
fn conversions_give_the_canonical_code() {
    let unit = Currency::try_from("jpy".to_owned()).unwrap();
    assert_eq!(unit.as_ref(), "JPY");
    assert_eq!(unit.to_text(), "JPY");
    assert_eq!(String::from(unit), "JPY");
    assert!(Currency::try_from(String::new()).is_err());
    assert_eq!(Currency::from_str("JPY").unwrap(), unit);
}

#[test]
fn equal_units_compare_and_hash_alike() {
    let a: Currency = "usd".parse().unwrap();
    let b: Currency = "USD".parse().unwrap();
    assert_eq!(a, b);
    assert_eq!(a.partial_cmp(&b), Some(std::cmp::Ordering::Equal));
    assert_eq!(hash_of(&a), hash_of(&b));
    assert_ne!(a, "widgets".parse().unwrap());
    let mut hasher = DefaultHasher::new();
    "USD".hash(&mut hasher);
    assert_eq!(hash_of(&a), hasher.finish());
    assert_ne!(hash_of(&a), hash_of(&"widgets".parse().unwrap()));
    assert_ne!(hash_of(&a), DefaultHasher::new().finish());
}

#[test]
fn custom_codes_are_equal_exactly_if_their_texts_are() {
    let texts = ["a", "A", "ab", "barrel/a", "barrel/b"];
    for (i, left) in texts.iter().enumerate() {
        let code = CustomUnitCode::parse(left).unwrap();
        for (j, right) in texts.iter().enumerate() {
            assert_eq!(code == CustomUnitCode::parse(right).unwrap(), i == j);
        }
        assert_eq!(CustomUnitCode::parse(code.as_str()).unwrap(), code);
    }
}

#[test]
fn units_are_ordered_by_their_codes() {
    let upper: Currency = "WIDGETS".parse().unwrap();
    let lower: Currency = "widgets".parse().unwrap();
    let longer: Currency = "widgets2".parse().unwrap();
    assert!(upper < lower);
    assert!(lower < longer);
    assert!(upper < longer);
    assert!(longer > upper);
    assert!(Currency::btc() < Currency::usd());
}
