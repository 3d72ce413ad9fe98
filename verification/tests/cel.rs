use cala_ledger::cel::{CelResult, CelType, CelValue, ResultCoercionError};
use cala_ledger::currency::Currency;
use cala_ledger::primitives::{
    AccountId, AccountSetId, DebitOrCredit, EntryId, JournalId, Layer, ParseCurrencyError,
    ParseLayerError, Status, TransactionId, TxTemplateId,
};

fn result(val: CelValue) -> CelResult {
    CelResult { expr: "params.x".to_owned(), val }
}

fn text(value: &str) -> CelResult {
    result(CelValue::String(value.to_owned()))
}

#[test]
fn sides_coerce_from_their_exact_text() {
    assert_eq!(DebitOrCredit::try_from(text("DEBIT")).unwrap(), DebitOrCredit::Debit);
    assert_eq!(DebitOrCredit::try_from(text("CREDIT")).unwrap(), DebitOrCredit::Credit);
    assert!(matches!(
        DebitOrCredit::try_from(text("debit")),
        Err(ResultCoercionError::BadExternalTypeCoercion(expr, CelType::String, "DebitOrCredit"))
            if expr == "params.x"
    ));
    assert!(matches!(
        DebitOrCredit::try_from(result(CelValue::Uuid(7))),
        Err(ResultCoercionError::BadExternalTypeCoercion(_, CelType::Uuid, "DebitOrCredit"))
    ));
}

#[test]
fn layers_coerce_from_their_exact_text() {
    assert_eq!(Layer::try_from(text("SETTLED")).unwrap(), Layer::Settled);
    assert_eq!(Layer::try_from(text("PENDING")).unwrap(), Layer::Pending);
    assert_eq!(Layer::try_from(text("ENCUMBRANCE")).unwrap(), Layer::Encumbrance);
    assert!(matches!(
        Layer::try_from(text("Settled")),
        Err(ResultCoercionError::BadExternalTypeCoercion(_, CelType::String, "Layer"))
    ));
    assert!(matches!(
        Layer::try_from(result(CelValue::Other("Int".to_owned()))),
        Err(ResultCoercionError::BadExternalTypeCoercion(_, CelType::Other(name), "Layer"))
            if name == "Int"
    ));
}

#[test]
fn units_coerce_from_any_spelling() {
    assert_eq!(Currency::try_from(text("usd")).unwrap(), Currency::usd());
    assert_eq!(Currency::try_from(text("Widgets")).unwrap().code(), "Widgets");
}

#[test]
fn refused_units_say_why() {
    match Currency::try_from(text("two words")) {
        Err(ResultCoercionError::ExternalTypeCoercionError(expr, value, name, reason)) => {
            assert_eq!(expr, "params.x");
            assert_eq!(value, "\"two words\"");
            assert_eq!(name, "Currency");
            assert_eq!(reason, "InvalidUnitCode(\"two words\")");
        }
        other => panic!("unexpected outcome: {other:?}"),
    }
    assert!(matches!(
        Currency::try_from(result(CelValue::Uuid(1))),
        Err(ResultCoercionError::BadExternalTypeCoercion(_, CelType::Uuid, "Currency"))
    ));
}

#[test]
fn values_come_back_from_expressions() {
    for side in [DebitOrCredit::Debit, DebitOrCredit::Credit] {
        assert_eq!(DebitOrCredit::try_from(result(CelValue::from(side))).unwrap(), side);
    }
    for layer in [Layer::Settled, Layer::Pending, Layer::Encumbrance] {
        assert_eq!(Layer::try_from(result(CelValue::from(layer))).unwrap(), layer);
    }
    for unit in [Currency::usd(), Currency::btc(), "widgets".parse().unwrap()] {
        assert_eq!(Currency::try_from(result(CelValue::from(unit))).unwrap(), unit);
    }
}

#[test]
fn identifiers_become_uuids() {
    assert!(matches!(CelValue::from(AccountId(1)), CelValue::Uuid(1)));
    assert!(matches!(CelValue::from(AccountSetId(2)), CelValue::Uuid(2)));
    assert!(matches!(CelValue::from(JournalId(3)), CelValue::Uuid(3)));
    assert!(matches!(CelValue::from(TxTemplateId(4)), CelValue::Uuid(4)));
    assert!(matches!(CelValue::from(TransactionId(5)), CelValue::Uuid(5)));
    assert!(matches!(CelValue::from(EntryId(6)), CelValue::Uuid(6)));
}

#[test]
fn account_sets_are_backed_by_the_account_of_the_same_identity() {
    assert_eq!(AccountId::from(AccountSetId(42)), AccountId(42));
    assert_eq!(AccountId::from(&AccountSetId(43)), AccountId(43));
}

#[test]
fn defaults_are_credit_active_and_settled() {
    assert_eq!(DebitOrCredit::default(), DebitOrCredit::Credit);
    assert_eq!(Status::default(), Status::Active);
    assert_eq!(Layer::default(), Layer::Settled);
}

#[test]
fn parse_failures_have_their_messages() {
    assert_eq!(
        ParseCurrencyError::InvalidUnitCode("two words".to_owned()).message(),
        "CalaCoreTypeError - InvalidUnitCode: two words"
    );
    assert_eq!(
        ParseLayerError::UnknownLayer("LAYER".to_owned()).message(),
        "CalaCoreTypeError - UnknownLayer: \"LAYER\""
    );
}
