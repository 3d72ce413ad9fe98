//! What the ledger's values become in expressions and back.
use crate::cel::{layer_text, CelResult, CelType, CelValue, ResultCoercionError};
use crate::currency::Currency;
use crate::letters::{
    lemma_spelling, lemma_unit_code, lemma_uppercase_is_spelled, may_be_defined, spells,
    without_small_letters,
};
use crate::primitives::{
    AccountId, AccountSetId, DebitOrCredit, EntryId, JournalId, Layer, Status, TransactionId,
    TxTemplateId,
};
use crate::registry::{crypto_listed, iso_listed};
use crate::text::debug_form;
use vstd::prelude::*;
use vstd::string::*;

verus! {

/// Whether `value` is this text.
pub open spec fn is_literally(value: CelValue, text: Seq<char>) -> bool {
    value matches CelValue::String(held) && held@ == text
}

/// Whether `error` says that the value of an expression is of the wrong type.
pub open spec fn says_wrong_type(
    error: ResultCoercionError,
    result: CelResult,
    wanted: Seq<char>,
) -> bool {
    &&& error matches ResultCoercionError::BadExternalTypeCoercion(expr, found, name)
    &&& expr@ == result.expr@
    &&& name@ == wanted
    &&& match result.val {
        CelValue::String(_) => found is String,
        CelValue::Uuid(_) => found is Uuid,
        CelValue::Other(held) => found == CelType::Other(held),
    }
}

/// A side is `DEBIT` or `CREDIT` in expressions. Exactly these texts are read as
/// sides, each as the side it is written for, and everything else is refused by
/// its type.
pub proof fn law_sides_in_expressions(
    side: DebitOrCredit,
    value: CelValue,
    result: CelResult,
    r: Result<DebitOrCredit, ResultCoercionError>,
)
    requires
        call_ensures(<CelValue as From<DebitOrCredit>>::from, (side,), value),
        call_ensures(<DebitOrCredit as TryFrom<CelResult>>::try_from, (result,), r),
    ensures
        is_literally(
            value,
            match side {
                DebitOrCredit::Debit => "DEBIT"@,
                DebitOrCredit::Credit => "CREDIT"@,
            },
        ),
        match r {
            Ok(DebitOrCredit::Debit) => is_literally(result.val, "DEBIT"@),
            Ok(DebitOrCredit::Credit) => is_literally(result.val, "CREDIT"@),
            Err(error) => !is_literally(result.val, "DEBIT"@) && !is_literally(
                result.val,
                "CREDIT"@,
            ) && says_wrong_type(error, result, "DebitOrCredit"@),
        },
        result.val == value ==> r == Ok::<DebitOrCredit, ResultCoercionError>(side),
{
    reveal_strlit("DEBIT");
    reveal_strlit("CREDIT");
    assert("DEBIT"@.len() != "CREDIT"@.len());
}

/// A layer is `SETTLED`, `PENDING` or `ENCUMBRANCE` in expressions. Exactly these
/// texts are read as layers, each as the layer it is written for, and everything
/// else is refused by its type.
pub proof fn law_layers_in_expressions(
    layer: Layer,
    value: CelValue,
    result: CelResult,
    r: Result<Layer, ResultCoercionError>,
)
    requires
        call_ensures(<CelValue as From<Layer>>::from, (layer,), value),
        call_ensures(<Layer as TryFrom<CelResult>>::try_from, (result,), r),
    ensures
        is_literally(
            value,
            match layer {
                Layer::Settled => "SETTLED"@,
                Layer::Pending => "PENDING"@,
                Layer::Encumbrance => "ENCUMBRANCE"@,
            },
        ),
        match r {
            Ok(Layer::Settled) => is_literally(result.val, "SETTLED"@),
            Ok(Layer::Pending) => is_literally(result.val, "PENDING"@),
            Ok(Layer::Encumbrance) => is_literally(result.val, "ENCUMBRANCE"@),
            Err(error) => !is_literally(result.val, "SETTLED"@) && !is_literally(
                result.val,
                "PENDING"@,
            ) && !is_literally(result.val, "ENCUMBRANCE"@) && says_wrong_type(
                error,
                result,
                "Layer"@,
            ),
        },
        result.val == value ==> r == Ok::<Layer, ResultCoercionError>(layer),
{
    reveal_strlit("SETTLED");
    reveal_strlit("PENDING");
    reveal_strlit("ENCUMBRANCE");
    assert("SETTLED"@[0] != "PENDING"@[0]);
    assert("SETTLED"@[0] != "ENCUMBRANCE"@[0]);
    assert("PENDING"@[0] != "ENCUMBRANCE"@[0]);
    assert(layer_text(Layer::Settled) == "SETTLED"@);
    assert(layer_text(Layer::Pending) == "PENDING"@);
    assert(layer_text(Layer::Encumbrance) == "ENCUMBRANCE"@);
}

/// A unit is its code in expressions. Every spelling of a listed code is read as
/// the listed unit, other text as the caller-defined unit with exactly that code
/// if it may be one, and everything else is refused.
pub proof fn law_units_in_expressions(
    unit: Currency,
    code: &str,
    value: CelValue,
    result: CelResult,
    r: Result<Currency, ResultCoercionError>,
    listed: Seq<char>,
)
    requires
        call_ensures(Currency::code, (&unit,), code),
        call_ensures(<CelValue as From<Currency>>::from, (unit,), value),
        call_ensures(<Currency as TryFrom<CelResult>>::try_from, (result,), r),
    ensures
        is_literally(value, code@),
        match result.val {
            CelValue::String(text) => {
                &&& (iso_listed(listed) || crypto_listed(listed)) && without_small_letters(listed)
                    && spells(text@, listed) ==> match r {
                    Ok(Currency::Iso(found)) => iso_listed(listed) && found@ == listed,
                    Ok(Currency::Crypto(found)) => !iso_listed(listed) && found@ == listed,
                    _ => false,
                }
                &&& (forall|other: Seq<char>| #[trigger]
                    spells(text@, other) ==> !iso_listed(other) && !crypto_listed(other)) ==> match r {
                    Ok(Currency::Custom(found)) => may_be_defined(text@) && found@ == text@,
                    Ok(_) => false,
                    Err(ResultCoercionError::ExternalTypeCoercionError(expr, shown, name, reason))
                        => {
                        &&& !may_be_defined(text@)
                        &&& expr@ == result.expr@
                        &&& shown@ == debug_form(text@)
                        &&& name@ == "Currency"@
                        &&& reason@ == "InvalidUnitCode("@ + debug_form(text@) + ")"@
                    },
                    Err(_) => false,
                }
            },
            _ => r matches Err(error) && says_wrong_type(error, result, "Currency"@),
        },
{
    if let CelValue::String(text) = result.val {
        if (iso_listed(listed) || crypto_listed(listed)) && without_small_letters(listed) && spells(
            text@,
            listed,
        ) {
            lemma_spelling(text@, listed);
        }
        lemma_unit_code(text@);
        lemma_uppercase_is_spelled(text@);
        assert(spells(text@, text@));
    }
}

/// Identifiers are UUIDs in expressions, with the same number.
pub proof fn law_identifiers_in_expressions(
    n: u128,
    a: CelValue,
    b: CelValue,
    c: CelValue,
    d: CelValue,
    e: CelValue,
    f: CelValue,
)
    requires
        call_ensures(<CelValue as From<AccountId>>::from, (AccountId(n),), a),
        call_ensures(<CelValue as From<AccountSetId>>::from, (AccountSetId(n),), b),
        call_ensures(<CelValue as From<JournalId>>::from, (JournalId(n),), c),
        call_ensures(<CelValue as From<TxTemplateId>>::from, (TxTemplateId(n),), d),
        call_ensures(<CelValue as From<TransactionId>>::from, (TransactionId(n),), e),
        call_ensures(<CelValue as From<EntryId>>::from, (EntryId(n),), f),
    ensures
        a == CelValue::Uuid(n),
        b == CelValue::Uuid(n),
        c == CelValue::Uuid(n),
        d == CelValue::Uuid(n),
        e == CelValue::Uuid(n),
        f == CelValue::Uuid(n),
{
}

/// An account set is backed by the account with the same number.
pub proof fn law_sets_are_backed_by_their_account(set: AccountSetId, a: AccountId, b: AccountId)
    requires
        call_ensures(<AccountId as From<AccountSetId>>::from, (set,), a),
        call_ensures(<AccountId as From<&AccountSetId>>::from, (&set,), b),
    ensures
        a.0 == set.0,
        b.0 == set.0,
{
}

/// Left to itself a side is credit, a status active and a layer settled.
pub proof fn law_defaults(side: DebitOrCredit, status: Status, layer: Layer)
    requires
        call_ensures(<DebitOrCredit as Default>::default, (), side),
        call_ensures(<Status as Default>::default, (), status),
        call_ensures(<Layer as Default>::default, (), layer),
    ensures
        side == DebitOrCredit::Credit,
        status == Status::Active,
        layer == Layer::Settled,
{
}

} // verus!
