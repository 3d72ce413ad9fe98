//! Conversions between ledger values and values of the expression language.
//!
//! The ledger reads text and identifiers. A value of any other type is kept by
//! the name of its type, which is all that a refusal reports of it.
use crate::currency::{known, unit_named, Currency, ParseCurrencyError};
use crate::primitives::{
    AccountId, AccountSetId, DebitOrCredit, EntryId, JournalId, Layer, TransactionId, TxTemplateId,
};
use crate::text::{debug_form, debug_text, join3, same_text, upper_text};
use std::str::FromStr;
use vstd::prelude::*;
use vstd::string::*;

verus! {

/// A value of the expression language.
#[derive(Debug)]
pub enum CelValue {
    String(String),
    Uuid(u128),
    /// A value of another type, by the name of that type.
    Other(String),
}

/// The type of a value of the expression language.
#[derive(Debug)]
pub enum CelType {
    String,
    Uuid,
    Other(String),
}

/// The outcome of an evaluation, with the expression as it is shown in
/// messages.
#[derive(Debug)]
pub struct CelResult {
    pub expr: String,
    pub val: CelValue,
}

/// Why a value does not coerce to a ledger type.
#[derive(Debug)]
pub enum ResultCoercionError {
    /// Expression, type found, type wanted.
    BadExternalTypeCoercion(String, CelType, &'static str),
    /// Expression, value found, type wanted, reason.
    ExternalTypeCoercionError(String, String, &'static str, String),
}

/// The type of a value.
pub open spec fn type_of(value: CelValue) -> CelType {
    match value {
        CelValue::String(_) => CelType::String,
        CelValue::Uuid(_) => CelType::Uuid,
        CelValue::Other(name) => CelType::Other(name),
    }
}

impl From<&CelValue> for CelType {
    fn from(value: &CelValue) -> (r: CelType) {
        match value {
            CelValue::String(_) => CelType::String,
            CelValue::Uuid(_) => CelType::Uuid,
            CelValue::Other(name) => CelType::Other(name.clone()),
        }
    }
}

impl vstd::std_specs::convert::FromSpecImpl<&CelValue> for CelType {
    open spec fn obeys_from_spec() -> bool {
        true
    }

    open spec fn from_spec(value: &CelValue) -> CelType {
        type_of(*value)
    }
}

/// Whether `value` is text and holds exactly `text`.
pub open spec fn is_text(value: CelValue, text: Seq<char>) -> bool {
    value matches CelValue::String(held) && held@ == text
}

/// Whether `error` reports that the value of `result` is not of type `wanted`.
pub open spec fn refused_type(
    error: ResultCoercionError,
    result: CelResult,
    wanted: Seq<char>,
) -> bool {
    error matches ResultCoercionError::BadExternalTypeCoercion(expr, found, name) && expr@
        == result.expr@ && found == type_of(result.val) && name@ == wanted
}

/// The text of a side in expressions.
pub open spec fn side_text(side: DebitOrCredit) -> Seq<char> {
    match side {
        DebitOrCredit::Debit => "DEBIT"@,
        DebitOrCredit::Credit => "CREDIT"@,
    }
}

/// The text of a layer in expressions.
pub open spec fn layer_text(layer: Layer) -> Seq<char> {
    match layer {
        Layer::Settled => "SETTLED"@,
        Layer::Pending => "PENDING"@,
        Layer::Encumbrance => "ENCUMBRANCE"@,
    }
}

/// The text of a side stands for that side alone.
pub proof fn law_side_texts_differ(a: DebitOrCredit, b: DebitOrCredit)
    ensures
        side_text(a) == side_text(b) <==> a == b,
{
    reveal_strlit("DEBIT");
    reveal_strlit("CREDIT");
    assert("DEBIT"@.len() != "CREDIT"@.len());
}

/// The text of a layer stands for that layer alone.
pub proof fn law_layer_texts_differ(a: Layer, b: Layer)
    ensures
        layer_text(a) == layer_text(b) <==> a == b,
{
    reveal_strlit("SETTLED");
    reveal_strlit("PENDING");
    reveal_strlit("ENCUMBRANCE");
    assert("SETTLED"@[0] != "PENDING"@[0]);
    assert("SETTLED"@[0] != "ENCUMBRANCE"@[0]);
    assert("PENDING"@[0] != "ENCUMBRANCE"@[0]);
}

impl TryFrom<CelResult> for DebitOrCredit {
    type Error = ResultCoercionError;

    fn try_from(result: CelResult) -> (r: Result<DebitOrCredit, ResultCoercionError>)
        ensures
            match r {
                Ok(side) => is_text(result.val, side_text(side)),
                Err(error) => {
                    &&& !is_text(result.val, side_text(DebitOrCredit::Debit))
                    &&& !is_text(result.val, side_text(DebitOrCredit::Credit))
                    &&& refused_type(error, result, "DebitOrCredit"@)
                },
            },
    {
        if let CelValue::String(text) = &result.val {
            if same_text(text.as_str(), "DEBIT") {
                return Ok(DebitOrCredit::Debit);
            }
            if same_text(text.as_str(), "CREDIT") {
                return Ok(DebitOrCredit::Credit);
            }
        }
        let found = CelType::from(&result.val);
        Err(ResultCoercionError::BadExternalTypeCoercion(result.expr, found, "DebitOrCredit"))
    }
}

/// Whether a value is the text of no layer.
pub open spec fn names_no_layer(value: CelValue) -> bool {
    forall|layer: Layer| !is_text(value, #[trigger] layer_text(layer))
}

impl TryFrom<CelResult> for Layer {
    type Error = ResultCoercionError;

    fn try_from(result: CelResult) -> (r: Result<Layer, ResultCoercionError>)
        ensures
            match r {
                Ok(layer) => is_text(result.val, layer_text(layer)),
                Err(error) => {
                    &&& names_no_layer(result.val)
                    &&& refused_type(error, result, "Layer"@)
                },
            },
    {
        if let CelValue::String(text) = &result.val {
            if same_text(text.as_str(), "SETTLED") {
                return Ok(Layer::Settled);
            }
            if same_text(text.as_str(), "PENDING") {
                return Ok(Layer::Pending);
            }
            if same_text(text.as_str(), "ENCUMBRANCE") {
                return Ok(Layer::Encumbrance);
            }
        }
        let found = CelType::from(&result.val);
        Err(ResultCoercionError::BadExternalTypeCoercion(result.expr, found, "Layer"))
    }
}

/// The form in which a refused unit code is shown for debugging.
pub open spec fn shown_refusal(text: Seq<char>) -> Seq<char> {
    "InvalidUnitCode("@ + debug_form(text) + ")"@
}

impl TryFrom<CelResult> for Currency {
    type Error = ResultCoercionError;

    fn try_from(result: CelResult) -> (r: Result<Currency, ResultCoercionError>)
        ensures
            match result.val {
                CelValue::String(text) => match r {
                    Ok(unit) => {
                        &&& unit_named(text@) == Some(unit.code_text())
                        &&& unit.wf()
                        &&& known(upper_text(text@)) ==> unit.code_text() == upper_text(text@)
                    },
                    Err(ResultCoercionError::ExternalTypeCoercionError(expr, value, name, reason))
                        => {
                        &&& unit_named(text@) is None
                        &&& expr@ == result.expr@
                        &&& value@ == debug_form(text@)
                        &&& name@ == "Currency"@
                        &&& reason@ == shown_refusal(text@)
                    },
                    Err(_) => false,
                },
                _ => r matches Err(error) && refused_type(error, result, "Currency"@),
            },
    {
        if let CelValue::String(text) = &result.val {
            match Currency::from_str(text.as_str()) {
                Ok(unit) => Ok(unit),
                Err(ParseCurrencyError::InvalidUnitCode(code)) => {
                    let shown = debug_text(text.as_str());
                    let reason = join3("InvalidUnitCode(", debug_text(code.as_str()).as_str(), ")");
                    Err(
                        ResultCoercionError::ExternalTypeCoercionError(
                            result.expr,
                            shown,
                            "Currency",
                            reason,
                        ),
                    )
                },
            }
        } else {
            let found = CelType::from(&result.val);
            Err(ResultCoercionError::BadExternalTypeCoercion(result.expr, found, "Currency"))
        }
    }
}

impl vstd::std_specs::convert::TryFromSpecImpl<CelResult> for DebitOrCredit {
    open spec fn obeys_try_from_spec() -> bool {
        false
    }

    open spec fn try_from_spec(result: CelResult) -> Result<DebitOrCredit, ResultCoercionError> {
        arbitrary()
    }
}

impl vstd::std_specs::convert::TryFromSpecImpl<CelResult> for Layer {
    open spec fn obeys_try_from_spec() -> bool {
        false
    }

    open spec fn try_from_spec(result: CelResult) -> Result<Layer, ResultCoercionError> {
        arbitrary()
    }
}

impl vstd::std_specs::convert::TryFromSpecImpl<CelResult> for Currency {
    open spec fn obeys_try_from_spec() -> bool {
        false
    }

    open spec fn try_from_spec(result: CelResult) -> Result<Currency, ResultCoercionError> {
        arbitrary()
    }
}

impl From<DebitOrCredit> for CelValue {
    fn from(side: DebitOrCredit) -> (r: CelValue)
        ensures
            is_text(r, side_text(side)),
    {
        match side {
            DebitOrCredit::Debit => CelValue::String("DEBIT".to_owned()),
            DebitOrCredit::Credit => CelValue::String("CREDIT".to_owned()),
        }
    }
}

impl From<Layer> for CelValue {
    fn from(layer: Layer) -> (r: CelValue)
        ensures
            is_text(r, layer_text(layer)),
    {
        match layer {
            Layer::Settled => CelValue::String("SETTLED".to_owned()),
            Layer::Pending => CelValue::String("PENDING".to_owned()),
            Layer::Encumbrance => CelValue::String("ENCUMBRANCE".to_owned()),
        }
    }
}

impl From<Currency> for CelValue {
    fn from(unit: Currency) -> (r: CelValue)
        ensures
            is_text(r, unit.code_text()),
    {
        CelValue::String(unit.to_text())
    }
}

impl vstd::std_specs::convert::FromSpecImpl<DebitOrCredit> for CelValue {
    open spec fn obeys_from_spec() -> bool {
        false
    }

    open spec fn from_spec(side: DebitOrCredit) -> CelValue {
        arbitrary()
    }
}

impl vstd::std_specs::convert::FromSpecImpl<Layer> for CelValue {
    open spec fn obeys_from_spec() -> bool {
        false
    }

    open spec fn from_spec(layer: Layer) -> CelValue {
        arbitrary()
    }
}

impl vstd::std_specs::convert::FromSpecImpl<Currency> for CelValue {
    open spec fn obeys_from_spec() -> bool {
        false
    }

    open spec fn from_spec(unit: Currency) -> CelValue {
        arbitrary()
    }
}

impl From<AccountId> for CelValue {
    fn from(id: AccountId) -> (r: CelValue) {
        CelValue::Uuid(id.0)
    }
}

impl vstd::std_specs::convert::FromSpecImpl<AccountId> for CelValue {
    open spec fn obeys_from_spec() -> bool {
        true
    }

    open spec fn from_spec(id: AccountId) -> CelValue {
        CelValue::Uuid(id.0)
    }
}

impl From<AccountSetId> for CelValue {
    fn from(id: AccountSetId) -> (r: CelValue) {
        CelValue::Uuid(id.0)
    }
}

impl vstd::std_specs::convert::FromSpecImpl<AccountSetId> for CelValue {
    open spec fn obeys_from_spec() -> bool {
        true
    }

    open spec fn from_spec(id: AccountSetId) -> CelValue {
        CelValue::Uuid(id.0)
    }
}

impl From<JournalId> for CelValue {
    fn from(id: JournalId) -> (r: CelValue) {
        CelValue::Uuid(id.0)
    }
}

impl vstd::std_specs::convert::FromSpecImpl<JournalId> for CelValue {
    open spec fn obeys_from_spec() -> bool {
        true
    }

    open spec fn from_spec(id: JournalId) -> CelValue {
        CelValue::Uuid(id.0)
    }
}

impl From<TxTemplateId> for CelValue {
    fn from(id: TxTemplateId) -> (r: CelValue) {
        CelValue::Uuid(id.0)
    }
}

impl vstd::std_specs::convert::FromSpecImpl<TxTemplateId> for CelValue {
    open spec fn obeys_from_spec() -> bool {
        true
    }

    open spec fn from_spec(id: TxTemplateId) -> CelValue {
        CelValue::Uuid(id.0)
    }
}

impl From<TransactionId> for CelValue {
    fn from(id: TransactionId) -> (r: CelValue) {
        CelValue::Uuid(id.0)
    }
}

impl vstd::std_specs::convert::FromSpecImpl<TransactionId> for CelValue {
    open spec fn obeys_from_spec() -> bool {
        true
    }

    open spec fn from_spec(id: TransactionId) -> CelValue {
        CelValue::Uuid(id.0)
    }
}

impl From<EntryId> for CelValue {
    fn from(id: EntryId) -> (r: CelValue) {
        CelValue::Uuid(id.0)
    }
}

impl vstd::std_specs::convert::FromSpecImpl<EntryId> for CelValue {
    open spec fn obeys_from_spec() -> bool {
        true
    }

    open spec fn from_spec(id: EntryId) -> CelValue {
        CelValue::Uuid(id.0)
    }
}

} // verus!
