//! What the engine is asked and what it answers, as plain values.
use crate::text::{decimal, decimal_unsigned};
use vstd::prelude::*;
use vstd::string::*;

verus! {

/// A failure that the engine reports.
#[derive(Debug)]
pub struct EngineError {
    /// The message of a violated constraint; absent for any other failure.
    pub constraint: Option<String>,
    /// The failure as it is shown in messages.
    pub text: String,
}

/// What an engine failure says.
pub struct EngineFailure {
    pub constraint: Option<Seq<char>>,
    pub text: Seq<char>,
}

impl View for EngineError {
    type V = EngineFailure;

    open spec fn view(&self) -> EngineFailure {
        EngineFailure {
            constraint: match self.constraint {
                Some(message) => Some(message@),
                None => None,
            },
            text: self.text@,
        }
    }
}

impl EngineError {
    /// A second copy of the failure.
    pub fn copied(&self) -> (r: EngineError)
        ensures
            r == *self,
    {
        let constraint = match &self.constraint {
            Some(message) => Some(message.clone()),
            None => None,
        };
        EngineError { constraint, text: self.text.clone() }
    }
}

/// One cell of a row: what reading it as an integer, as text and as text that
/// may be absent gives.
#[derive(Debug)]
pub struct Cell {
    pub integer: Result<i64, EngineError>,
    pub text: Result<String, EngineError>,
    pub optional_text: Result<Option<String>, EngineError>,
}

/// A row of an answer.
#[derive(Debug)]
pub struct Row {
    pub cells: Vec<Cell>,
}

/// The answer to a statement: the number of rows changed, the rows that came
/// out, and the failure that cut them off, if one did.
#[derive(Debug)]
pub struct Answer {
    pub changed: u64,
    pub rows: Vec<Row>,
    pub interrupted: Option<EngineError>,
}

/// The reply to a request: an answer or the failure of the request.
pub type Reply = Result<Answer, EngineError>;

/// Reading past the last column of a row fails like this.
pub open spec fn no_such_column(row: Row, i: int) -> EngineFailure {
    EngineFailure {
        constraint: None,
        text: "column index "@ + decimal(i) + " out of bounds (row has "@ + decimal(
            row.cells@.len() as int,
        ) + " columns)"@,
    }
}

/// What reading column `i` as an integer gives.
pub open spec fn integer_at(row: Row, i: int) -> Result<i64, EngineFailure> {
    if i < row.cells@.len() {
        match row.cells@[i].integer {
            Ok(value) => Ok(value),
            Err(error) => Err(error@),
        }
    } else {
        Err(no_such_column(row, i))
    }
}

/// What reading column `i` as text gives.
pub open spec fn text_at(row: Row, i: int) -> Result<Seq<char>, EngineFailure> {
    if i < row.cells@.len() {
        match row.cells@[i].text {
            Ok(value) => Ok(value@),
            Err(error) => Err(error@),
        }
    } else {
        Err(no_such_column(row, i))
    }
}

/// What reading column `i` as text that may be absent gives.
pub open spec fn optional_text_at(row: Row, i: int) -> Result<Option<Seq<char>>, EngineFailure> {
    if i < row.cells@.len() {
        match row.cells@[i].optional_text {
            Ok(Some(value)) => Ok(Some(value@)),
            Ok(None) => Ok(None),
            Err(error) => Err(error@),
        }
    } else {
        Err(no_such_column(row, i))
    }
}

impl Row {
    fn missing(&self, i: usize) -> (r: EngineError)
        ensures
            r@ == no_such_column(*self, i as int),
    {
        let mut text = "column index ".to_owned();
        text.append(decimal_unsigned(i as u64).as_str());
        text.append(" out of bounds (row has ");
        text.append(decimal_unsigned(self.cells.len() as u64).as_str());
        text.append(" columns)");
        EngineError { constraint: None, text }
    }

    /// Reads column `i` as an integer.
    pub fn integer(&self, i: usize) -> (r: Result<i64, EngineError>)
        ensures
            match r {
                Ok(value) => integer_at(*self, i as int) == Ok::<i64, EngineFailure>(value),
                Err(error) => integer_at(*self, i as int) == Err::<i64, EngineFailure>(error@),
            },
    {
        if i >= self.cells.len() {
            return Err(self.missing(i));
        }
        match &self.cells[i].integer {
            Ok(value) => Ok(*value),
            Err(error) => Err(error.copied()),
        }
    }

    /// Reads column `i` as text.
    pub fn text(&self, i: usize) -> (r: Result<String, EngineError>)
        ensures
            match r {
                Ok(value) => text_at(*self, i as int) == Ok::<Seq<char>, EngineFailure>(value@),
                Err(error) => text_at(*self, i as int) == Err::<Seq<char>, EngineFailure>(error@),
            },
    {
        if i >= self.cells.len() {
            return Err(self.missing(i));
        }
        match &self.cells[i].text {
            Ok(value) => Ok(value.clone()),
            Err(error) => Err(error.copied()),
        }
    }

    /// Reads column `i` as text that may be absent.
    pub fn optional_text(&self, i: usize) -> (r: Result<Option<String>, EngineError>)
        ensures
            match r {
                Ok(Some(value)) => optional_text_at(*self, i as int) == Ok::<
                    Option<Seq<char>>,
                    EngineFailure,
                >(Some(value@)),
                Ok(None) => optional_text_at(*self, i as int) == Ok::<
                    Option<Seq<char>>,
                    EngineFailure,
                >(None),
                Err(error) => optional_text_at(*self, i as int) == Err::<
                    Option<Seq<char>>,
                    EngineFailure,
                >(error@),
            },
    {
        if i >= self.cells.len() {
            return Err(self.missing(i));
        }
        match &self.cells[i].optional_text {
            Ok(Some(value)) => Ok(Some(value.clone())),
            Ok(None) => Ok(None),
            Err(error) => Err(error.copied()),
        }
    }
}

/// The first row of a reply, if it has one, or the failure met before any row.
pub open spec fn first_row_of(reply: Reply) -> Result<Option<Row>, EngineFailure> {
    match reply {
        Err(error) => Err(error@),
        Ok(answer) => if answer.rows@.len() > 0 {
            Ok(Some(answer.rows@[0]))
        } else {
            match answer.interrupted {
                Some(error) => Err(error@),
                None => Ok(None),
            }
        },
    }
}

/// Takes the first row of a reply.
pub fn first_row(reply: &Reply) -> (r: Result<Option<&Row>, EngineError>)
    ensures
        match r {
            Ok(Some(row)) => first_row_of(*reply) == Ok::<Option<Row>, EngineFailure>(Some(*row)),
            Ok(None) => first_row_of(*reply) == Ok::<Option<Row>, EngineFailure>(None),
            Err(error) => first_row_of(*reply) == Err::<Option<Row>, EngineFailure>(error@),
        },
{
    match reply {
        Err(error) => Err(error.copied()),
        Ok(answer) => {
            if answer.rows.len() > 0 {
                Ok(Some(&answer.rows[0]))
            } else {
                match &answer.interrupted {
                    Some(error) => Err(error.copied()),
                    None => Ok(None),
                }
            }
        },
    }
}

/// A parameter of a statement.
#[derive(Debug)]
pub enum SqlValue {
    Integer(i64),
    Text(String),
}

/// What a parameter holds.
pub enum Param {
    Integer(i64),
    Text(Seq<char>),
}

impl View for SqlValue {
    type V = Param;

    open spec fn view(&self) -> Param {
        match self {
            SqlValue::Integer(value) => Param::Integer(*value),
            SqlValue::Text(value) => Param::Text(value@),
        }
    }
}

/// What a list of parameters holds.
pub open spec fn params_of(params: Seq<SqlValue>) -> Seq<Param> {
    Seq::new(params.len(), |i: int| params[i]@)
}

/// How many rows of an answer are fetched.
#[derive(Debug, Clone, Copy, PartialEq, Eq, Structural)]
pub enum RowsWanted {
    First,
    All,
}

/// One request to an open connection.
#[derive(Debug)]
pub enum Statement {
    /// Runs several statements without parameters.
    Batch { script: String },
    /// Runs a statement that changes rows.
    Execute { sql: &'static str, params: Vec<SqlValue> },
    /// Runs a statement that gives rows.
    Query { sql: &'static str, params: Vec<SqlValue>, rows: RowsWanted },
    /// Sets a setting of the connection.
    PragmaUpdate { name: &'static str, value: &'static str },
    /// Bounds how long the connection waits for a lock.
    BusyTimeout { millis: u64 },
}

/// What a statement says.
pub enum Asked {
    Batch(Seq<char>),
    Execute(Seq<char>, Seq<Param>),
    Query(Seq<char>, Seq<Param>, RowsWanted),
    PragmaUpdate(Seq<char>, Seq<char>),
    BusyTimeout(u64),
}

impl View for Statement {
    type V = Asked;

    open spec fn view(&self) -> Asked {
        match self {
            Statement::Batch { script } => Asked::Batch(script@),
            Statement::Execute { sql, params } => Asked::Execute(sql@, params_of(params@)),
            Statement::Query { sql, params, rows } => Asked::Query(
                sql@,
                params_of(params@),
                *rows,
            ),
            Statement::PragmaUpdate { name, value } => Asked::PragmaUpdate(name@, value@),
            Statement::BusyTimeout { millis } => Asked::BusyTimeout(*millis),
        }
    }
}

/// A parameter that holds a number.
pub fn int_param(value: i64) -> (r: SqlValue)
    ensures
        r@ == Param::Integer(value),
{
    SqlValue::Integer(value)
}

/// A parameter that holds text.
pub fn text_param(value: &str) -> (r: SqlValue)
    ensures
        r@ == Param::Text(value@),
{
    SqlValue::Text(value.to_owned())
}

/// A statement that changes rows.
pub fn execute(sql: &'static str, params: Vec<SqlValue>) -> (r: Statement)
    ensures
        r@ == Asked::Execute(sql@, params_of(params@)),
{
    Statement::Execute { sql, params }
}

/// A query of which the first row is read.
pub fn query_first(sql: &'static str, params: Vec<SqlValue>) -> (r: Statement)
    ensures
        r@ == Asked::Query(sql@, params_of(params@), RowsWanted::First),
{
    Statement::Query { sql, params, rows: RowsWanted::First }
}

/// A query of which every row is read.
pub fn query_all(sql: &'static str, params: Vec<SqlValue>) -> (r: Statement)
    ensures
        r@ == Asked::Query(sql@, params_of(params@), RowsWanted::All),
{
    Statement::Query { sql, params, rows: RowsWanted::All }
}

/// How a transaction takes its locks.
#[derive(Debug, Clone, Copy, PartialEq, Eq, Structural)]
pub enum TransactionBehavior {
    Deferred,
    Immediate,
}

/// Authority is acquired before the state that a mutation validates is read.
pub fn authority_transaction_behavior() -> (r: TransactionBehavior)
    ensures
        r == TransactionBehavior::Immediate,
{
    TransactionBehavior::Immediate
}

} // verus!
