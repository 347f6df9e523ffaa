//! The SQL statements that find and claim pending work.
use sea_orm::Statement;
use vstd::prelude::*;
use vstd::string::StringExecFns;

use crate::job::OrderDirection;

verus! {

/// `sea_orm::Statement`, an SQL text with its parameters and the backend it is meant for. Its
/// inside is not visible here.
#[verifier::external_type_specification]
#[verifier::external_body]
pub struct ExStatement(sea_orm::Statement);

/// The database that a statement is written for.
#[derive(Debug, Clone, Copy, PartialEq, Eq)]
pub enum Backend {
    MySql,
    Postgres,
    Sqlite,
}

/// A parameter of a statement.
#[derive(Debug, PartialEq, Eq)]
pub enum Parameter {
    Int(i32),
    Text(String),
}

/// What a parameter of a statement holds.
pub ghost enum ParameterView {
    Int(i32),
    Text(Seq<char>),
}

impl View for Parameter {
    type V = ParameterView;

    open spec fn view(&self) -> ParameterView {
        match self {
            Parameter::Int(n) => ParameterView::Int(*n),
            Parameter::Text(s) => ParameterView::Text(s@),
        }
    }
}

/// What an optional parameter holds.
pub open spec fn optional_parameter(p: Option<Parameter>) -> Option<ParameterView> {
    match p {
        Some(p) => Some(p@),
        None => None,
    }
}

/// The statement that `sea_orm::Statement::from_sql_and_values` makes of a backend, an SQL text
/// and at most one parameter.
pub uninterp spec fn statement_of(
    backend: Backend,
    sql: Seq<char>,
    parameter: Option<ParameterView>,
) -> Statement;

/// Calls `sea_orm::Statement::from_sql_and_values`. Claimed of it: the statement depends on the
/// backend, the text and the parameter alone.
#[verifier::external_body]
fn from_sql_and_values(backend: Backend, sql: &str, parameter: Option<Parameter>) -> (r: Statement)
    ensures
        r == statement_of(backend, sql@, optional_parameter(parameter)),
{
    let backend = match backend {
        Backend::MySql => sea_orm::DatabaseBackend::MySql,
        Backend::Postgres => sea_orm::DatabaseBackend::Postgres,
        Backend::Sqlite => sea_orm::DatabaseBackend::Sqlite,
    };
    let values = match parameter {
        Some(Parameter::Int(n)) => vec![sea_orm::Value::from(n)],
        Some(Parameter::Text(s)) => vec![sea_orm::Value::from(s)],
        None => vec![],
    };
    Statement::from_sql_and_values(backend, sql, values)
}

/// Finds and locks one pending interval whose next retry, if one is scheduled, has come by the
/// clock of the database; the order of the intervals follows.
pub const PENDING_INTERVAL_HEAD: &'static str = r#"
                    SELECT id, start, "end", timestamp, status, next_retry, retry_count
                    FROM interval
                    WHERE status = 0
                    AND (next_retry IS NULL OR next_retry <= EXTRACT(EPOCH FROM NOW()))
                    ORDER BY start "#;

/// What follows the order of the intervals.
pub const PENDING_INTERVAL_TAIL: &'static str = r#"
                    LIMIT 1
                    FOR UPDATE SKIP LOCKED
                    "#;

/// Marks an interval as in progress.
pub const CLAIM_INTERVAL: &'static str = r#"
                    UPDATE interval
                    SET status = 1
                    WHERE id = $1
                    RETURNING id, start, "end", timestamp, status, next_retry, retry_count
                    "#;

/// Finds and locks the oldest pending operation whose next retry, if one is scheduled, has come by
/// the clock of the database.
pub const PENDING_OPERATION: &'static str = r#"
                    SELECT id, operation_type, timestamp, status, next_retry, retry_count
                    FROM operation
                    WHERE status = 0
                    AND (next_retry IS NULL OR next_retry <= EXTRACT(EPOCH FROM NOW()))
                    ORDER BY timestamp ASC
                    LIMIT 1
                    FOR UPDATE SKIP LOCKED
                    "#;

/// Marks an operation as in progress.
pub const CLAIM_OPERATION: &'static str = r#"
                    UPDATE operation
                    SET status = 1
                    WHERE id = $1
                    RETURNING id, operation_type, timestamp, status, next_retry, retry_count
                    "#;

/// The keyword for an order.
pub open spec fn order_keyword(direction: OrderDirection) -> Seq<char> {
    match direction {
        OrderDirection::Descending => "DESC"@,
        OrderDirection::Ascending => "ASC"@,
    }
}

/// The text of the query for a pending interval, taken in the given order.
pub open spec fn pending_interval_sql(direction: OrderDirection) -> Seq<char> {
    PENDING_INTERVAL_HEAD@ + order_keyword(direction) + PENDING_INTERVAL_TAIL@
}

/// The query for a pending interval, taken in the given order.
pub open spec fn pending_interval_query(direction: OrderDirection) -> Statement {
    statement_of(Backend::Postgres, pending_interval_sql(direction), None)
}

/// The statement that claims the interval with this id.
pub open spec fn claim_interval_query(id: i32) -> Statement {
    statement_of(Backend::Postgres, CLAIM_INTERVAL@, Some(ParameterView::Int(id)))
}

/// The query for a pending operation.
pub open spec fn pending_operation_query() -> Statement {
    statement_of(Backend::Postgres, PENDING_OPERATION@, None)
}

/// The statement that claims the operation with this id.
pub open spec fn claim_operation_query(id: Seq<char>) -> Statement {
    statement_of(Backend::Postgres, CLAIM_OPERATION@, Some(ParameterView::Text(id)))
}

/// Writes the text of the query for a pending interval.
pub fn pending_interval_text(direction: OrderDirection) -> (sql: String)
    ensures
        sql@ == pending_interval_sql(direction),
{
    let order_by = match direction {
        OrderDirection::Descending => "DESC",
        OrderDirection::Ascending => "ASC",
    };
    let mut sql = PENDING_INTERVAL_HEAD.to_owned();
    sql.append(order_by);
    sql.append(PENDING_INTERVAL_TAIL);
    sql
}

/// Builds the query for a pending interval.
pub fn pending_interval(direction: OrderDirection) -> (query: Statement)
    ensures
        query == pending_interval_query(direction),
{
    let sql = pending_interval_text(direction);
    from_sql_and_values(Backend::Postgres, sql.as_str(), None)
}

/// Builds the statement that claims an interval.
pub fn claim_interval(id: i32) -> (query: Statement)
    ensures
        query == claim_interval_query(id),
{
    from_sql_and_values(Backend::Postgres, CLAIM_INTERVAL, Some(Parameter::Int(id)))
}

/// Builds the query for a pending operation.
pub fn pending_operation() -> (query: Statement)
    ensures
        query == pending_operation_query(),
{
    from_sql_and_values(Backend::Postgres, PENDING_OPERATION, None)
}

/// Builds the statement that claims an operation.
pub fn claim_operation(id: String) -> (query: Statement)
    ensures
        query == claim_operation_query(id@),
{
    from_sql_and_values(Backend::Postgres, CLAIM_OPERATION, Some(Parameter::Text(id)))
}

/// Whatever the order, the query for a pending interval is one for Postgres, without parameters,
/// and the orders differ in their keyword alone.
pub proof fn law_orders_differ_in_the_keyword_alone(direction: OrderDirection)
    ensures
        ({
            let keyword = match direction {
                OrderDirection::Descending => "DESC"@,
                OrderDirection::Ascending => "ASC"@,
            };
            let sql = PENDING_INTERVAL_HEAD@ + keyword + PENDING_INTERVAL_TAIL@;
            &&& pending_interval_sql(direction) == sql
            &&& pending_interval_query(direction) == statement_of(Backend::Postgres, sql, None)
        }),
        pending_operation_query() == statement_of(Backend::Postgres, PENDING_OPERATION@, None),
{
}

/// Whatever the row, the statement that claims it is one and the same text for Postgres, with the
/// id of that row for its parameter.
pub proof fn law_claims_bind_the_id(interval: i32, operation: Seq<char>)
    ensures
        claim_interval_query(interval) == statement_of(
            Backend::Postgres,
            CLAIM_INTERVAL@,
            Some(ParameterView::Int(interval)),
        ),
        claim_operation_query(operation) == statement_of(
            Backend::Postgres,
            CLAIM_OPERATION@,
            Some(ParameterView::Text(operation)),
        ),
{
}

/// What a parameter holds is the number or the text that it was made of.
pub proof fn law_parameter_holds_its_value(n: i32, text: String)
    ensures
        Parameter::Int(n)@ == ParameterView::Int(n),
        Parameter::Text(text)@ == ParameterView::Text(text@),
        optional_parameter(Some(Parameter::Int(n))) == Some(ParameterView::Int(n)),
        optional_parameter(Some(Parameter::Text(text))) == Some(ParameterView::Text(text@)),
        optional_parameter(None) is None,
{
}

} // verus!
