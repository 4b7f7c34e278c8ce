//! Runtime owner of one prepared statement, typed by a query descriptor.
//!
//! A query descriptor implements [`TaggedQuery`]; its associated `Row` and
//! `Params` types carry the statement's result columns and bound parameters.
//! The [`NoParams`] and [`HasParams`] markers gate, at the type level, which
//! execution entry points a descriptor offers.

use vstd::prelude::*;

verus! {

/// Marker for a query descriptor whose statement takes no bound parameters.
pub trait NoParams {

}

/// Marker for a query descriptor whose statement takes bound parameters.
pub trait HasParams {

}

/// A generated query descriptor: the SQL text plus its row and params types.
pub trait TaggedQuery {
    type Row;

    type Params;

    fn sql_str() -> &'static str;
}

/// A generated row type: materializes itself from the driver's row buffer,
/// reading columns by position.
pub trait TaggedRow: Sized {
    fn sql_str() -> &'static str;

    fn from_row(row: &rusqlite::Row<'_>) -> Result<Self, rusqlite::Error>;
}

/// A generated params type: binds its fields to the statement by position.
pub trait TaggedParams {
    fn bind_all(&self, s: &mut rusqlite::Statement<'_>) -> Result<(), rusqlite::Error>;
}

#[verifier::external_type_specification]
#[verifier::external_body]
pub struct ExConnection(rusqlite::Connection);

#[verifier::external_type_specification]
#[verifier::external_body]
pub struct ExStatement<'conn>(rusqlite::Statement<'conn>);

#[verifier::external_type_specification]
#[verifier::external_body]
pub struct ExRow<'stmt>(rusqlite::Row<'stmt>);

#[verifier::external_type_specification]
#[verifier::external_body]
pub struct ExRusqliteError(rusqlite::Error);

/// An error from running a statement: either the driver's own error, or an
/// empty result set where one row was demanded.
#[derive(Debug)]
pub enum DbError {
    NoRowsReturned,
    Driver(rusqlite::Error),
}

/// A lazy, single-pass, forward-only sequence of materialized rows. Iteration
/// advances the driver's cursor; it is not restartable.
#[verifier::external_body]
#[verifier::reject_recursive_types(R)]
pub struct RowCursor<'stmt, R> {
    inner: rusqlite::MappedRows<'stmt, fn(&rusqlite::Row<'_>) -> Result<R, rusqlite::Error>>,
}

impl<'stmt, R> RowCursor<'stmt, R> {
    /// Relies on `Iterator::next` of rusqlite's `MappedRows`: steps the driver
    /// cursor once, applies the row reader to the current row buffer, and
    /// returns `None` when the rows are exhausted.
    #[verifier::external_body]
    pub fn next_row(&mut self) -> (r: Option<Result<R, rusqlite::Error>>) {
        self.inner.next()
    }
}

/// Relies on rusqlite's `Connection::prepare`: compiles the SQL text into a
/// prepared statement owned by the caller, or returns the driver's error when
/// the SQL is invalid against the live schema.
#[verifier::external_body]
fn prepare_statement<'a>(conn: &'a rusqlite::Connection, sql: &str) -> (r: Result<
    rusqlite::Statement<'a>,
    rusqlite::Error,
>) {
    conn.prepare(sql)
}

/// Relies on rusqlite's `Statement::query_map` with the empty parameter list:
/// starts the query and maps each row the cursor reaches through `from_row`.
#[verifier::external_body]
fn query_map_rows<'s, 'c, R: TaggedRow>(stmt: &'s mut rusqlite::Statement<'c>) -> (r: Result<
    RowCursor<'s, R>,
    rusqlite::Error,
>) {
    match stmt.query_map([], R::from_row as fn(&rusqlite::Row<'_>) -> Result<R, rusqlite::Error>) {
        Ok(m) => Ok(RowCursor { inner: m }),
        Err(e) => Err(e),
    }
}

/// Relies on rusqlite's `Statement::raw_query` and `Rows::mapped`: starts the
/// query with the parameters bound beforehand and maps each row the cursor
/// reaches through `from_row`.
#[verifier::external_body]
fn raw_query_rows<'s, 'c, R: TaggedRow>(stmt: &'s mut rusqlite::Statement<'c>) -> (r: RowCursor<
    's,
    R,
>) {
    RowCursor {
        inner: stmt.raw_query().mapped(
            R::from_row as fn(&rusqlite::Row<'_>) -> Result<R, rusqlite::Error>,
        ),
    }
}

/// Relies on rusqlite's `Statement::execute` with the empty parameter list:
/// runs the statement to completion and returns the count of changed rows.
#[verifier::external_body]
fn execute_statement(stmt: &mut rusqlite::Statement<'_>) -> (r: Result<usize, rusqlite::Error>) {
    stmt.execute([])
}

/// Relies on rusqlite's `Statement::raw_execute`: runs the statement, with the
/// parameters bound beforehand, to completion and returns the count of changed
/// rows.
#[verifier::external_body]
fn raw_execute_statement(stmt: &mut rusqlite::Statement<'_>) -> (r: Result<
    usize,
    rusqlite::Error,
>) {
    stmt.raw_execute()
}

/// The driver's `Ok` kept, its error carried into the library's own taxonomy.
pub open spec fn spec_driver_result<R>(x: Result<R, rusqlite::Error>) -> Result<R, DbError> {
    match x {
        Ok(v) => Ok(v),
        Err(e) => Err(DbError::Driver(e)),
    }
}

/// Carries a driver result into the library's own error taxonomy.
pub fn map_driver_result<R>(x: Result<R, rusqlite::Error>) -> (r: Result<R, DbError>)
    ensures
        r == spec_driver_result(x),
{
    match x {
        Ok(v) => Ok(v),
        Err(e) => Err(DbError::Driver(e)),
    }
}

/// The first fetched row decides the outcome of a fetch-exactly-one request:
/// an absent row is `NoRowsReturned`, a present row is handed through, a
/// driver error is carried through. Rows beyond the first are never consulted.
pub fn first_row_or_no_rows<R>(first: Option<Result<R, rusqlite::Error>>) -> (r: Result<
    R,
    DbError,
>)
    ensures
        match first {
            None => r == Result::<R, DbError>::Err(DbError::NoRowsReturned),
            Some(x) => r == spec_driver_result(x),
        },
{
    match first {
        None => Err(DbError::NoRowsReturned),
        Some(x) => map_driver_result(x),
    }
}

/// Exclusive owner of one prepared statement for the query descriptor `T`.
/// The statement's lifetime is bounded by the connection's.
pub struct StatementHolder<'a, T: TaggedQuery> {
    stmt: rusqlite::Statement<'a>,
    fake: core::marker::PhantomData<T>,
}

impl<'a, T: TaggedQuery> StatementHolder<'a, T> {
    /// Prepares `T`'s SQL text on the connection and takes ownership of the
    /// resulting statement; a failure is the driver's own error.
    pub fn new(connection: &'a rusqlite::Connection) -> (r: Result<Self, DbError>)
        ensures
            (r matches Err(e) ==> e is Driver),
    {
        match prepare_statement(connection, T::sql_str()) {
            Ok(stmt) => Ok(StatementHolder { stmt, fake: core::marker::PhantomData }),
            Err(e) => Err(DbError::Driver(e)),
        }
    }
}

impl<'a, T: TaggedQuery + NoParams> StatementHolder<'a, T> where T::Row: TaggedRow {
    /// Starts the parameter-less query and returns the lazy row sequence; a
    /// failure is the driver's own error.
    pub fn query(&mut self) -> (r: Result<RowCursor<'_, T::Row>, DbError>)
        ensures
            (r matches Err(e) ==> e is Driver),
    {
        map_driver_result(query_map_rows::<T::Row>(&mut self.stmt))
    }

    /// Runs the parameter-less statement to completion; returns the count of
    /// changed rows, or the driver's own error.
    pub fn execute(&mut self) -> (r: Result<usize, DbError>)
        ensures
            (r matches Err(e) ==> e is Driver),
    {
        map_driver_result(execute_statement(&mut self.stmt))
    }

    /// Fetches exactly one row of the parameter-less query: `NoRowsReturned`
    /// on an empty result set, else the first row; further rows are discarded
    /// unread.
    pub fn query_row(&mut self) -> (r: Result<T::Row, DbError>) {
        match self.query() {
            Ok(mut rows) => first_row_or_no_rows(rows.next_row()),
            Err(e) => Err(e),
        }
    }
}

impl<'a, T: TaggedQuery + HasParams> StatementHolder<'a, T> where
    T::Row: TaggedRow,
    T::Params: TaggedParams,
 {
    /// Binds the parameters in positional order, starts the query, and returns
    /// the lazy row sequence; a failure, binding included, is the driver's own
    /// error.
    pub fn query_bind(&mut self, params: &T::Params) -> (r: Result<RowCursor<'_, T::Row>, DbError>)
        ensures
            (r matches Err(e) ==> e is Driver),
    {
        match params.bind_all(&mut self.stmt) {
            Ok(()) => Ok(raw_query_rows::<T::Row>(&mut self.stmt)),
            Err(e) => Err(DbError::Driver(e)),
        }
    }

    /// Binds the parameters in positional order and runs the statement to
    /// completion; returns the count of changed rows, or the driver's own
    /// error, binding failures included.
    pub fn execute_bind(&mut self, params: &T::Params) -> (r: Result<usize, DbError>)
        ensures
            (r matches Err(e) ==> e is Driver),
    {
        match params.bind_all(&mut self.stmt) {
            Ok(()) => map_driver_result(raw_execute_statement(&mut self.stmt)),
            Err(e) => Err(DbError::Driver(e)),
        }
    }

    /// Fetches exactly one row of the bound query: `NoRowsReturned` on an
    /// empty result set, else the first row; further rows are discarded
    /// unread.
    pub fn query_row_bind(&mut self, params: &T::Params) -> (r: Result<T::Row, DbError>) {
        match self.query_bind(params) {
            Ok(mut rows) => first_row_or_no_rows(rows.next_row()),
            Err(e) => Err(e),
        }
    }
}

} // verus!
