//! End-to-end tests against a live in-memory database: the hand-written
//! artifacts below are exactly what the generator emits for each annotated
//! query.

use rusqlite::Connection;
use tagged_rusqlite::{DbError, TaggedQuery};

#[derive(PartialOrd, PartialEq, Debug)]
struct CreateTableRow {}
struct CreateTableParams {}
struct CreateTable {}

impl tagged_rusqlite::TaggedRow for CreateTableRow {
    fn sql_str() -> &'static str {
        CreateTable::sql_str()
    }
    fn from_row(_row: &rusqlite::Row<'_>) -> Result<Self, rusqlite::Error> {
        Ok(Self {})
    }
}

impl tagged_rusqlite::TaggedParams for CreateTableParams {
    fn bind_all(&self, _s: &mut rusqlite::Statement<'_>) -> Result<(), rusqlite::Error> {
        Ok(())
    }
}

impl tagged_rusqlite::TaggedQuery for CreateTable {
    type Row = CreateTableRow;
    type Params = CreateTableParams;
    fn sql_str() -> &'static str {
        "CREATE TABLE person (
                  id              INTEGER PRIMARY KEY,
                  name            TEXT NOT NULL,
                  data            BLOB
                  );"
    }
}

impl CreateTable {
    pub fn prepare<'a>(
        connection: &'a rusqlite::Connection,
    ) -> Result<tagged_rusqlite::StatementHolder<'a, CreateTable>, tagged_rusqlite::DbError> {
        tagged_rusqlite::StatementHolder::new(connection)
    }
}

impl tagged_rusqlite::NoParams for CreateTable {}

#[derive(PartialOrd, PartialEq, Debug)]
struct InsertPersonRow {
    id: i64,
}
struct InsertPersonParams {
    name: String,
    data: Option<Vec<u8>>,
}
struct InsertPerson {}

impl tagged_rusqlite::TaggedRow for InsertPersonRow {
    fn sql_str() -> &'static str {
        InsertPerson::sql_str()
    }
    fn from_row(row: &rusqlite::Row<'_>) -> Result<Self, rusqlite::Error> {
        Ok(Self { id: row.get(0)? })
    }
}

impl tagged_rusqlite::TaggedParams for InsertPersonParams {
    fn bind_all(&self, s: &mut rusqlite::Statement<'_>) -> Result<(), rusqlite::Error> {
        s.raw_bind_parameter(1, &self.name)?;
        s.raw_bind_parameter(2, &self.data)?;
        Ok(())
    }
}

impl tagged_rusqlite::TaggedQuery for InsertPerson {
    type Row = InsertPersonRow;
    type Params = InsertPersonParams;
    fn sql_str() -> &'static str {
        r#"INSERT INTO
                person (name, data)
                VALUES (
                    ?1 /*:name:String*/,
                    ?2 /*:data:Option<Vec<u8>>*/
                )
                RETURNING id /*:i64*/;
                "#
    }
}

impl InsertPerson {
    pub fn prepare<'a>(
        connection: &'a rusqlite::Connection,
    ) -> Result<tagged_rusqlite::StatementHolder<'a, InsertPerson>, tagged_rusqlite::DbError> {
        tagged_rusqlite::StatementHolder::new(connection)
    }
}

impl tagged_rusqlite::HasParams for InsertPerson {}

#[derive(PartialOrd, PartialEq, Debug)]
struct SelectPersonRow {
    id: i64,
    name: String,
    data: Option<Vec<u8>>,
}
struct SelectPersonParams {}
struct SelectPerson {}

impl tagged_rusqlite::TaggedRow for SelectPersonRow {
    fn sql_str() -> &'static str {
        SelectPerson::sql_str()
    }
    fn from_row(row: &rusqlite::Row<'_>) -> Result<Self, rusqlite::Error> {
        Ok(Self {
            id: row.get(0)?,
            name: row.get(1)?,
            data: row.get(2)?,
        })
    }
}

impl tagged_rusqlite::TaggedParams for SelectPersonParams {
    fn bind_all(&self, _s: &mut rusqlite::Statement<'_>) -> Result<(), rusqlite::Error> {
        Ok(())
    }
}

impl tagged_rusqlite::TaggedQuery for SelectPerson {
    type Row = SelectPersonRow;
    type Params = SelectPersonParams;
    fn sql_str() -> &'static str {
        r#"SELECT
                            id   /*:i64*/,
                            name /*:String*/,
                            data /*:Option<Vec<u8>>*/
                            FROM person;
                            "#
    }
}

impl SelectPerson {
    pub fn prepare<'a>(
        connection: &'a rusqlite::Connection,
    ) -> Result<tagged_rusqlite::StatementHolder<'a, SelectPerson>, tagged_rusqlite::DbError> {
        tagged_rusqlite::StatementHolder::new(connection)
    }
}

impl tagged_rusqlite::NoParams for SelectPerson {}

#[derive(PartialOrd, PartialEq, Debug)]
struct SearchByNameRow {
    id: i64,
    name: String,
    data: Option<Vec<u8>>,
}
struct SearchByNameParams {
    name2: String,
}
struct SearchByName {}

impl tagged_rusqlite::TaggedRow for SearchByNameRow {
    fn sql_str() -> &'static str {
        SearchByName::sql_str()
    }
    fn from_row(row: &rusqlite::Row<'_>) -> Result<Self, rusqlite::Error> {
        Ok(Self {
            id: row.get(0)?,
            name: row.get(1)?,
            data: row.get(2)?,
        })
    }
}

impl tagged_rusqlite::TaggedParams for SearchByNameParams {
    fn bind_all(&self, s: &mut rusqlite::Statement<'_>) -> Result<(), rusqlite::Error> {
        s.raw_bind_parameter(1, &self.name2)?;
        Ok(())
    }
}

impl tagged_rusqlite::TaggedQuery for SearchByName {
    type Row = SearchByNameRow;
    type Params = SearchByNameParams;
    fn sql_str() -> &'static str {
        r#"SELECT
                            id   /*:i64*/,
                            name /*:String*/,
                            data /*:Option<Vec<u8>>*/
                            FROM person
                            WHERE name = ? /*:name2:String*/;
                            "#
    }
}

impl SearchByName {
    pub fn prepare<'a>(
        connection: &'a rusqlite::Connection,
    ) -> Result<tagged_rusqlite::StatementHolder<'a, SearchByName>, tagged_rusqlite::DbError> {
        tagged_rusqlite::StatementHolder::new(connection)
    }
}

impl tagged_rusqlite::HasParams for SearchByName {}

fn fresh_person_table() -> Connection {
    let conn = Connection::open_in_memory().unwrap();
    CreateTable::prepare(&conn).unwrap().execute().unwrap();
    conn
}

#[test]
fn smoke_test() {
    let conn = fresh_person_table();

    let mut insert = InsertPerson::prepare(&conn).unwrap();
    let id = insert
        .query_row_bind(&InsertPersonParams {
            name: "Steven".to_string(),
            data: Some(vec![1u8, 2u8]),
        })
        .unwrap();
    assert_eq!(id.id, 1);
    let id = insert
        .query_row_bind(&InsertPersonParams {
            name: "John".to_string(),
            data: None,
        })
        .unwrap();
    assert_eq!(id.id, 2);
    let id = insert
        .query_row_bind(&InsertPersonParams {
            name: "Bill".to_string(),
            data: None,
        })
        .unwrap();
    assert_eq!(id.id, 3);

    let mut stmt = SelectPerson::prepare(&conn).unwrap();
    let mut rows = stmt.query().unwrap();
    let mut people: Vec<SelectPersonRow> = Vec::new();
    while let Some(row) = rows.next_row() {
        people.push(row.unwrap());
    }
    assert_eq!(
        people,
        vec![
            SelectPersonRow {
                id: 1,
                name: "Steven".into(),
                data: Some(vec![1u8, 2u8])
            },
            SelectPersonRow {
                id: 2,
                name: "John".into(),
                data: None
            },
            SelectPersonRow {
                id: 3,
                name: "Bill".into(),
                data: None
            },
        ]
    );

    let search_params = SearchByNameParams {
        name2: "John".into(),
    };
    let mut holder = SearchByName::prepare(&conn).unwrap();
    let mut rows = holder.query_bind(&search_params).unwrap();
    let mut found: Vec<SearchByNameRow> = Vec::new();
    while let Some(row) = rows.next_row() {
        found.push(row.unwrap());
    }
    assert_eq!(
        found,
        vec![SearchByNameRow {
            id: 2,
            name: "John".into(),
            data: None
        }]
    );

    let mut stmt = SelectPerson::prepare(&conn).unwrap();
    assert_eq!(
        stmt.query_row().unwrap(),
        SelectPersonRow {
            id: 1,
            name: "Steven".into(),
            data: Some(vec![1u8, 2u8])
        }
    );

    let mut stmt = SearchByName::prepare(&conn).unwrap();
    let search_params = SearchByNameParams {
        name2: "Bill".into(),
    };
    assert_eq!(
        stmt.query_row_bind(&search_params).unwrap(),
        SearchByNameRow {
            id: 3,
            name: "Bill".into(),
            data: None
        }
    );
}

#[test]
fn query_row_on_an_empty_result_set_is_no_rows_returned() {
    let conn = fresh_person_table();
    let mut stmt = SelectPerson::prepare(&conn).unwrap();
    let outcome = stmt.query_row();
    assert!(matches!(outcome, Err(DbError::NoRowsReturned)));
}

#[test]
fn query_row_bind_on_an_empty_result_set_is_no_rows_returned() {
    let conn = fresh_person_table();
    let mut stmt = SearchByName::prepare(&conn).unwrap();
    let outcome = stmt.query_row_bind(&SearchByNameParams {
        name2: "Nobody".into(),
    });
    assert!(matches!(outcome, Err(DbError::NoRowsReturned)));
}

#[test]
fn query_row_on_many_rows_returns_the_first_without_error() {
    let conn = fresh_person_table();
    let mut insert = InsertPerson::prepare(&conn).unwrap();
    for name in ["Steven", "John"] {
        insert
            .query_row_bind(&InsertPersonParams {
                name: name.to_string(),
                data: None,
            })
            .unwrap();
    }
    let mut stmt = SelectPerson::prepare(&conn).unwrap();
    let first = stmt.query_row().unwrap();
    assert_eq!(first.id, 1);
    assert_eq!(first.name, "Steven");
}

#[test]
fn prepare_against_a_missing_table_is_a_driver_error() {
    let conn = Connection::open_in_memory().unwrap();
    let outcome = SelectPerson::prepare(&conn);
    assert!(matches!(outcome, Err(DbError::Driver(_))));
}

#[test]
fn statement_stays_usable_after_an_empty_fetch() {
    let conn = fresh_person_table();
    let mut search = SearchByName::prepare(&conn).unwrap();
    let miss = search.query_row_bind(&SearchByNameParams {
        name2: "Nobody".into(),
    });
    assert!(matches!(miss, Err(DbError::NoRowsReturned)));

    let mut insert = InsertPerson::prepare(&conn).unwrap();
    insert
        .query_row_bind(&InsertPersonParams {
            name: "Nobody".to_string(),
            data: None,
        })
        .unwrap();
    let hit = search
        .query_row_bind(&SearchByNameParams {
            name2: "Nobody".into(),
        })
        .unwrap();
    assert_eq!(hit.id, 1);
}

#[derive(PartialOrd, PartialEq, Debug)]
struct InsertPlainRow {}
struct InsertPlainParams {
    name: String,
    data: Option<Vec<u8>>,
}
struct InsertPlain {}

impl tagged_rusqlite::TaggedRow for InsertPlainRow {
    fn sql_str() -> &'static str {
        InsertPlain::sql_str()
    }
    fn from_row(_row: &rusqlite::Row<'_>) -> Result<Self, rusqlite::Error> {
        Ok(Self {})
    }
}

impl tagged_rusqlite::TaggedParams for InsertPlainParams {
    fn bind_all(&self, s: &mut rusqlite::Statement<'_>) -> Result<(), rusqlite::Error> {
        s.raw_bind_parameter(1, &self.name)?;
        s.raw_bind_parameter(2, &self.data)?;
        Ok(())
    }
}

impl tagged_rusqlite::TaggedQuery for InsertPlain {
    type Row = InsertPlainRow;
    type Params = InsertPlainParams;
    fn sql_str() -> &'static str {
        "INSERT INTO person (name, data) VALUES (? /*:name:String*/, ? /*:data:Option<Vec<u8>>*/);"
    }
}

impl InsertPlain {
    pub fn prepare<'a>(
        connection: &'a rusqlite::Connection,
    ) -> Result<tagged_rusqlite::StatementHolder<'a, InsertPlain>, tagged_rusqlite::DbError> {
        tagged_rusqlite::StatementHolder::new(connection)
    }
}

impl tagged_rusqlite::HasParams for InsertPlain {}

#[derive(PartialOrd, PartialEq, Debug)]
struct TouchAllRow {}
struct TouchAllParams {}
struct TouchAll {}

impl tagged_rusqlite::TaggedRow for TouchAllRow {
    fn sql_str() -> &'static str {
        TouchAll::sql_str()
    }
    fn from_row(_row: &rusqlite::Row<'_>) -> Result<Self, rusqlite::Error> {
        Ok(Self {})
    }
}

impl tagged_rusqlite::TaggedParams for TouchAllParams {
    fn bind_all(&self, _s: &mut rusqlite::Statement<'_>) -> Result<(), rusqlite::Error> {
        Ok(())
    }
}

impl tagged_rusqlite::TaggedQuery for TouchAll {
    type Row = TouchAllRow;
    type Params = TouchAllParams;
    fn sql_str() -> &'static str {
        "UPDATE person SET name = name;"
    }
}

impl TouchAll {
    pub fn prepare<'a>(
        connection: &'a rusqlite::Connection,
    ) -> Result<tagged_rusqlite::StatementHolder<'a, TouchAll>, tagged_rusqlite::DbError> {
        tagged_rusqlite::StatementHolder::new(connection)
    }
}

impl tagged_rusqlite::NoParams for TouchAll {}

#[test]
fn execute_bind_and_execute_report_changed_row_counts() {
    let conn = fresh_person_table();
    let mut insert = InsertPlain::prepare(&conn).unwrap();
    let changed = insert
        .execute_bind(&InsertPlainParams {
            name: "Ada".to_string(),
            data: Some(vec![9u8]),
        })
        .unwrap();
    assert_eq!(changed, 1);
    let changed = insert
        .execute_bind(&InsertPlainParams {
            name: "Grace".to_string(),
            data: None,
        })
        .unwrap();
    assert_eq!(changed, 1);

    let mut touch = TouchAll::prepare(&conn).unwrap();
    assert_eq!(touch.execute().unwrap(), 2);
}

#[test]
fn execute_bind_on_a_constraint_violation_is_a_driver_error() {
    let conn = fresh_person_table();
    conn.execute("CREATE UNIQUE INDEX person_name ON person (name);", [])
        .unwrap();
    let mut insert = InsertPlain::prepare(&conn).unwrap();
    let params = InsertPlainParams {
        name: "Ada".to_string(),
        data: None,
    };
    assert_eq!(insert.execute_bind(&params).unwrap(), 1);
    let outcome = insert.execute_bind(&params);
    assert!(matches!(outcome, Err(DbError::Driver(_))));
}
