//! An annotation-driven SQL typing compiler with a typed runtime statement
//! wrapper.
//!
//! SQL text may carry inline type annotations written as comments: a result
//! column is followed by `/*: Type */`, a bound placeholder by
//! `/*: name:Type */`. The scanner splits such text into bare tokens and
//! annotation spans, the classifier derives the ordered lists of result
//! columns and parameters, and the generator emits the source text of a row
//! type, a params type and a query descriptor for each annotated statement.
//! The statement wrapper owns one prepared statement for such a descriptor
//! and offers type-safe execution entry points.

pub mod classify;
pub mod error;
pub mod generate;
pub mod laws;
pub mod mail;
pub mod scan;
pub mod statement;
pub mod text;

pub use statement::{DbError, HasParams, NoParams, RowCursor, StatementHolder, TaggedParams,
    TaggedQuery, TaggedRow};
