//! Parse MySQL and MariaDB DDL into a compact table model and JSON Schema.
//!
//! Feed SQL Data Definition statements into a [`Parser`], then read one of
//! three outputs: the parse tree ([`Parser::parse`]), the compact table model
//! ([`Parser::parse_compact`]) or JSON Schema draft-07 documents
//! ([`Parser::parse_json_schema`]). Each of these drains the statements fed so
//! far. To format a tree already at hand, use [`compact_from_tree`] and
//! [`json_schema_from_tables`].
//!
//! Statements split at semicolons outside quotes and comments, so input can
//! arrive in chunks. Values are [`Json`] trees whose numbers keep their
//! decimal text.

pub mod json;
pub mod lexer;
pub mod grammar;
pub mod compact;
pub mod json_schema;
pub mod parser;

pub use json::Json;
pub use parser::{compact_from_tree, json_schema_from_tables, Error, JsonSchemaOptions, Parser};
