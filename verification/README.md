# sql_ddl_to_json_schema

Parses MySQL and MariaDB DDL (`CREATE TABLE`, `ALTER TABLE`, `CREATE INDEX`,
`RENAME TABLE`, `DROP TABLE`, `DROP INDEX`, and the database statements) into
three outputs:

- a parse tree: `{ "id": "MAIN", "def": [ P_DDS, ... ] }`;
- a compact table model, built by replaying the statements in order;
- one JSON Schema draft-07 document per table.

The library is written in Verus. Every function carries a contract, and
Verus proves each body against it.

## Layout

- `src/json.rs`: the `Json` value type (numbers keep their decimal text) and
  its mathematical view `JsonV`.
- `src/lexer.rs`: the tokenizer, specified by `spec_lex`.
- `src/grammar/`: the recursive-descent grammar over the token stream. Each
  rule is specified by a spec function over the token views (`datatype_at`,
  `create_definition_at`, `spec_alter_table`, ...) that gives where the rule
  ends and the node it builds; `spec_parse_statement` gives the tree of a
  whole statement, and `parse_statement` returns exactly it. Each rule also
  states how far it read (`datatype_reach`, `statement_reach`, ...), so a
  failed statement names the line of the furthest token reached
  (`furthest_reached`).
- `src/compact/`: the table model. Each operation is specified over views
  (`TableV`, `ColumnV`, ...) by a spec function (`spec_add_column`,
  `spec_change_column`, `spec_replay`, ...); `compact::format` returns
  exactly `spec_compact` of the tree. `compact/laws.rs` proves what the model
  keeps: distinct column names, at most one autoincrement column, a column
  left in every table, moves that permute, renames that leave no stale
  reference, statements that are not about tables leave the tables alone.
- `src/json_schema.rs`: the schema formatter, specified by
  `spec_table_schema`, with the laws that `properties` and `definitions`
  name the same columns and that every required column is a property.
- `src/parser.rs`: the streaming statement splitter (`feed_spec`, with the
  laws that chunking does not matter and that no text is lost) and the public
  `Parser`, whose outputs are stated over the parse trees of the statements
  fed (`main_tree`, `first_failure`).
- `tests/`: tests on concrete inputs.
- `app/`: conversion to and from `serde_json::Value`, and `Display` for the
  error type.
