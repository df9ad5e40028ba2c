//! Parse trees of single statements.

use sql_ddl_to_json_schema::grammar::parse_statement;
use sql_ddl_to_json_schema::grammar::create_table::s_eos;
use sql_ddl_to_json_schema::grammar::stream::Stream;
use sql_ddl_to_json_schema::lexer::{tokenize, TokenKind};
use sql_ddl_to_json_schema::{Json, Parser};

fn s(x: &str) -> Json {
    Json::Str(x.to_string())
}

fn n(x: &str) -> Json {
    Json::Num(x.to_string())
}

fn obj(v: Vec<(&str, Json)>) -> Json {
    Json::Obj(v.into_iter().map(|(k, v)| (k.to_string(), v)).collect())
}

fn node(id: &str, def: Json) -> Json {
    obj(vec![("id", s(id)), ("def", def)])
}

fn dds(inner: Json) -> Json {
    node("P_DDS", inner)
}

#[test]
fn drop_index_keeps_algorithm_and_lock_options() {
    let tree = parse_statement("DROP INDEX idx ON t ALGORITHM = INPLACE LOCK NONE;").unwrap();
    let expected = dds(node(
        "P_DROP_INDEX",
        obj(vec![
            ("index", s("idx")),
            ("table", s("t")),
            (
                "options",
                Json::Arr(vec![
                    node("P_INDEX_ALGORITHM_OPTION", obj(vec![("algorithm", s("INPLACE"))])),
                    node("P_LOCK_OPTION", obj(vec![("lock", s("NONE"))])),
                ]),
            ),
        ]),
    ));
    assert_eq!(tree, expected);
}

#[test]
fn create_database_lists_its_specs() {
    let tree =
        parse_statement("CREATE DATABASE IF NOT EXISTS shop CHARACTER SET utf8 COLLATE utf8_bin;").unwrap();
    let expected = dds(node(
        "P_CREATE_DB",
        obj(vec![
            ("database", s("shop")),
            (
                "meta",
                Json::Arr(vec![
                    node("O_CREATE_DB_SPEC", obj(vec![("charset", s("utf8"))])),
                    node("O_CREATE_DB_SPEC", obj(vec![("collation", s("utf8_bin"))])),
                ]),
            ),
        ]),
    ));
    assert_eq!(tree, expected);
}

#[test]
fn alter_database_reads_a_leading_keyword_as_its_name() {
    let tree = parse_statement("ALTER SCHEMA DEFAULT CHARSET = latin1;").unwrap();
    let expected = dds(node(
        "P_ALTER_DB",
        obj(vec![
            ("database", s("DEFAULT")),
            ("meta", Json::Arr(vec![node("O_ALTER_DB_SPEC", obj(vec![("charset", s("latin1"))]))])),
        ]),
    ));
    assert_eq!(tree, expected);
}

#[test]
fn alter_database_needs_a_spec() {
    assert!(parse_statement("ALTER DATABASE shop;").is_err());
}

#[test]
fn drop_database_gives_its_name() {
    let tree = parse_statement("DROP SCHEMA IF EXISTS shop;").unwrap();
    assert_eq!(tree, dds(node("P_DROP_DB", s("shop"))));
}

#[test]
fn create_index_joins_its_kind_and_keeps_column_details() {
    let tree = parse_statement("CREATE UNIQUE INDEX i1 USING BTREE ON t (a(10) DESC, b) COMMENT 'c';").unwrap();
    let expected = dds(node(
        "P_CREATE_INDEX",
        obj(vec![
            ("name", s("i1")),
            ("type", s("UNIQUE INDEX")),
            ("index", node("P_INDEX_TYPE", s("BTREE"))),
            ("table", s("t")),
            (
                "columns",
                Json::Arr(vec![
                    node(
                        "P_INDEX_COLUMN",
                        obj(vec![("column", s("a")), ("length", n("10")), ("sort", s("DESC"))]),
                    ),
                    node("P_INDEX_COLUMN", obj(vec![("column", s("b"))])),
                ]),
            ),
            ("options", Json::Arr(vec![node("O_INDEX_OPTION", obj(vec![("comment", s("c"))]))])),
        ]),
    ));
    assert_eq!(tree, expected);
}

#[test]
fn set_statement_is_a_bare_node() {
    let tree = parse_statement("SET NAMES utf8;").unwrap();
    assert_eq!(tree, dds(obj(vec![("id", s("P_SET"))])));
    assert!(parse_statement("SET ;").is_err());
}

#[test]
fn datatype_defaults_fill_in_missing_sizes() {
    let tree = parse_statement("CREATE TABLE t (a DECIMAL, b BIT, c YEAR, d TEXT, e CHAR);").unwrap();
    let def = tree.get("def").unwrap().get("def").unwrap().get("def").unwrap();
    let defs = def.get("columnsDef").unwrap().get("def").unwrap();
    let datatype = |i: usize| -> Json {
        match defs {
            Json::Arr(a) => a[i]
                .get("def")
                .unwrap()
                .get("column")
                .unwrap()
                .get("def")
                .unwrap()
                .get("datatype")
                .unwrap()
                .get("def")
                .unwrap()
                .deep_clone(),
            _ => panic!("not an array"),
        }
    };
    assert_eq!(
        datatype(0),
        node(
            "O_FIXED_POINT_DATATYPE",
            obj(vec![("datatype", s("DECIMAL")), ("digits", n("10")), ("decimals", n("0"))]),
        )
    );
    assert_eq!(datatype(1), node("O_BIT_DATATYPE", obj(vec![("datatype", s("BIT")), ("length", n("1"))])));
    assert_eq!(datatype(2), node("O_YEAR_DATATYPE", obj(vec![("datatype", s("YEAR")), ("digits", n("4"))])));
    assert_eq!(
        datatype(3),
        node("O_FIXED_STRING_DATATYPE", obj(vec![("datatype", s("TEXT")), ("length", n("65535"))]))
    );
    assert_eq!(
        datatype(4),
        node("O_VARIABLE_STRING_DATATYPE", obj(vec![("datatype", s("CHAR")), ("length", n("1"))]))
    );
}

#[test]
fn alter_table_takes_several_specifications() {
    let tree = parse_statement("ALTER TABLE t DROP PRIMARY KEY, RENAME TO u, FORCE;").unwrap();
    let specs = tree.get("def").unwrap().get("def").unwrap().get("specs").unwrap();
    let spec = |action: Json| node("P_ALTER_TABLE_SPECS", obj(vec![("spec", node("O_ALTER_TABLE_SPEC", action))]));
    assert_eq!(
        *specs,
        Json::Arr(vec![
            spec(obj(vec![("action", s("dropPrimaryKey"))])),
            spec(obj(vec![("action", s("rename")), ("newName", s("u"))])),
            spec(obj(vec![("action", s("force"))])),
        ])
    );
}

#[test]
fn statements_about_databases_produce_no_tables() {
    let mut p = Parser::new("").unwrap();
    p.feed("SET x = 1; USE shop; CREATE DATABASE d; ALTER DATABASE d CHARSET utf8; DROP DATABASE d;");
    p.feed("CREATE TABLE t (id INT);");
    let tables = p.parse_compact().unwrap();
    assert_eq!(tables.len(), 1);
    assert_eq!(tables[0].get("name").unwrap(), &s("t"));
}

#[test]
fn trailing_text_after_a_statement_is_refused() {
    assert!(parse_statement("USE shop; x").is_err());
    assert!(parse_statement("  USE shop;  ").is_ok());
}

#[test]
fn unquoted_text_lexes_to_its_own_pieces() {
    let input = "CREATE TABLE t (\n  id INT(11) NOT NULL, -- note\n  n DECIMAL(5,2) DEFAULT 0x1F\n);";
    let tokens = tokenize(input).unwrap();
    assert!(tokens.iter().all(|t| !t.value.is_empty()));
    assert!(tokens.iter().all(|t| !matches!(
        t.kind,
        TokenKind::DQuoteString | TokenKind::SQuoteString | TokenKind::IdentifierQuoted
    )));
    let joined: String = tokens.iter().map(|t| t.value.as_str()).collect();
    assert_eq!(joined, input);
}

#[test]
fn parse_error_names_the_furthest_token() {
    // The column list breaks at `@@@` on the fourth line, after the rules
    // rewound to the statement start.
    let err = parse_statement("CREATE TABLE t (\n a INT,\n b INT,\n @@@ );").unwrap_err();
    assert_eq!(err.line, 4);
    // Trailing text after a whole statement is reported where it starts.
    let err = parse_statement("USE db;\n\n x").unwrap_err();
    assert_eq!(err.line, 3);
}

#[test]
fn set_keeps_the_high_water_mark() {
    let tokens = tokenize("a b").unwrap();
    let mut s = Stream::new(&tokens);
    assert!(s.bump().is_some());
    assert_eq!(s.furthest(), 1);
    s.set(10);
    assert_eq!(s.pos(), 10);
    assert_eq!(s.furthest(), 1);
    assert!(s.peek().is_none());
    assert!(s.bump().is_none());
    s.ws0();
    assert_eq!(s.pos(), 10);
    assert_eq!(s.furthest(), 1);
    s.set(0);
    assert_eq!(s.pos(), 0);
    assert_eq!(s.furthest(), 1);
}

#[test]
fn end_of_statement_keeps_the_whitespace_it_read() {
    let a = tokenize(" ;x").unwrap();
    let b = tokenize(" x;").unwrap();
    let mut s = Stream::new(&a);
    let mut t = Stream::new(&b);
    assert!(s_eos(&mut s));
    assert_eq!(s.pos(), 2);
    assert!(!s_eos(&mut t));
    assert_eq!(t.pos(), 0);
    assert_eq!(t.furthest(), 1);
}
