//! Parse-tree conformance on a set of queries and their expected trees.

use sql_ddl_to_json_schema::{Json, Parser};

fn s(x: &str) -> Json {
    Json::Str(x.to_string())
}

fn obj(v: Vec<(&str, Json)>) -> Json {
    Json::Obj(v.into_iter().map(|(k, v)| (k.to_string(), v)).collect())
}

fn node(id: &str, def: Json) -> Json {
    obj(vec![("id", s(id)), ("def", def)])
}

fn run_parsed(query: &str) -> Result<Json, String> {
    let mut p = Parser::new("mysql").unwrap();
    p.feed(query);
    p.results().map_err(|e| e.to_string())
}

fn n(x: &str) -> Json {
    Json::Num(x.to_string())
}

fn dds(inner: Json) -> Json {
    node("P_DDS", inner)
}

fn main_of(items: Vec<Json>) -> Json {
    node("MAIN", Json::Arr(items))
}

fn create_table_t() -> Json {
    let column = obj(vec![(
        "column",
        obj(vec![
            ("name", s("id")),
            (
                "def",
                obj(vec![
                    (
                        "datatype",
                        node(
                            "O_DATATYPE",
                            node("O_INTEGER_DATATYPE", obj(vec![("datatype", s("INT")), ("displayWidth", n("11"))])),
                        ),
                    ),
                    (
                        "columnDefinition",
                        Json::Arr(vec![node("O_COLUMN_DEFINITION", obj(vec![("nullable", Json::Bool(false))]))]),
                    ),
                ]),
            ),
        ]),
    )]);
    dds(node(
        "P_CREATE_TABLE",
        node(
            "P_CREATE_TABLE_COMMON",
            obj(vec![
                ("table", s("t")),
                (
                    "columnsDef",
                    node(
                        "P_CREATE_TABLE_CREATE_DEFINITIONS",
                        Json::Arr(vec![node("O_CREATE_TABLE_CREATE_DEFINITION", column)]),
                    ),
                ),
                (
                    "tableOptions",
                    node(
                        "P_CREATE_TABLE_OPTIONS",
                        Json::Arr(vec![node("O_CREATE_TABLE_OPTION", obj(vec![("engine", s("InnoDB"))]))]),
                    ),
                ),
            ]),
        ),
    ))
}

fn alter_drop_column() -> Json {
    dds(node(
        "P_ALTER_TABLE",
        obj(vec![
            ("table", s("t")),
            (
                "specs",
                Json::Arr(vec![node(
                    "P_ALTER_TABLE_SPECS",
                    obj(vec![(
                        "spec",
                        node("O_ALTER_TABLE_SPEC", obj(vec![("action", s("dropColumn")), ("column", s("c"))])),
                    )]),
                )]),
            ),
        ]),
    ))
}

fn create_index_i() -> Json {
    dds(node(
        "P_CREATE_INDEX",
        obj(vec![
            ("name", s("i")),
            ("type", s("UNIQUE INDEX")),
            ("index", Json::Null),
            ("table", s("t")),
            ("columns", Json::Arr(vec![node("P_INDEX_COLUMN", obj(vec![("column", s("a"))]))])),
            ("options", Json::Arr(vec![])),
        ]),
    ))
}

fn use_db(name: &str) -> Json {
    node("P_DDS", node("P_USE_DB", obj(vec![("database", s(name))])))
}

#[test]
fn parser_goldens_match() {
    let goldens = vec![
        ("use", "USE db;", node("MAIN", Json::Arr(vec![use_db("db")]))),
        ("use quoted", "USE `my db`;", node("MAIN", Json::Arr(vec![use_db("my db")]))),
        ("two statements", "USE a; USE b;", node("MAIN", Json::Arr(vec![use_db("a"), use_db("b")]))),
        ("empty", "", node("MAIN", Json::Arr(vec![]))),
        ("create table", "CREATE TABLE t (id INT(11) NOT NULL) ENGINE=InnoDB;", main_of(vec![create_table_t()])),
        ("alter table", "ALTER TABLE t DROP COLUMN c;", main_of(vec![alter_drop_column()])),
        ("create index", "CREATE UNIQUE INDEX i ON t (a);", main_of(vec![create_index_i()])),
        (
            "drop table",
            "DROP TABLE IF EXISTS a, b;",
            main_of(vec![dds(node("P_DROP_TABLE", Json::Arr(vec![s("a"), s("b")])))]),
        ),
        (
            "drop index",
            "DROP INDEX i ON t;",
            main_of(vec![dds(node(
                "P_DROP_INDEX",
                obj(vec![("index", s("i")), ("table", s("t")), ("options", Json::Arr(vec![]))]),
            ))]),
        ),
        (
            "rename",
            "RENAME TABLE a TO b, c TO d;",
            main_of(vec![dds(node(
                "P_RENAME_TABLE",
                Json::Arr(vec![
                    obj(vec![("table", s("a")), ("newName", s("b"))]),
                    obj(vec![("table", s("c")), ("newName", s("d"))]),
                ]),
            ))]),
        ),
        ("set", "SET NAMES utf8;", main_of(vec![dds(obj(vec![("id", s("P_SET"))]))])),
        (
            "database statements",
            "CREATE DATABASE d; ALTER DATABASE d COLLATE utf8_bin; DROP DATABASE d;",
            main_of(vec![
                dds(node("P_CREATE_DB", obj(vec![("database", s("d")), ("meta", Json::Arr(vec![]))]))),
                dds(node(
                    "P_ALTER_DB",
                    obj(vec![
                        ("database", s("d")),
                        ("meta", Json::Arr(vec![node("O_ALTER_DB_SPEC", obj(vec![("collation", s("utf8_bin"))]))])),
                    ]),
                )),
                dds(node("P_DROP_DB", s("d"))),
            ]),
        ),
    ];
    let mut failures = Vec::new();
    for (key, query, want) in &goldens {
        match run_parsed(query) {
            Ok(got) => {
                if &got != want {
                    failures.push(format!("{} MISMATCH: {:?}", key, got));
                }
            },
            Err(e) => failures.push(format!("{} ERROR {}", key, e)),
        }
    }
    assert!(failures.is_empty(), "{} parser goldens failed:\n{}", failures.len(), failures.join("\n"));
}

#[test]
fn parser_golden_error_names_the_line() {
    assert_eq!(run_parsed("USE a;\nCREATE TABLE;"), Err("invalid syntax at line 2".to_string()));
    assert_eq!(run_parsed("CREATE TABLE t (\n  a INT\n  b INT\n);"), Err("invalid syntax at line 3".to_string()));
}
