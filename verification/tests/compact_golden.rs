//! Compact-model conformance on a set of queries and their expected tables.

use sql_ddl_to_json_schema::{Json, Parser};

fn s(x: &str) -> Json {
    Json::Str(x.to_string())
}

fn n(x: &str) -> Json {
    Json::Num(x.to_string())
}

fn b(x: bool) -> Json {
    Json::Bool(x)
}

fn arr(v: Vec<Json>) -> Json {
    Json::Arr(v)
}

fn obj(v: Vec<(&str, Json)>) -> Json {
    Json::Obj(v.into_iter().map(|(k, v)| (k.to_string(), v)).collect())
}

fn col(name: &str) -> Json {
    obj(vec![("column", s(name))])
}

fn run_compact(query: &str) -> Result<Json, String> {
    let mut p = Parser::new("mysql").unwrap();
    p.feed(query);
    p.to_compact_json(None).map(Json::Arr).map_err(|e| e.to_string())
}

fn goldens() -> Vec<(&'static str, &'static str, Json)> {
    let int = || obj(vec![("datatype", s("int"))]);
    vec![
        (
            "create table with primary key",
            "CREATE TABLE t (id INT NOT NULL AUTO_INCREMENT, name VARCHAR(30), PRIMARY KEY (id));",
            arr(vec![obj(vec![
                ("name", s("t")),
                (
                    "columns",
                    arr(vec![
                        obj(vec![
                            ("name", s("id")),
                            ("type", int()),
                            ("options", obj(vec![("nullable", b(false)), ("autoincrement", b(true))])),
                        ]),
                        obj(vec![
                            ("name", s("name")),
                            ("type", obj(vec![("datatype", s("varchar")), ("length", n("30"))])),
                            ("options", obj(vec![("nullable", b(true))])),
                        ]),
                    ]),
                ),
                ("primaryKey", obj(vec![("columns", arr(vec![col("id")]))])),
            ])]),
        ),
        (
            "column keys are extracted",
            "CREATE TABLE a (id INT PRIMARY KEY, b INT UNIQUE);",
            arr(vec![obj(vec![
                ("name", s("a")),
                (
                    "columns",
                    arr(vec![
                        obj(vec![("name", s("id")), ("type", int()), ("options", obj(vec![("nullable", b(false))]))]),
                        obj(vec![("name", s("b")), ("type", int()), ("options", obj(vec![("nullable", b(true))]))]),
                    ]),
                ),
                ("primaryKey", obj(vec![("columns", arr(vec![col("id")]))])),
                ("uniqueKeys", arr(vec![obj(vec![("columns", arr(vec![col("b")]))])])),
            ])]),
        ),
        (
            "alter table add spatial index",
            "CREATE TABLE g (p GEOMETRY NOT NULL); ALTER TABLE g ADD SPATIAL INDEX sp (p);",
            arr(vec![obj(vec![
                ("name", s("g")),
                (
                    "columns",
                    arr(vec![obj(vec![
                        ("name", s("p")),
                        ("type", obj(vec![("datatype", s("geometry"))])),
                        ("options", obj(vec![("nullable", b(false))])),
                    ])]),
                ),
                ("spatialIndexes", arr(vec![obj(vec![("columns", arr(vec![col("p")])), ("name", s("sp"))])])),
            ])]),
        ),
        (
            "column moved after itself keeps its place",
            "CREATE TABLE m (a INT, b INT); ALTER TABLE m CHANGE COLUMN b b INT AFTER b;",
            arr(vec![obj(vec![
                ("name", s("m")),
                (
                    "columns",
                    arr(vec![
                        obj(vec![("name", s("a")), ("type", int()), ("options", obj(vec![("nullable", b(true))]))]),
                        obj(vec![("name", s("b")), ("type", int()), ("options", obj(vec![("nullable", b(true))]))]),
                    ]),
                ),
            ])]),
        ),
        (
            "rename table",
            "CREATE TABLE a (x INT); RENAME TABLE a TO b;",
            arr(vec![obj(vec![
                ("name", s("b")),
                (
                    "columns",
                    arr(vec![obj(vec![("name", s("x")), ("type", int()), ("options", obj(vec![("nullable", b(true))]))])]),
                ),
            ])]),
        ),
        (
            "drop table",
            "CREATE TABLE a (x INT); CREATE TABLE b (y INT); DROP TABLE a;",
            arr(vec![obj(vec![
                ("name", s("b")),
                (
                    "columns",
                    arr(vec![obj(vec![("name", s("y")), ("type", int()), ("options", obj(vec![("nullable", b(true))]))])]),
                ),
            ])]),
        ),
    ]
}

#[test]
fn compact_goldens_match() {
    let goldens = goldens();
    assert!(!goldens.is_empty(), "expected compact goldens");
    let mut failures = Vec::new();
    for (key, query, want) in &goldens {
        match run_compact(query) {
            Ok(got) => {
                if &got != want {
                    failures.push(format!("{}: got {:?}", key, got));
                }
            },
            Err(e) => failures.push(format!("{}: error {}", key, e)),
        }
    }
    assert!(failures.is_empty(), "{} compact goldens failed: {:?}", failures.len(), failures);
}
