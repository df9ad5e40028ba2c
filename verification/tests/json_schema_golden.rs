//! JSON Schema conformance: the documents with and without `$ref`.

use sql_ddl_to_json_schema::{Json, JsonSchemaOptions, Parser};

fn s(x: &str) -> Json {
    Json::Str(x.to_string())
}

fn n(x: &str) -> Json {
    Json::Num(x.to_string())
}

fn obj(v: Vec<(&str, Json)>) -> Json {
    Json::Obj(v.into_iter().map(|(k, v)| (k.to_string(), v)).collect())
}

fn run_json_schema(query: &str, use_ref: bool) -> Json {
    let mut p = Parser::new("mysql").unwrap();
    p.feed(query);
    Json::Arr(p.to_json_schema_array(Some(JsonSchemaOptions { use_ref }), None).expect("json schema should succeed"))
}

const QUERY: &str =
    "CREATE TABLE t (id INT NOT NULL AUTO_INCREMENT, name VARCHAR(30) COMMENT 'full name', PRIMARY KEY (id)) COMMENT 'people';";

fn defs() -> Json {
    obj(vec![
        (
            "id",
            obj(vec![
                ("$comment", s("primary key")),
                ("type", s("integer")),
                ("minimum", n("1")),
                ("maximum", n("2147483647")),
            ]),
        ),
        ("name", obj(vec![("description", s("full name")), ("type", s("string")), ("maxLength", n("30"))])),
    ])
}

fn head() -> Vec<(&'static str, Json)> {
    vec![
        ("$schema", s("http://json-schema.org/draft-07/schema")),
        ("$comment", s("JSON Schema for t table")),
        ("$id", s("t")),
        ("title", s("t")),
        ("description", s("people")),
        ("type", s("object")),
        ("required", Json::Arr(vec![s("id")])),
    ]
}

fn goldens() -> Vec<(&'static str, Json)> {
    let mut with_ref = head();
    with_ref.push(("definitions", defs()));
    with_ref.push((
        "properties",
        obj(vec![
            ("id", obj(vec![("$ref", s("#/definitions/id"))])),
            ("name", obj(vec![("$ref", s("#/definitions/name"))])),
        ]),
    ));
    let mut without_ref = head();
    without_ref.push(("properties", defs()));
    vec![("with ref", Json::Arr(vec![obj(with_ref)])), ("without ref", Json::Arr(vec![obj(without_ref)]))]
}

#[test]
fn json_schema_goldens_match() {
    let goldens = goldens();
    assert_eq!(goldens.len(), 2, "expected ref and no-ref goldens");
    for (description, want) in &goldens {
        let use_ref = description.contains("with ref");
        let got = run_json_schema(QUERY, use_ref);
        assert_eq!(&got, want, "{}", description);
    }
}
