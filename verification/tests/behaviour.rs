//! Behaviour of the splitter, the table model and the schema formatter on
//! concrete inputs.

use sql_ddl_to_json_schema::compact::table::{Position, Table};
use sql_ddl_to_json_schema::{Json, JsonSchemaOptions, Parser};

fn s(x: &str) -> Json {
    Json::Str(x.to_string())
}

fn n(x: &str) -> Json {
    Json::Num(x.to_string())
}

fn obj(v: Vec<(&str, Json)>) -> Json {
    Json::Obj(v.into_iter().map(|(k, v)| (k.to_string(), v)).collect())
}

fn field<'a>(j: &'a Json, k: &str) -> &'a Json {
    j.get(k).unwrap_or_else(|| panic!("no field {} in {:?}", k, j))
}

fn items(j: &Json) -> &Vec<Json> {
    match j {
        Json::Arr(a) => a,
        other => panic!("not an array: {:?}", other),
    }
}

fn compact(query: &str) -> Vec<Json> {
    let mut p = Parser::new("").unwrap();
    p.feed(query);
    p.parse_compact().unwrap()
}

fn column_names(table: &Json) -> Vec<String> {
    items(field(table, "columns"))
        .iter()
        .map(|c| field(c, "name").as_str().unwrap().clone())
        .collect()
}

fn schema_of(query: &str, column: &str) -> Json {
    let mut p = Parser::new("mysql").unwrap();
    p.feed(query);
    let schemas = p.parse_json_schema(JsonSchemaOptions::default()).unwrap();
    field(field(&schemas[0], "definitions"), column).deep_clone()
}

#[test]
fn feeding_in_chunks_equals_feeding_at_once() {
    let text = "CREATE TABLE a (x VARCHAR(3) DEFAULT ';'); # c;d\nUSE `q;r`; /* ; */ USE z;";
    let whole = {
        let mut p = Parser::new("mysql").unwrap();
        p.feed(text);
        (p.statement_count(), p.is_escaped(), p.quoted_char(), p.parse().unwrap())
    };
    for size in 1..text.len() {
        let mut p = Parser::new("mysql").unwrap();
        let chars: Vec<char> = text.chars().collect();
        for chunk in chars.chunks(size) {
            let piece: String = chunk.iter().collect();
            p.feed(&piece);
        }
        let got = (p.statement_count(), p.is_escaped(), p.quoted_char(), p.parse().unwrap());
        assert_eq!(got, whole, "chunk size {}", size);
    }
    assert_eq!(whole.0, 3);
}

#[test]
fn semicolons_in_comments_do_not_split() {
    let mut p = Parser::new("mysql").unwrap();
    p.feed("USE a; -- one;two\n");
    assert_eq!(p.statement_count(), 1);
    p.feed("# three;four\r");
    assert_eq!(p.statement_count(), 1);
    p.feed("/");
    p.feed("* five; *");
    p.feed("/ USE b;");
    assert_eq!(p.statement_count(), 2);
    p.feed("a-;");
    assert_eq!(p.statement_count(), 3);
    p.feed("--;");
    assert_eq!(p.statement_count(), 4);
}

#[test]
fn parsing_empties_the_parser() {
    let mut p = Parser::new("mysql").unwrap();
    p.feed("USE a; USE \"b");
    assert_eq!(p.statement_count(), 1);
    assert_eq!(p.quoted_char(), Some('"'));
    p.parse().unwrap();
    assert_eq!(p.statement_count(), 0);
    assert_eq!(p.quoted_char(), None);
    assert!(!p.is_escaped());
}

#[test]
fn parse_error_empties_the_parser() {
    let mut p = Parser::new("mysql").unwrap();
    p.feed("USE a; NOT SQL; USE b;");
    assert_eq!(p.parse().unwrap_err().to_string(), "invalid syntax at line 1");
    assert_eq!(p.statement_count(), 0);
    assert_eq!(p.parse().unwrap(), obj(vec![("id", s("MAIN")), ("def", Json::Arr(vec![]))]));
}

#[test]
fn names_and_keywords_are_lowercased() {
    let tables = compact("CREATE TABLE t (c INTEGER, d VARCHAR(10) CHARACTER SET UTF8MB4 COLLATE UTF8MB4_BIN);");
    let cols = items(field(&tables[0], "columns"));
    assert_eq!(field(field(&cols[0], "type"), "datatype"), &s("int"));
    assert_eq!(field(field(&cols[1], "options"), "charset"), &s("utf8mb4"));
    assert_eq!(field(field(&cols[1], "options"), "collation"), &s("utf8mb4_bin"));
}

#[test]
fn index_lengths_come_from_the_column() {
    let tables = compact("CREATE TABLE t (c VARCHAR(20), d INT, INDEX i (c, d));");
    let index = &items(field(&tables[0], "indexes"))[0];
    assert_eq!(
        index,
        &obj(vec![
            (
                "columns",
                Json::Arr(vec![obj(vec![("column", s("c")), ("length", n("20"))]), obj(vec![("column", s("d"))])]),
            ),
            ("name", s("i")),
        ])
    );
}

#[test]
fn duplicate_and_second_autoincrement_columns_are_refused() {
    let tables = compact("CREATE TABLE t (a INT, a VARCHAR(3), b INT AUTO_INCREMENT, c INT AUTO_INCREMENT);");
    assert_eq!(column_names(&tables[0]), vec!["a", "b"]);
}

#[test]
fn last_column_is_never_dropped() {
    let tables = compact("CREATE TABLE t (a INT); ALTER TABLE t DROP COLUMN a;");
    assert_eq!(column_names(&tables[0]), vec!["a"]);
    let tables = compact("CREATE TABLE t (a INT, b INT, INDEX i (b)); ALTER TABLE t DROP COLUMN b;");
    assert_eq!(column_names(&tables[0]), vec!["a"]);
    assert!(tables[0].get("indexes").is_none());
}

#[test]
fn referenced_table_is_not_dropped_and_renames_follow() {
    let ddl = "CREATE TABLE p (id INT PRIMARY KEY); \
               CREATE TABLE c (pid INT, FOREIGN KEY (pid) REFERENCES p (id)); \
               DROP TABLE p; RENAME TABLE p TO q;";
    let tables = compact(ddl);
    assert_eq!(tables.len(), 2);
    assert_eq!(field(&tables[0], "name"), &s("q"));
    let fk = &items(field(&tables[1], "foreignKeys"))[0];
    assert_eq!(field(field(fk, "reference"), "table"), &s("q"));
}

#[test]
fn referenced_column_is_not_dropped() {
    let ddl = "CREATE TABLE p (id INT PRIMARY KEY, v INT); \
               CREATE TABLE c (pid INT, FOREIGN KEY (pid) REFERENCES p (id)); \
               ALTER TABLE p DROP COLUMN id;";
    let tables = compact(ddl);
    assert_eq!(column_names(&tables[0]), vec!["id", "v"]);
}

#[test]
fn columns_move_first_and_after() {
    let tables = compact("CREATE TABLE t (a INT, b INT, c INT); ALTER TABLE t CHANGE COLUMN c c INT FIRST;");
    assert_eq!(column_names(&tables[0]), vec!["c", "a", "b"]);
    let tables = compact("CREATE TABLE t (a INT, b INT, c INT); ALTER TABLE t CHANGE COLUMN a z INT AFTER b;");
    assert_eq!(column_names(&tables[0]), vec!["b", "z", "c"]);
}

#[test]
fn second_primary_key_is_refused() {
    let tables = compact("CREATE TABLE t (a INT PRIMARY KEY, b INT); ALTER TABLE t ADD PRIMARY KEY (b);");
    let pk = field(&tables[0], "primaryKey");
    assert_eq!(pk, &obj(vec![("columns", Json::Arr(vec![obj(vec![("column", s("a"))])]))]));
}

#[test]
fn set_pattern_escapes_metacharacters() {
    let schema = schema_of("CREATE TABLE t (c SET('a.b','c|d'));", "c");
    assert_eq!(field(&schema, "pattern"), &s("^(a\\.b|c\\|d)(,(a\\.b|c\\|d))*$"));
}

#[test]
fn decimal_bounds_for_whole_and_unsigned() {
    let schema = schema_of("CREATE TABLE t (c DECIMAL(5,0) UNSIGNED);", "c");
    assert_eq!(field(&schema, "maximum"), &n("99999"));
    assert_eq!(field(&schema, "minimum"), &n("0"));
    let schema = schema_of("CREATE TABLE t (c DECIMAL(2,2));", "c");
    assert_eq!(field(&schema, "maximum"), &n("0.99"));
    assert_eq!(field(&schema, "minimum"), &n("-0.99"));
}

#[test]
fn defaults_kept_or_dropped() {
    let schema = schema_of("CREATE TABLE t (c VARCHAR(5) DEFAULT 'abc');", "c");
    assert_eq!(field(&schema, "default"), &s("abc"));
    let schema = schema_of("CREATE TABLE t (c VARCHAR(5) DEFAULT '');", "c");
    assert!(schema.get("default").is_none());
    let schema = schema_of("CREATE TABLE t (c UUID DEFAULT 'x');", "c");
    assert!(schema.get("default").is_none());
    let schema = schema_of("CREATE TABLE t (c DATETIME);", "c");
    assert_eq!(schema, obj(vec![("type", s("string")), ("format", s("date-time"))]));
}

#[test]
fn required_lists_the_columns_that_are_not_nullable() {
    let mut p = Parser::new("mysql").unwrap();
    p.feed("CREATE TABLE t (a INT NOT NULL, b INT, c INT NOT NULL);");
    let schemas = p.parse_json_schema(JsonSchemaOptions { use_ref: false }).unwrap();
    assert_eq!(field(&schemas[0], "required"), &Json::Arr(vec![s("a"), s("c")]));
    assert!(schemas[0].get("definitions").is_none());
}

#[test]
fn formatting_a_given_tree_leaves_the_parser_alone() {
    let mut p = Parser::new("mysql").unwrap();
    p.feed("USE a;");
    let tree = obj(vec![("id", s("MAIN")), ("def", Json::Arr(vec![]))]);
    assert_eq!(p.to_compact_json(Some(tree)).unwrap(), Vec::<Json>::new());
    assert_eq!(p.statement_count(), 1);
}

#[test]
fn a_table_column_changes_in_place() {
    let mut p = Parser::new("mysql").unwrap();
    p.feed("CREATE TABLE t (a INT, b INT);");
    let tree = p.parse().unwrap();
    let stmt = &items(field(&tree, "def"))[0];
    let common = field(field(stmt, "def"), "def");
    let mut table = Table::from_common_def(common);
    assert_eq!(table.column_index("b"), Some(1));
    match table.get_column_mut("b") {
        Some(c) => c.name = "c".to_string(),
        None => panic!("no column b"),
    }
    assert_eq!(table.column_index("c"), Some(1));
    assert!(table.get_column_mut("b").is_none());
    assert!(table.move_column("c", &Position::First));
    assert_eq!(column_names(&table.to_json()), vec!["c", "a"]);
}

#[test]
fn create_table_like_copies_without_foreign_keys() {
    let tables = compact("CREATE TABLE a (x INT, FOREIGN KEY (x) REFERENCES b (y)); CREATE TABLE c LIKE a;");
    assert_eq!(tables.len(), 2);
    let fk = &items(field(&tables[0], "foreignKeys"))[0];
    assert_eq!(
        fk,
        &obj(vec![
            ("columns", Json::Arr(vec![obj(vec![("column", s("x"))])])),
            (
                "reference",
                obj(vec![("table", s("b")), ("columns", Json::Arr(vec![obj(vec![("column", s("y"))])]))]),
            ),
        ])
    );
    assert_eq!(field(&tables[1], "name"), &s("c"));
    assert_eq!(column_names(&tables[1]), vec!["x"]);
    assert!(tables[1].get("foreignKeys").is_none());
}

#[test]
fn create_and_drop_index_statements() {
    let tables = compact("CREATE TABLE t (a VARCHAR(5)); CREATE UNIQUE INDEX u ON t (a);");
    assert_eq!(
        field(&tables[0], "uniqueKeys"),
        &Json::Arr(vec![obj(vec![
            ("columns", Json::Arr(vec![obj(vec![("column", s("a")), ("length", n("5"))])])),
            ("name", s("u")),
        ])])
    );
    let tables = compact("CREATE TABLE t (a VARCHAR(5)); CREATE UNIQUE INDEX u ON t (a); DROP INDEX u ON t;");
    assert!(tables[0].get("uniqueKeys").is_none());
}

#[test]
fn alter_defaults_and_index_names() {
    let ddl = "CREATE TABLE t (a VARCHAR(5), INDEX i (a)); \
               ALTER TABLE t ALTER COLUMN a SET DEFAULT 'z'; \
               ALTER TABLE t RENAME INDEX i TO j;";
    let tables = compact(ddl);
    let col = &items(field(&tables[0], "columns"))[0];
    assert_eq!(field(field(col, "options"), "default"), &s("z"));
    assert_eq!(field(&items(field(&tables[0], "indexes"))[0], "name"), &s("j"));
    let tables = compact("CREATE TABLE t (a VARCHAR(5) DEFAULT 'q'); ALTER TABLE t ALTER COLUMN a DROP DEFAULT;");
    let col = &items(field(&tables[0], "columns"))[0];
    assert!(field(col, "options").get("default").is_none());
}

#[test]
fn foreign_keys_are_dropped_by_name() {
    let ddl = "CREATE TABLE p (id INT PRIMARY KEY); \
               CREATE TABLE c (pid INT, CONSTRAINT fk FOREIGN KEY (pid) REFERENCES p (id)); \
               ALTER TABLE c DROP FOREIGN KEY fk;";
    let tables = compact(ddl);
    assert!(tables[1].get("foreignKeys").is_none());
}

#[test]
fn table_options_merge_in_their_order() {
    let tables = compact("CREATE TABLE t (a INT) ENGINE=InnoDB; ALTER TABLE t COMMENT 'x';");
    assert_eq!(field(&tables[0], "options"), &obj(vec![("comment", s("x")), ("engine", s("InnoDB"))]));
}
