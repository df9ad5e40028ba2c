//! Statement-level parsing.

use sql_ddl_to_json_schema::grammar::parse_statement;

#[test]
fn set_accepts_quoted_string_assignment() {
    let parsed = parse_statement("SET sql_mode='ANSI';").unwrap();
    let def = parsed.get("def").expect("a def");
    assert_eq!(def.get_str("id").map(|s| s.as_str()), Some("P_SET"));
}
