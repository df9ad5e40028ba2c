//! The streaming splitter: escaping, quoting and splitting.

use sql_ddl_to_json_schema::Parser;

#[test]
fn tracks_escape_quote_and_statements() {
    let mut p = Parser::new("mysql").unwrap();

    p.feed("a");
    assert!(!p.is_escaped());
    assert_eq!(p.quoted_char(), None);

    p.feed("\\");
    assert!(p.is_escaped());
    assert_eq!(p.quoted_char(), None);

    p.feed("\\");
    assert!(!p.is_escaped());
    assert_eq!(p.quoted_char(), None);

    p.feed("\\");
    assert!(p.is_escaped());
    p.feed("n");
    assert!(!p.is_escaped());
    assert_eq!(p.quoted_char(), None);

    p.feed("\"");
    assert!(!p.is_escaped());
    assert_eq!(p.quoted_char(), Some('"'));
    p.feed("\"");
    assert_eq!(p.quoted_char(), None);
    p.feed("\"a");
    assert_eq!(p.quoted_char(), Some('"'));
    p.feed("a\"");
    assert_eq!(p.quoted_char(), None);

    p.feed("'");
    assert_eq!(p.quoted_char(), Some('\''));
    p.feed("'");
    assert_eq!(p.quoted_char(), None);
    p.feed("'a");
    assert_eq!(p.quoted_char(), Some('\''));
    p.feed("a'");
    assert_eq!(p.quoted_char(), None);

    p.feed("`");
    assert_eq!(p.quoted_char(), Some('`'));
    p.feed("`");
    assert_eq!(p.quoted_char(), None);
    p.feed("`a");
    assert_eq!(p.quoted_char(), Some('`'));
    p.feed("a`");
    assert_eq!(p.quoted_char(), None);

    p.feed("`\\`");
    assert!(!p.is_escaped());
    assert_eq!(p.quoted_char(), Some('`'));
    p.feed("\\\\`");
    assert_eq!(p.quoted_char(), None);

    p.feed("\"\\");
    assert!(p.is_escaped());
    assert_eq!(p.quoted_char(), Some('"'));
    p.feed("\"a`");
    assert_eq!(p.quoted_char(), Some('"'));
    p.feed("'\\'");
    assert_eq!(p.quoted_char(), Some('"'));
    p.feed("\"");
    assert_eq!(p.quoted_char(), None);

    p.feed("\\;");
    assert!(!p.is_escaped());
    assert_eq!(p.quoted_char(), None);
    assert_eq!(p.statement_count(), 1);

    p.feed("a;");
    assert_eq!(p.statement_count(), 2);

    p.feed("a\";");
    assert_eq!(p.quoted_char(), Some('"'));
    assert_eq!(p.statement_count(), 2);

    p.feed("a\";");
    assert_eq!(p.quoted_char(), None);
    assert_eq!(p.statement_count(), 3);
}
