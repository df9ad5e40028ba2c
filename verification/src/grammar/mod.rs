//! Recursive-descent grammar that turns a token stream into a parse tree.
//!
//! Each `P_DDS` is one statement. The dispatcher tries statement rules in
//! order and takes the first that consumes the whole statement.

pub mod alter_table;
pub mod common;
pub mod create_table;
pub mod datatypes;
pub mod helpers;
pub mod statements;
pub mod stream;

use vstd::prelude::*;

use crate::json::{chars_of, is_node, node, Json, JsonV};
use crate::lexer::{spec_lex, tokenize, view_tokens, SToken, Token};

use create_table::{create_table_reach, spec_create_table};
use alter_table::{alter_table_reach, spec_alter_table};
use datatypes::{alt_reach, first_of};
use statements::{
    alter_db_def, node_v, pairs_v, spec_alter_db, spec_create_db, spec_create_index, spec_drop_db,
    spec_drop_index, spec_drop_table, spec_rename_table_stmt, spec_set, spec_use_db, str_arr_v, create_db_reach,
    create_index_reach, alter_db_reach, drop_db_reach, drop_table_reach, drop_index_reach, rename_table_reach,
    set_stmt_reach, use_db_reach,
};
use stream::{frame, mx, reached, ws_end, Stream};

verus! {

broadcast use stream::lemma_stream_bounds;

/// A parse error carrying the line number where parsing failed.
#[derive(Debug, Clone)]
pub struct ParseError {
    /// Line within the statement, counting from 1.
    pub line: usize,
}

/// The number of line feeds in a text.
pub open spec fn count_nl(s: Seq<char>) -> nat
    decreases s.len(),
{
    if s.len() == 0 {
        0
    } else {
        count_nl(s.drop_last()) + if s.last() == '\n' {
            1nat
        } else {
            0nat
        }
    }
}

/// The line feeds in the values of the first `pos` tokens.
pub open spec fn nl_before(ts: Seq<SToken>, pos: int) -> nat
    decreases pos,
{
    if pos <= 0 || ts.len() == 0 {
        0
    } else if pos > ts.len() {
        nl_before(ts, ts.len() as int)
    } else {
        nl_before(ts, pos - 1) + count_nl(ts[pos - 1].value)
    }
}

/// The line, counting from 1, of the token at `pos`: one more than the line
/// feeds in the values before it (capped at the largest `usize`).
pub open spec fn spec_line_at(ts: Seq<SToken>, pos: int) -> int {
    let l: int = 1 + nl_before(ts, pos) as int;
    if l <= usize::MAX {
        l
    } else {
        usize::MAX as int
    }
}

/// Counts line feeds in a text, capped at `cap`.
fn count_line_feeds(s: &str, start: usize) -> (r: usize)
    ensures
        r == if start + count_nl(s@) <= usize::MAX {
            start + count_nl(s@)
        } else {
            usize::MAX as int
        },
{
    let cs = chars_of(s);
    let mut n = start;
    let mut i: usize = 0;
    while i < cs.len()
        invariant
            0 <= i <= cs@.len(),
            cs@ == s@,
            n == if start + count_nl(cs@.take(i as int)) <= usize::MAX {
                start + count_nl(cs@.take(i as int))
            } else {
                usize::MAX as int
            },
        decreases cs@.len() - i,
    {
        assert(cs@.take(i + 1).drop_last() =~= cs@.take(i as int));
        if cs[i] == '\n' && n < usize::MAX {
            n += 1;
        }
        i += 1;
    }
    assert(cs@.take(cs@.len() as int) =~= cs@);
    n
}

/// Compute the 1-based line number at a token position by counting line
/// feeds in the values before it.
pub fn line_at(tokens: &[Token], pos: usize) -> (r: usize)
    ensures
        r == spec_line_at(view_tokens(tokens@), pos as int),
{
    let end = if pos < tokens.len() {
        pos
    } else {
        tokens.len()
    };
    let mut line: usize = 1;
    let mut i: usize = 0;
    while i < end
        invariant
            0 <= i <= end,
            end <= tokens@.len(),
            line == spec_line_at(view_tokens(tokens@), i as int),
        decreases end - i,
    {
        line = count_line_feeds(tokens[i].value.as_str(), line);
        proof {
            assert(view_tokens(tokens@)[i as int] == tokens@[i as int]@);
        }
        i += 1;
    }
    assert(spec_line_at(view_tokens(tokens@), pos as int) == spec_line_at(view_tokens(tokens@), end as int));
    line
}

/// The `CREATE DATABASE` rule as a node.
pub open spec fn create_db_node(ts: Seq<SToken>, p: int) -> Option<(int, JsonV)> {
    match spec_create_db(ts, p) {
        Some((e, db, meta)) => Some(
            (
                e,
                node_v("P_CREATE_DB"@, JsonV::Obj(seq![("database"@, JsonV::Str(db)), ("meta"@, JsonV::Arr(meta))])),
            ),
        ),
        None => None,
    }
}

/// The `ALTER DATABASE` rule as a node.
pub open spec fn alter_db_node(ts: Seq<SToken>, p: int) -> Option<(int, JsonV)> {
    match spec_alter_db(ts, p) {
        Some((e, db, meta)) => Some((e, node_v("P_ALTER_DB"@, alter_db_def(db, meta)))),
        None => None,
    }
}

/// The `DROP DATABASE` rule as a node.
pub open spec fn drop_db_node(ts: Seq<SToken>, p: int) -> Option<(int, JsonV)> {
    match spec_drop_db(ts, p) {
        Some((e, db)) => Some((e, node_v("P_DROP_DB"@, JsonV::Str(db)))),
        None => None,
    }
}

/// The `DROP TABLE` rule as a node.
pub open spec fn drop_table_node(ts: Seq<SToken>, p: int) -> Option<(int, JsonV)> {
    match spec_drop_table(ts, p) {
        Some((e, names)) => Some((e, node_v("P_DROP_TABLE"@, str_arr_v(names)))),
        None => None,
    }
}

/// The `DROP INDEX` rule as a node.
pub open spec fn drop_index_node(ts: Seq<SToken>, p: int) -> Option<(int, JsonV)> {
    match spec_drop_index(ts, p) {
        Some((e, index, table, opts)) => Some(
            (
                e,
                node_v(
                    "P_DROP_INDEX"@,
                    JsonV::Obj(
                        seq![
                            ("index"@, JsonV::Str(index)),
                            ("table"@, JsonV::Str(table)),
                            ("options"@, JsonV::Arr(opts)),
                        ],
                    ),
                ),
            ),
        ),
        None => None,
    }
}

/// The `RENAME TABLE` rule as a node.
pub open spec fn rename_table_node(ts: Seq<SToken>, p: int) -> Option<(int, JsonV)> {
    match spec_rename_table_stmt(ts, p) {
        Some((e, pairs)) => Some((e, node_v("P_RENAME_TABLE"@, pairs_v(pairs)))),
        None => None,
    }
}

/// The `SET` rule as a node.
pub open spec fn set_node(ts: Seq<SToken>, p: int) -> Option<(int, JsonV)> {
    match spec_set(ts, p) {
        Some(e) => Some((e, JsonV::Obj(seq![("id"@, JsonV::Str("P_SET"@))]))),
        None => None,
    }
}

/// The `USE` rule as a node.
pub open spec fn use_db_node(ts: Seq<SToken>, p: int) -> Option<(int, JsonV)> {
    match spec_use_db(ts, p) {
        Some((e, db)) => Some((e, node_v("P_USE_DB"@, JsonV::Obj(seq![("database"@, JsonV::Str(db))])))),
        None => None,
    }
}

/// A statement at `p`: the first rule that matches, in the order create
/// database, create table, create index, alter database, alter table, drop
/// database, drop table, drop index, rename table, set, use; its end and
/// node.
#[verifier::opaque]
pub open spec fn statement_at(ts: Seq<SToken>, p: int) -> Option<(int, JsonV)> {
    first_of(
        create_db_node(ts, p),
        first_of(
            spec_create_table(ts, p),
            first_of(
                spec_create_index(ts, p),
                first_of(
                    alter_db_node(ts, p),
                    first_of(
                        spec_alter_table(ts, p),
                        first_of(
                            drop_db_node(ts, p),
                            first_of(
                                drop_table_node(ts, p),
                                first_of(
                                    drop_index_node(ts, p),
                                    first_of(
                                        rename_table_node(ts, p),
                                        first_of(set_node(ts, p), use_db_node(ts, p)),
                                    ),
                                ),
                            ),
                        ),
                    ),
                ),
            ),
        ),
    )
}

/// How far an attempt at each statement rule in turn at `p`, up to the first
/// that matches, reads.
#[verifier::opaque]
pub open spec fn statement_reach(ts: Seq<SToken>, p: int) -> int {
    alt_reach(
        create_db_node(ts, p) is Some,
        create_db_reach(ts, p),
        alt_reach(
            spec_create_table(ts, p) is Some,
            create_table_reach(ts, p),
            alt_reach(
                spec_create_index(ts, p) is Some,
                create_index_reach(ts, p),
                alt_reach(
                    alter_db_node(ts, p) is Some,
                    alter_db_reach(ts, p),
                    alt_reach(
                        spec_alter_table(ts, p) is Some,
                        alter_table_reach(ts, p),
                        alt_reach(
                            drop_db_node(ts, p) is Some,
                            drop_db_reach(ts, p),
                            alt_reach(
                                drop_table_node(ts, p) is Some,
                                drop_table_reach(ts, p),
                                alt_reach(
                                    drop_index_node(ts, p) is Some,
                                    drop_index_reach(ts, p),
                                    alt_reach(
                                        rename_table_node(ts, p) is Some,
                                        rename_table_reach(ts, p),
                                        alt_reach(set_node(ts, p) is Some, set_stmt_reach(ts, p), use_db_reach(ts, p)),
                                    ),
                                ),
                            ),
                        ),
                    ),
                ),
            ),
        ),
    )
}

/// The furthest token any rule reached while parsing a statement: after the
/// leading whitespace, the furthest any statement rule read, and, when one
/// matched, the end of the whitespace behind it.
pub open spec fn furthest_reached(ts: Seq<SToken>) -> int {
    let p0 = ws_end(ts, 0);
    let r = mx(p0, statement_reach(ts, p0));
    match statement_at(ts, p0) {
        Some((e, _)) => mx(r, ws_end(ts, e)),
        None => r,
    }
}

/// The parse tree of one statement: after leading whitespace, a statement
/// that only whitespace follows, as a `P_DDS` node; none when the text is
/// no such statement.
pub open spec fn spec_parse_statement(input: Seq<char>) -> Option<JsonV> {
    let ts = spec_lex(input, 0);
    match statement_at(ts, ws_end(ts, 0)) {
        Some((e, v)) => if ws_end(ts, e) >= ts.len() {
            Some(node_v("P_DDS"@, v))
        } else {
            None
        },
        None => None,
    }
}

/// The furthest position a parse reached, counting the current position.
fn furthest_or_pos(s: &Stream) -> (r: usize)
    ensures
        r == s.spec_furthest(),
{
    let f = s.furthest();
    let p = s.pos();
    if f >= p {
        f
    } else {
        p
    }
}

/// Parse one statement string into a `P_DDS` node.
///
/// Leading and trailing whitespace is allowed. On failure the error carries
/// the line of the furthest token any rule reached.
pub fn parse_statement(input: &str) -> (r: Result<Json, ParseError>)
    ensures
        r matches Ok(v) ==> is_node(v@, "P_DDS"@),
        match spec_parse_statement(input@) {
            Some(v) => r matches Ok(x) && x@ == v,
            None => r is Err,
        },
        r matches Err(e) ==> e.line == spec_line_at(spec_lex(input@, 0), furthest_reached(spec_lex(input@, 0))),
{
    let tokens = match tokenize(input) {
        Ok(t) => t,
        Err(e) => return Err(ParseError { line: e.line }),
    };
    let mut s = Stream::new(tokens.as_slice());
    proof {
        assert(view_tokens(tokens@).len() == tokens@.len());
        reveal(statement_reach);
    }
    // `P_DDS -> _ ( <statement> _ )`.
    s.ws0();
    let inner = match dispatch(&mut s) {
        Some(v) => v,
        None => {
            let f = furthest_or_pos(&s);
            return Err(ParseError { line: line_at(tokens.as_slice(), f) });
        },
    };
    s.ws0();
    if !s.at_end() {
        let f = furthest_or_pos(&s);
        return Err(ParseError { line: line_at(tokens.as_slice(), f) });
    }
    Ok(node("P_DDS", inner))
}

/// Try each statement rule in order, restoring the cursor between tries.
#[verifier::rlimit(100)]
fn dispatch(s: &mut Stream) -> (r: Option<Json>)
    ensures
        frame(*old(s), *final(s)),
        reached(*old(s), *final(s), statement_reach(old(s).spec_tokens(), old(s).spec_pos())),
        match statement_at(old(s).spec_tokens(), old(s).spec_pos()) {
            Some((e, v)) => r matches Some(x) && x@ == v && final(s).spec_pos() == e,
            None => r is None,
        },
{
    proof {
        reveal(statement_at);
        reveal(statement_reach);
    }
    let save = s.pos();
    if let Some(v) = statements::p_create_db(s) {
        return Some(v);
    }
    s.set(save);
    if let Some(v) = create_table::p_create_table(s) {
        return Some(v);
    }
    s.set(save);
    if let Some(v) = statements::p_create_index(s) {
        return Some(v);
    }
    s.set(save);
    if let Some(v) = statements::p_alter_db(s) {
        return Some(v);
    }
    s.set(save);
    if let Some(v) = alter_table::p_alter_table(s) {
        return Some(v);
    }
    s.set(save);
    if let Some(v) = statements::p_drop_db(s) {
        return Some(v);
    }
    s.set(save);
    if let Some(v) = statements::p_drop_table(s) {
        return Some(v);
    }
    s.set(save);
    if let Some(v) = statements::p_drop_index(s) {
        return Some(v);
    }
    s.set(save);
    if let Some(v) = statements::p_rename_table(s) {
        return Some(v);
    }
    s.set(save);
    if let Some(v) = statements::p_set(s) {
        return Some(v);
    }
    s.set(save);
    if let Some(v) = statements::p_use_db(s) {
        return Some(v);
    }
    s.set(save);
    None
}

} // verus!
