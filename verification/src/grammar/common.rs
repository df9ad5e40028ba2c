//! Grammar rules shared across statements: index columns, index options,
//! column definitions, and column references.

use vstd::prelude::*;

use crate::json::{concat2, concat3, is_node, node, obj1, put, string_of, Json, JsonV};
use crate::lexer::{SKind, SToken, TokenKind};

use super::create_table::word_at;
use super::datatypes::{alt_reach, datatype_at, datatype_reach, first_of, o_datatype};
use super::helpers::{o_quoted_string, o_string_or_ident, s_identifier, s_number};
use super::statements::{ident_at, node_v, ws1_end};
use super::stream::{frame, is_keyword_at, is_kind_at, mx, reached, ws_end, Stream};

verus! {

broadcast use super::stream::lemma_stream_bounds;

/// Whether the token at `p` is one of the keywords `names`.
pub open spec fn one_of_at(ts: Seq<crate::lexer::SToken>, p: int, names: Seq<&str>) -> bool {
    exists|i: int| 0 <= i < names.len() && is_keyword_at(ts, p, #[trigger] names[i]@)
}

/// Consume one keyword from a list, returning its raw value.
pub fn one_of_keywords(s: &mut Stream, names: &[&str]) -> (r: Option<String>)
    ensures
        frame(*old(s), *final(s)),
        match r {
            Some(v) => {
                &&& one_of_at(old(s).spec_tokens(), old(s).spec_pos(), names@)
                &&& v@ == old(s).spec_tokens()[old(s).spec_pos()].value
                &&& final(s).spec_pos() == old(s).spec_pos() + 1
                &&& reached(*old(s), *final(s), final(s).spec_pos())
            },
            None => {
                &&& !one_of_at(old(s).spec_tokens(), old(s).spec_pos(), names@)
                &&& final(s).spec_pos() == old(s).spec_pos()
                &&& final(s).spec_furthest() == old(s).spec_furthest()
            },
        },
{
    let mut i: usize = 0;
    while i < names.len()
        invariant
            0 <= i <= names@.len(),
            s.spec_tokens() == old(s).spec_tokens(),
            s.spec_pos() == old(s).spec_pos(),
            s.spec_furthest() == old(s).spec_furthest(),
            s.spec_mark() >= old(s).spec_mark(),
            forall|j: int|
                0 <= j < i ==> !is_keyword_at(s.spec_tokens(), s.spec_pos(), #[trigger] names@[j]@),
        decreases names@.len() - i,
    {
        if let Some(v) = s.eat_keyword(names[i]) {
            return Some(v);
        }
        i += 1;
    }
    None
}

/// Match the separator `( __ | _ = _ )` used between an option and its
/// value: whitespace, then an `=` with optional whitespace after it if one
/// follows; at least some whitespace or the `=` must be present.
pub fn ws_or_equals(s: &mut Stream) -> (r: bool)
    ensures
        frame(*old(s), *final(s)),
        ({
            let ts = old(s).spec_tokens();
            let p1 = ws_end(ts, old(s).spec_pos());
            if is_kind_at(ts, p1, SKind::Equal) {
                r && final(s).spec_pos() == ws_end(ts, p1 + 1)
            } else if p1 > old(s).spec_pos() {
                r && final(s).spec_pos() == p1
            } else {
                !r && final(s).spec_pos() == old(s).spec_pos()
            }
        }),
        reached(*old(s), *final(s), final(s).spec_pos()),
{
    let save = s.pos();
    let had_ws = s.ws1();
    if s.eat(&TokenKind::Equal).is_some() {
        s.ws0();
        return true;
    }
    if had_ws {
        return true;
    }
    s.set(save);
    false
}

/// The sort words of an index column.
pub open spec fn sort_words() -> Seq<&'static str> {
    seq!["ASC", "DESC"]
}

/// The definition of an index column: the column, then its length and sort
/// where given.
pub open spec fn index_column_def(col: Seq<char>, len: Option<Seq<char>>, sort: Option<Seq<char>>) -> JsonV {
    let a = seq![("column"@, JsonV::Str(col))];
    let b = match len {
        Some(l) => a.push(("length"@, JsonV::Num(l))),
        None => a,
    };
    JsonV::Obj(
        match sort {
            Some(o) => b.push(("sort"@, JsonV::Str(o))),
            None => b,
        },
    )
}

/// An optional `_ ( _ n _ )` after `p`: where it ends and the number.
pub open spec fn paren_number_at(ts: Seq<crate::lexer::SToken>, p: int) -> (int, Option<Seq<char>>) {
    let a = ws_end(ts, p);
    let b = ws_end(ts, a + 1);
    let c = ws_end(ts, b + 1);
    if is_kind_at(ts, a, SKind::LParens) && is_kind_at(ts, b, SKind::Number) && is_kind_at(ts, c, SKind::RParens) {
        (c + 1, Some(ts[b].value))
    } else {
        (p, None)
    }
}

/// How far an attempt at `_ ( _ n _ )` from `p` reads: to the first token
/// that does not fit, or past the `)`.
pub open spec fn paren_number_reach(ts: Seq<crate::lexer::SToken>, p: int) -> int {
    let a = ws_end(ts, p);
    let b = ws_end(ts, a + 1);
    let c = ws_end(ts, b + 1);
    if !is_kind_at(ts, a, SKind::LParens) {
        a
    } else if !is_kind_at(ts, b, SKind::Number) {
        b
    } else if !is_kind_at(ts, c, SKind::RParens) {
        c
    } else {
        c + 1
    }
}

/// An index column `ident [ ( n ) ] [ASC | DESC]` at `p`: its end and node.
pub open spec fn index_column_at(ts: Seq<crate::lexer::SToken>, p: int) -> Option<(int, JsonV)> {
    match ident_at(ts, p) {
        None => None,
        Some(col) => {
            let (p2, len) = paren_number_at(ts, p + 1);
            let d = ws_end(ts, p2);
            let (p3, sort) = if one_of_at(ts, d, sort_words()) {
                (d + 1, Some(ts[d].value))
            } else {
                (p2, None::<Seq<char>>)
            };
            Some((p3, node_v("P_INDEX_COLUMN"@, index_column_def(col, len, sort))))
        },
    }
}

/// How far an attempt at an index column at `p` reads.
pub open spec fn index_column_reach(ts: Seq<SToken>, p: int) -> int {
    if ident_at(ts, p) is None {
        p
    } else {
        let d = ws_end(ts, paren_number_at(ts, p + 1).0);
        mx(mx(p + 1, paren_number_reach(ts, p + 1)), if one_of_at(ts, d, sort_words()) { d + 1 } else { d })
    }
}

/// How far the further index columns `, column` from `p` read.
pub open spec fn index_column_rest_reach(ts: Seq<SToken>, p: int) -> int
    decreases ts.len() - p,
{
    let a = ws_end(ts, p);
    let b = ws_end(ts, a + 1);
    if p >= 0 && is_kind_at(ts, a, SKind::Comma) {
        match index_column_at(ts, b) {
            Some((e, _)) => if p < e <= ts.len() {
                mx(mx(p, mx(b, index_column_reach(ts, b))), index_column_rest_reach(ts, e))
            } else {
                mx(p, mx(b, index_column_reach(ts, b)))
            },
            None => mx(p, mx(b, index_column_reach(ts, b))),
        }
    } else {
        mx(p, a)
    }
}

/// How far an attempt at `_ ( _ column, ... _ )` from `p` reads.
pub open spec fn index_columns_reach(ts: Seq<SToken>, p: int) -> int {
    let a = ws_end(ts, p);
    let b = ws_end(ts, a + 1);
    if !is_kind_at(ts, a, SKind::LParens) {
        a
    } else {
        match index_column_at(ts, b) {
            None => mx(b, index_column_reach(ts, b)),
            Some((e1, c1)) => {
                let e2 = index_column_rest(ts, e1, seq![c1]).0;
                let f = ws_end(ts, e2);
                mx(
                    mx(b, index_column_reach(ts, b)),
                    mx(index_column_rest_reach(ts, e1), if is_kind_at(ts, f, SKind::RParens) { f + 1 } else { f }),
                )
            },
        }
    }
}

/// How far an attempt at `USING __ type` at `p` reads.
pub open spec fn index_type_reach(ts: Seq<SToken>, p: int) -> int {
    if !is_keyword_at(ts, p, "USING"@) {
        p
    } else {
        let a = ws_end(ts, p + 1);
        if a > p + 1 && one_of_at(ts, a, index_type_words()) {
            a + 1
        } else {
            a
        }
    }
}

/// How far `kw __ x` reads at `p`, where `fits` says whether the token `x`
/// after the whitespace fits: past it, or to it.
pub open spec fn kw_ws_reach(ts: Seq<SToken>, p: int, kw: Seq<char>, fits: bool) -> int {
    if !is_keyword_at(ts, p, kw) {
        p
    } else {
        let a = ws_end(ts, p + 1);
        if a > p + 1 && fits {
            a + 1
        } else {
            a
        }
    }
}

/// How far an attempt at an index option at `p` reads.
pub open spec fn index_option_reach(ts: Seq<SToken>, p: int) -> int {
    let kbs_q = match ws_eq_end(ts, p + 1) {
        Some(q) => q,
        None => p + 1,
    };
    let kbs_ok = is_keyword_at(ts, p, "KEY_BLOCK_SIZE"@) && ws_eq_end(ts, p + 1) is Some && is_kind_at(
        ts,
        kbs_q,
        SKind::Number,
    );
    let kbs = if !is_keyword_at(ts, p, "KEY_BLOCK_SIZE"@) {
        p
    } else if kbs_ok {
        kbs_q + 1
    } else {
        kbs_q
    };
    let a = ws_end(ts, p + 1);
    let b = ws_end(ts, a + 1);
    let with_ok = is_keyword_at(ts, p, "WITH"@) && a > p + 1 && is_keyword_at(ts, a, "PARSER"@) && b > a + 1
        && ident_at(ts, b) is Some;
    let with = if !is_keyword_at(ts, p, "WITH"@) {
        p
    } else if !(a > p + 1 && is_keyword_at(ts, a, "PARSER"@)) {
        a
    } else if b > a + 1 && ident_at(ts, b) is Some {
        b + 1
    } else {
        b
    };
    let comment = kw_ws_reach(
        ts,
        p,
        "COMMENT"@,
        0 <= a < ts.len() && super::helpers::is_string_kind(ts[a].kind),
    );
    alt_reach(kbs_ok, kbs, alt_reach(index_type_at(ts, p) is Some, index_type_reach(ts, p), alt_reach(with_ok, with, comment)))
}

/// How far the index options from `p` read.
pub open spec fn index_options_reach(ts: Seq<SToken>, p: int) -> int
    decreases ts.len() - p,
{
    let a = ws_end(ts, p);
    match index_option_at(ts, a) {
        Some((e, _)) => if p < e <= ts.len() {
            mx(mx(p, mx(a, index_option_reach(ts, a))), index_options_reach(ts, e))
        } else {
            mx(p, mx(a, index_option_reach(ts, a)))
        },
        None => mx(p, mx(a, index_option_reach(ts, a))),
    }
}

/// How far an attempt at `key ( __ | = ) word` at `p` reads.
pub open spec fn keyed_word_reach(ts: Seq<SToken>, p: int, key: Seq<char>, words: Seq<&str>) -> int {
    if !is_keyword_at(ts, p, key) {
        p
    } else {
        match ws_eq_end(ts, p + 1) {
            None => p + 1,
            Some(q) => if one_of_at(ts, q, words) {
                q + 1
            } else {
                q
            },
        }
    }
}

/// How far an attempt at `_ ( _ [n] _ )` from `p` reads.
pub open spec fn paren_suffix_reach(ts: Seq<SToken>, p: int) -> int {
    let a = ws_end(ts, p);
    let b = ws_end(ts, a + 1);
    let c = if is_kind_at(ts, b, SKind::Number) {
        ws_end(ts, b + 1)
    } else {
        ws_end(ts, b)
    };
    if !is_kind_at(ts, a, SKind::LParens) {
        a
    } else {
        mx(b, if is_kind_at(ts, c, SKind::RParens) { c + 1 } else { c })
    }
}

/// How far an attempt at a default value at `p` reads.
pub open spec fn default_value_reach(ts: Seq<SToken>, p: int) -> int {
    if !(0 <= p < ts.len()) {
        p
    } else {
        let k = ts[p].kind;
        if k is Number || k is BitFormat || k is HexaFormat {
            p + 1
        } else if super::helpers::is_ident_kind(k) {
            mx(p + 1, paren_suffix_reach(ts, p + 1))
        } else if super::helpers::is_string_kind(k) {
            p + 1
        } else {
            p
        }
    }
}

/// How far an attempt at a sign, charset, collation, nullability or default
/// attribute at `p` reads.
pub open spec fn attr_head_reach(ts: Seq<SToken>, p: int) -> int {
    let a = ws_end(ts, p + 1);
    let b = ws_end(ts, a + 1);
    if is_keyword_at(ts, p, "UNSIGNED"@) || is_keyword_at(ts, p, "ZEROFILL"@) || is_keyword_at(ts, p, "NULL"@) {
        p + 1
    } else if is_keyword_at(ts, p, "CHARSET"@) || is_keyword_at(ts, p, "COLLATE"@) {
        if a > p + 1 && word_at(ts, a) is Some {
            a + 1
        } else {
            a
        }
    } else if is_keyword_at(ts, p, "CHARACTER"@) {
        if !(a > p + 1 && is_keyword_at(ts, a, "SET"@)) {
            a
        } else if b > a + 1 && word_at(ts, b) is Some {
            b + 1
        } else {
            b
        }
    } else if is_keyword_at(ts, p, "NOT"@) {
        if a > p + 1 && is_keyword_at(ts, a, "NULL"@) {
            a + 1
        } else {
            a
        }
    } else if is_keyword_at(ts, p, "DEFAULT"@) {
        if a > p + 1 {
            mx(a, default_value_reach(ts, a))
        } else {
            a
        }
    } else {
        p
    }
}

/// How far an attempt at an auto increment, key or comment attribute at `p`
/// reads.
pub open spec fn attr_keys_reach(ts: Seq<SToken>, p: int) -> int {
    let a = ws_end(ts, p + 1);
    if is_keyword_at(ts, p, "AUTO_INCREMENT"@) || is_keyword_at(ts, p, "KEY"@) {
        p + 1
    } else if is_keyword_at(ts, p, "UNIQUE"@) {
        if is_keyword_at(ts, a, "KEY"@) {
            a + 1
        } else {
            a
        }
    } else if is_keyword_at(ts, p, "PRIMARY"@) {
        if a > p + 1 && is_keyword_at(ts, a, "KEY"@) {
            a + 1
        } else {
            a
        }
    } else if is_keyword_at(ts, p, "COMMENT"@) {
        if a > p + 1 && 0 <= a < ts.len() && super::helpers::is_string_kind(ts[a].kind) {
            a + 1
        } else {
            a
        }
    } else {
        p
    }
}

/// How far an attempt at `__ kw1 __ kw2` from `p` reads.
pub open spec fn two_words_reach(ts: Seq<SToken>, p: int, kw1: Seq<char>, kw2: Seq<char>) -> int {
    let a = ws_end(ts, p);
    let b = ws_end(ts, a + 1);
    if !(a > p && is_keyword_at(ts, a, kw1)) {
        a
    } else if b > a + 1 && is_keyword_at(ts, b, kw2) {
        b + 1
    } else {
        b
    }
}

/// How far an attempt at `__ kw1 __ kw2 __ kw3` from `p` reads.
pub open spec fn three_words_reach(ts: Seq<SToken>, p: int, kw1: Seq<char>, kw2: Seq<char>, kw3: Seq<char>) -> int {
    let a = ws_end(ts, p);
    let b = ws_end(ts, a + 1);
    let c = ws_end(ts, b + 1);
    if !(a > p && is_keyword_at(ts, a, kw1)) {
        a
    } else if !(b > a + 1 && is_keyword_at(ts, b, kw2)) {
        b
    } else if c > b + 1 && is_keyword_at(ts, c, kw3) {
        c + 1
    } else {
        c
    }
}

/// How far an attempt at a visibility, format, storage or on update
/// attribute at `p` reads.
pub open spec fn attr_tail_reach(ts: Seq<SToken>, p: int) -> int {
    let a = ws_end(ts, p + 1);
    let b = ws_end(ts, a + 1);
    if is_keyword_at(ts, p, "INVISIBLE"@) {
        mx(
            p + 1,
            alt_reach(
                three_words_end(ts, p + 1, "WITH"@, "SYSTEM"@, "VERSIONING"@) is Some,
                three_words_reach(ts, p + 1, "WITH"@, "SYSTEM"@, "VERSIONING"@),
                three_words_reach(ts, p + 1, "WITHOUT"@, "SYSTEM"@, "VERSIONING"@),
            ),
        )
    } else if is_keyword_at(ts, p, "COLUMN_FORMAT"@) {
        if a > p + 1 && one_of_at(ts, a, column_format_words()) {
            a + 1
        } else {
            a
        }
    } else if is_keyword_at(ts, p, "STORAGE"@) {
        if a > p + 1 && one_of_at(ts, a, column_storage_words()) {
            a + 1
        } else {
            a
        }
    } else if is_keyword_at(ts, p, "ON"@) {
        if !(a > p + 1 && is_keyword_at(ts, a, "UPDATE"@)) {
            a
        } else if b > a + 1 && is_keyword_at(ts, b, "CURRENT_TIMESTAMP"@) {
            mx(b + 1, paren_suffix_reach(ts, b + 1))
        } else {
            b
        }
    } else {
        p
    }
}

/// How far an attempt at a column attribute at `p` reads.
pub open spec fn column_attr_reach(ts: Seq<SToken>, p: int) -> int {
    alt_reach(
        attr_head_at(ts, p) is Some,
        attr_head_reach(ts, p),
        alt_reach(attr_keys_at(ts, p) is Some, attr_keys_reach(ts, p), attr_tail_reach(ts, p)),
    )
}

/// How far the column attributes from `p` read.
pub open spec fn column_attrs_reach(ts: Seq<SToken>, p: int) -> int
    decreases ts.len() - p,
{
    match ws1_end(ts, p) {
        Some(a) => match column_attr_at(ts, a) {
            Some((e, _)) => if p < e <= ts.len() {
                mx(mx(p, mx(a, column_attr_reach(ts, a))), column_attrs_reach(ts, e))
            } else {
                mx(p, mx(a, column_attr_reach(ts, a)))
            },
            None => mx(p, mx(a, column_attr_reach(ts, a))),
        },
        None => mx(p, ws_end(ts, p)),
    }
}

/// How far an attempt at a reference action at `p` reads.
pub open spec fn reference_action_reach(ts: Seq<SToken>, p: int) -> int {
    let a = ws_end(ts, p + 1);
    if is_keyword_at(ts, p, "RESTRICT"@) || is_keyword_at(ts, p, "CASCADE"@) {
        p + 1
    } else if is_keyword_at(ts, p, "SET"@) {
        if a > p + 1 && (is_keyword_at(ts, a, "NULL"@) || is_keyword_at(ts, a, "DEFAULT"@)) {
            a + 1
        } else {
            a
        }
    } else if is_keyword_at(ts, p, "NO"@) {
        if a > p + 1 && is_keyword_at(ts, a, "ACTION"@) {
            a + 1
        } else {
            a
        }
    } else {
        p
    }
}

/// How far the `ON (DELETE | UPDATE) action` clauses from `p` read.
pub open spec fn reference_on_reach(ts: Seq<SToken>, p: int) -> int
    decreases ts.len() - p,
{
    let a = ws_end(ts, p + 1);
    let b = ws_end(ts, a + 1);
    if !is_keyword_at(ts, p, "ON"@) {
        p
    } else if !(a > p + 1 && one_of_at(ts, a, trigger_words())) {
        mx(p, a)
    } else if !(b > a + 1) {
        mx(p, b)
    } else {
        match reference_action_at(ts, b) {
            None => mx(p, mx(b, reference_action_reach(ts, b))),
            Some((c, _)) => {
                let e = ws_end(ts, c);
                if p < e <= ts.len() {
                    mx(mx(p, mx(b, mx(reference_action_reach(ts, b), e))), reference_on_reach(ts, e))
                } else {
                    mx(p, mx(b, mx(reference_action_reach(ts, b), e)))
                }
            },
        }
    }
}

/// How far an attempt at a column reference at `p` reads.
pub open spec fn column_reference_reach(ts: Seq<SToken>, p: int) -> int {
    let t = ws_end(ts, p + 1);
    if !is_keyword_at(ts, p, "REFERENCES"@) {
        p
    } else if !(t > p + 1) {
        t
    } else if ident_at(ts, t) is None {
        t
    } else {
        match index_columns_at(ts, t + 1) {
            None => mx(t + 1, index_columns_reach(ts, t + 1)),
            Some((e, _)) => {
                let m0 = ws_end(ts, e);
                let a = ws_end(ts, m0 + 1);
                let mr = if !is_keyword_at(ts, m0, "MATCH"@) {
                    m0
                } else if a > m0 + 1 && one_of_at(ts, a, match_words()) {
                    ws_end(ts, a + 1)
                } else {
                    a
                };
                let m1 = if is_keyword_at(ts, m0, "MATCH"@) && ws1_end(ts, m0 + 1) is Some && one_of_at(
                    ts,
                    ws1_end(ts, m0 + 1)->Some_0,
                    match_words(),
                ) {
                    ws_end(ts, a + 1)
                } else {
                    m0
                };
                mx(mx(t + 1, index_columns_reach(ts, t + 1)), mx(mr, reference_on_reach(ts, m1)))
            },
        }
    }
}

/// Parse `P_INDEX_COLUMN`: `ident [ ( n ) ]? [ASC|DESC]?`.
pub fn p_index_column(s: &mut Stream) -> (r: Option<Json>)
    ensures
        frame(*old(s), *final(s)),
        reached(*old(s), *final(s), index_column_reach(old(s).spec_tokens(), old(s).spec_pos())),
        r is Some ==> final(s).spec_pos() > old(s).spec_pos(),
        r matches Some(v) ==> is_node(v@, "P_INDEX_COLUMN"@),
        match index_column_at(old(s).spec_tokens(), old(s).spec_pos()) {
            Some((e, v)) => r matches Some(x) && x@ == v && final(s).spec_pos() == e,
            None => r is None && final(s).spec_pos() == old(s).spec_pos(),
        },
{
    let column = match s_identifier(s) {
        Some(c) => c,
        None => return None,
    };
    let mut length: Option<Json> = None;
    let mut sort: Option<String> = None;

    // Optional `( n )`.
    let save = s.pos();
    s.ws0();
    if s.eat(&TokenKind::LParens).is_some() {
        s.ws0();
        if let Some(n) = s_number(s) {
            s.ws0();
            if s.eat(&TokenKind::RParens).is_some() {
                length = Some(n);
            } else {
                s.set(save);
            }
        } else {
            s.set(save);
        }
    } else {
        s.set(save);
    }
    let ghost lenv: Option<Seq<char>> = if length is Some {
        Some(length->Some_0@->Num_0)
    } else {
        None
    };

    // Optional ASC or DESC.
    let save = s.pos();
    s.ws0();
    let words: [&str; 2] = ["ASC", "DESC"];
    assert(words@ =~= sort_words());
    if let Some(v) = one_of_keywords(s, &words) {
        sort = Some(v);
    } else {
        s.set(save);
    }
    let ghost sortv = super::helpers::opt_view(sort);

    let mut def: Vec<(String, Json)> = Vec::new();
    put(&mut def, "column", Json::Str(column));
    if let Some(l) = length {
        put(&mut def, "length", l);
    }
    if let Some(so) = sort {
        put(&mut def, "sort", Json::Str(so));
    }
    assert(crate::json::view_obj(def@) =~= index_column_def(column@, lenv, sortv)->Obj_0);
    Some(node("P_INDEX_COLUMN", Json::Obj(def)))
}

/// The further index columns `, column` from `p`, after `acc`.
pub open spec fn index_column_rest(ts: Seq<crate::lexer::SToken>, p: int, acc: Seq<JsonV>) -> (int, Seq<JsonV>)
    decreases ts.len() - p,
{
    let a = ws_end(ts, p);
    if p >= 0 && is_kind_at(ts, a, SKind::Comma) {
        match index_column_at(ts, ws_end(ts, a + 1)) {
            Some((e, c)) => if p < e <= ts.len() {
                index_column_rest(ts, e, acc.push(c))
            } else {
                (p, acc)
            },
            None => (p, acc),
        }
    } else {
        (p, acc)
    }
}

/// A list `_ ( _ column, ... _ )` from `p`: its end and the columns.
pub open spec fn index_columns_at(ts: Seq<crate::lexer::SToken>, p: int) -> Option<(int, Seq<JsonV>)> {
    let a = ws_end(ts, p);
    if !is_kind_at(ts, a, SKind::LParens) {
        None
    } else {
        match index_column_at(ts, ws_end(ts, a + 1)) {
            None => None,
            Some((e1, c1)) => {
                let (e2, cols) = index_column_rest(ts, e1, seq![c1]);
                let f = ws_end(ts, e2);
                if is_kind_at(ts, f, SKind::RParens) {
                    Some((f + 1, cols))
                } else {
                    None
                }
            },
        }
    }
}

/// Parse a parenthesized, comma-separated list of index columns.
pub fn index_column_list(s: &mut Stream) -> (r: Option<Vec<Json>>)
    ensures
        frame(*old(s), *final(s)),
        reached(*old(s), *final(s), index_columns_reach(old(s).spec_tokens(), old(s).spec_pos())),
        r is Some ==> final(s).spec_pos() > old(s).spec_pos(),
        r is None ==> final(s).spec_pos() == old(s).spec_pos(),
        match index_columns_at(old(s).spec_tokens(), old(s).spec_pos()) {
            Some((e, cols)) => r matches Some(x) && crate::json::view_arr(x@) == cols && final(s).spec_pos() == e,
            None => r is None,
        },
{
    let ghost ts = s.spec_tokens();
    let save = s.pos();
    s.ws0();
    if s.eat(&TokenKind::LParens).is_none() {
        s.set(save);
        return None;
    }
    s.ws0();
    let first = match p_index_column(s) {
        Some(v) => v,
        None => {
            s.set(save);
            return None;
        },
    };
    let ghost e1 = s.spec_pos();
    let ghost target = index_column_rest(ts, e1, seq![first@]);
    let ghost g = mx(s.spec_furthest(), index_column_rest_reach(ts, e1));
    let mut cols: Vec<Json> = Vec::new();
    proof {
        crate::json::lemma_view_arr_push(cols@, first);
    }
    cols.push(first);
    assert(crate::json::view_arr(cols@) =~= seq![first@]);
    loop
        invariant
            frame(*old(s), *s),
            s.spec_tokens() == ts,
            s.spec_pos() > save,
            save == old(s).spec_pos(),
            index_column_rest(ts, s.spec_pos(), crate::json::view_arr(cols@)) == target,
            mx(s.spec_furthest(), index_column_rest_reach(ts, s.spec_pos())) == g,
        ensures
            target == (s.spec_pos(), crate::json::view_arr(cols@)),
            s.spec_furthest() == g,
        decreases s.spec_tokens().len() - s.spec_pos(),
    {
        let item = s.pos();
        s.ws0();
        if s.eat(&TokenKind::Comma).is_none() {
            s.set(item);
            break;
        }
        s.ws0();
        match p_index_column(s) {
            Some(v) => {
                proof {
                    crate::json::lemma_view_arr_push(cols@, v);
                }
                cols.push(v);
            },
            None => {
                s.set(item);
                break;
            },
        }
    }
    s.ws0();
    if s.eat(&TokenKind::RParens).is_none() {
        s.set(save);
        return None;
    }
    Some(cols)
}

/// The index type names of `P_INDEX_TYPE`.
pub open spec fn index_type_words() -> Seq<&'static str> {
    seq!["BTREE", "HASH", "RTREE"]
}

/// An index type `USING __ (BTREE | HASH | RTREE)` at `p`: its end and node.
pub open spec fn index_type_at(ts: Seq<crate::lexer::SToken>, p: int) -> Option<(int, JsonV)> {
    if !is_keyword_at(ts, p, "USING"@) {
        None
    } else {
        match ws1_end(ts, p + 1) {
            None => None,
            Some(q) => if one_of_at(ts, q, index_type_words()) {
                Some((q + 1, node_v("P_INDEX_TYPE"@, JsonV::Str(ts[q].value))))
            } else {
                None
            },
        }
    }
}

/// Parse `P_INDEX_TYPE`: `USING (BTREE|HASH|RTREE)`.
pub fn p_index_type(s: &mut Stream) -> (r: Option<Json>)
    ensures
        frame(*old(s), *final(s)),
        reached(*old(s), *final(s), index_type_reach(old(s).spec_tokens(), old(s).spec_pos())),
        r is Some ==> final(s).spec_pos() > old(s).spec_pos(),
        r is None ==> final(s).spec_pos() == old(s).spec_pos(),
        r matches Some(v) ==> is_node(v@, "P_INDEX_TYPE"@),
        match index_type_at(old(s).spec_tokens(), old(s).spec_pos()) {
            Some((e, v)) => r matches Some(x) && x@ == v && final(s).spec_pos() == e,
            None => r is None,
        },
{
    let save = s.pos();
    if s.eat_keyword("USING").is_none() {
        return None;
    }
    if !s.ws1() {
        s.set(save);
        return None;
    }
    let words: [&str; 3] = ["BTREE", "HASH", "RTREE"];
    assert(words@ =~= index_type_words());
    match one_of_keywords(s, &words) {
        Some(v) => Some(node("P_INDEX_TYPE", Json::Str(v))),
        None => {
            s.set(save);
            None
        },
    }
}

/// An `O_INDEX_OPTION` node holding `key: v`.
pub open spec fn index_option_v(key: Seq<char>, v: JsonV) -> JsonV {
    node_v("O_INDEX_OPTION"@, JsonV::Obj(seq![(key, v)]))
}

/// An index option at `p`: `KEY_BLOCK_SIZE ( __ | = ) n`, an index type,
/// `WITH __ PARSER __ name` or `COMMENT __ 'text'`; its end and node.
pub open spec fn index_option_at(ts: Seq<crate::lexer::SToken>, p: int) -> Option<(int, JsonV)> {
    let kbs = if is_keyword_at(ts, p, "KEY_BLOCK_SIZE"@) {
        match ws_eq_end(ts, p + 1) {
            Some(q) => if is_kind_at(ts, q, SKind::Number) {
                Some((q + 1, index_option_v("keyBlockSize"@, JsonV::Num(ts[q].value))))
            } else {
                None
            },
            None => None,
        }
    } else {
        None
    };
    let parser = if is_keyword_at(ts, p, "WITH"@) {
        match ws1_end(ts, p + 1) {
            Some(a) => if is_keyword_at(ts, a, "PARSER"@) {
                match ws1_end(ts, a + 1) {
                    Some(b) => match ident_at(ts, b) {
                        Some(x) => Some((b + 1, index_option_v("parser"@, JsonV::Str(x)))),
                        None => None,
                    },
                    None => None,
                }
            } else {
                None
            },
            None => None,
        }
    } else {
        None
    };
    let comment = if is_keyword_at(ts, p, "COMMENT"@) {
        match ws1_end(ts, p + 1) {
            Some(a) => if 0 <= a < ts.len() && super::helpers::is_string_kind(ts[a].kind) {
                Some((a + 1, index_option_v("comment"@, JsonV::Str(ts[a].value))))
            } else {
                None
            },
            None => None,
        }
    } else {
        None
    };
    match kbs {
        Some(x) => Some(x),
        None => match index_type_at(ts, p) {
            Some((e, t)) => Some((e, index_option_v("indexType"@, t))),
            None => match parser {
                Some(x) => Some(x),
                None => comment,
            },
        },
    }
}

/// Parse `O_INDEX_OPTION`: key block size, index type, parser, or comment.
pub fn o_index_option(s: &mut Stream) -> (r: Option<Json>)
    ensures
        frame(*old(s), *final(s)),
        reached(*old(s), *final(s), index_option_reach(old(s).spec_tokens(), old(s).spec_pos())),
        r is Some ==> final(s).spec_pos() > old(s).spec_pos(),
        r matches Some(v) ==> is_node(v@, "O_INDEX_OPTION"@),
        match index_option_at(old(s).spec_tokens(), old(s).spec_pos()) {
            Some((e, v)) => r matches Some(x) && x@ == v && final(s).spec_pos() == e,
            None => r is None,
        },
{
    let save = s.pos();

    // KEY_BLOCK_SIZE ( __ | = ) NUMBER
    if s.eat_keyword("KEY_BLOCK_SIZE").is_some() {
        if ws_or_equals(s) {
            if let Some(n) = s_number(s) {
                return Some(node("O_INDEX_OPTION", obj1("keyBlockSize", n)));
            }
        }
        s.set(save);
    }
    // P_INDEX_TYPE
    if let Some(it) = p_index_type(s) {
        return Some(node("O_INDEX_OPTION", obj1("indexType", it)));
    }
    s.set(save);

    // WITH PARSER ident
    if s.eat_keyword("WITH").is_some() {
        if s.ws1() && s.eat_keyword("PARSER").is_some() && s.ws1() {
            if let Some(p) = s_identifier(s) {
                return Some(node("O_INDEX_OPTION", obj1("parser", Json::Str(p))));
            }
        }
        s.set(save);
    }
    // COMMENT string
    if s.eat_keyword("COMMENT").is_some() {
        if s.ws1() {
            if let Some(c) = o_quoted_string(s) {
                return Some(node("O_INDEX_OPTION", obj1("comment", Json::Str(c))));
            }
        }
        s.set(save);
    }
    None
}

/// The index options from `p`, each after optional whitespace, after `acc`,
/// and where they end.
pub open spec fn index_option_list(ts: Seq<crate::lexer::SToken>, p: int, acc: Seq<JsonV>) -> (int, Seq<JsonV>)
    decreases ts.len() - p,
{
    match index_option_at(ts, ws_end(ts, p)) {
        Some((e, v)) => if p < e <= ts.len() {
            index_option_list(ts, e, acc.push(v))
        } else {
            (p, acc)
        },
        None => (p, acc),
    }
}

/// Parse zero or more index options, each preceded by optional whitespace.
pub fn index_options(s: &mut Stream) -> (r: Vec<Json>)
    ensures
        frame(*old(s), *final(s)),
        reached(*old(s), *final(s), index_options_reach(old(s).spec_tokens(), old(s).spec_pos())),
        forall|i: int| 0 <= i < r@.len() ==> is_node(#[trigger] r@[i]@, "O_INDEX_OPTION"@),
        index_option_list(old(s).spec_tokens(), old(s).spec_pos(), seq![]) == (
            final(s).spec_pos(),
            crate::json::view_arr(r@),
        ),
{
    let ghost ts = s.spec_tokens();
    let ghost target = index_option_list(ts, s.spec_pos(), seq![]);
    let ghost g = mx(s.spec_furthest(), index_options_reach(ts, s.spec_pos()));
    let mut opts: Vec<Json> = Vec::new();
    loop
        invariant
            frame(*old(s), *s),
            s.spec_tokens() == ts,
            ts == old(s).spec_tokens(),
            target == index_option_list(ts, old(s).spec_pos(), seq![]),
            index_option_list(ts, s.spec_pos(), crate::json::view_arr(opts@)) == target,
            forall|i: int| 0 <= i < opts@.len() ==> is_node(#[trigger] opts@[i]@, "O_INDEX_OPTION"@),
            mx(s.spec_furthest(), index_options_reach(ts, s.spec_pos())) == g,
            g == mx(old(s).spec_furthest(), index_options_reach(ts, old(s).spec_pos())),
        ensures
            target == (s.spec_pos(), crate::json::view_arr(opts@)),
            s.spec_furthest() == g,
        decreases s.spec_tokens().len() - s.spec_pos(),
    {
        let save = s.pos();
        s.ws0();
        match o_index_option(s) {
            Some(o) => {
                proof {
                    crate::json::lemma_view_arr_push(opts@, o);
                }
                opts.push(o);
            },
            None => {
                s.set(save);
                break;
            },
        }
    }
    opts
}

/// Where the separator `( __ | _ = _ )` from `p` ends, if there is one.
pub open spec fn ws_eq_end(ts: Seq<crate::lexer::SToken>, p: int) -> Option<int> {
    let p1 = ws_end(ts, p);
    if is_kind_at(ts, p1, SKind::Equal) {
        Some(ws_end(ts, p1 + 1))
    } else if p1 > p {
        Some(p1)
    } else {
        None
    }
}

/// The end and value of `key ( __ | = ) word` at `p`, where `word` is one
/// of `words`.
pub open spec fn keyed_word_at(ts: Seq<crate::lexer::SToken>, p: int, key: Seq<char>, words: Seq<&str>) -> Option<
    (int, Seq<char>),
> {
    if !is_keyword_at(ts, p, key) {
        None
    } else {
        match ws_eq_end(ts, p + 1) {
            Some(q) => if one_of_at(ts, q, words) {
                Some((q + 1, ts[q].value))
            } else {
                None
            },
            None => None,
        }
    }
}

/// The algorithm names of `P_INDEX_ALGORITHM_OPTION`.
pub open spec fn algorithm_words() -> Seq<&'static str> {
    seq!["DEFAULT", "INPLACE", "COPY"]
}

/// The lock names of `P_LOCK_OPTION`.
pub open spec fn lock_words() -> Seq<&'static str> {
    seq!["DEFAULT", "NONE", "SHARED", "EXCLUSIVE"]
}

/// Parse `P_INDEX_ALGORITHM_OPTION`: `ALGORITHM ( __ | = ) (DEFAULT|INPLACE|COPY)`.
pub fn p_index_algorithm_option(s: &mut Stream) -> (r: Option<Json>)
    ensures
        frame(*old(s), *final(s)),
        reached(*old(s), *final(s), keyed_word_reach(old(s).spec_tokens(), old(s).spec_pos(), "ALGORITHM"@, algorithm_words())),
        r is Some ==> final(s).spec_pos() > old(s).spec_pos(),
        r is None ==> final(s).spec_pos() == old(s).spec_pos(),
        r matches Some(v) ==> is_node(v@, "P_INDEX_ALGORITHM_OPTION"@),
        match keyed_word_at(old(s).spec_tokens(), old(s).spec_pos(), "ALGORITHM"@, algorithm_words()) {
            Some((e, w)) => r matches Some(v) && v@ == super::statements::node_v(
                "P_INDEX_ALGORITHM_OPTION"@,
                JsonV::Obj(seq![("algorithm"@, JsonV::Str(w))]),
            ) && final(s).spec_pos() == e,
            None => r is None,
        },
{
    let save = s.pos();
    if s.eat_keyword("ALGORITHM").is_none() {
        return None;
    }
    if !ws_or_equals(s) {
        s.set(save);
        return None;
    }
    let words: [&str; 3] = ["DEFAULT", "INPLACE", "COPY"];
    assert(words@ =~= algorithm_words());
    match one_of_keywords(s, &words) {
        Some(v) => Some(node("P_INDEX_ALGORITHM_OPTION", obj1("algorithm", Json::Str(v)))),
        None => {
            s.set(save);
            None
        },
    }
}

/// Parse `P_LOCK_OPTION`: `LOCK ( __ | = ) (DEFAULT|NONE|SHARED|EXCLUSIVE)`.
pub fn p_lock_option(s: &mut Stream) -> (r: Option<Json>)
    ensures
        frame(*old(s), *final(s)),
        reached(*old(s), *final(s), keyed_word_reach(old(s).spec_tokens(), old(s).spec_pos(), "LOCK"@, lock_words())),
        r is Some ==> final(s).spec_pos() > old(s).spec_pos(),
        r is None ==> final(s).spec_pos() == old(s).spec_pos(),
        r matches Some(v) ==> is_node(v@, "P_LOCK_OPTION"@),
        match keyed_word_at(old(s).spec_tokens(), old(s).spec_pos(), "LOCK"@, lock_words()) {
            Some((e, w)) => r matches Some(v) && v@ == super::statements::node_v(
                "P_LOCK_OPTION"@,
                JsonV::Obj(seq![("lock"@, JsonV::Str(w))]),
            ) && final(s).spec_pos() == e,
            None => r is None,
        },
{
    let save = s.pos();
    if s.eat_keyword("LOCK").is_none() {
        return None;
    }
    if !ws_or_equals(s) {
        s.set(save);
        return None;
    }
    let words: [&str; 4] = ["DEFAULT", "NONE", "SHARED", "EXCLUSIVE"];
    assert(words@ =~= lock_words());
    match one_of_keywords(s, &words) {
        Some(v) => Some(node("P_LOCK_OPTION", obj1("lock", Json::Str(v)))),
        None => {
            s.set(save);
            None
        },
    }
}

/// An optional `_ ( _ [n] _ )` after `p`: where it ends and its text, `(n)`
/// or `()`.
pub open spec fn paren_suffix_at(ts: Seq<SToken>, p: int) -> (int, Option<Seq<char>>) {
    let a = ws_end(ts, p);
    let b = ws_end(ts, a + 1);
    let (c, n) = if is_kind_at(ts, b, SKind::Number) {
        (ws_end(ts, b + 1), ts[b].value)
    } else {
        (ws_end(ts, b), Seq::<char>::empty())
    };
    if is_kind_at(ts, a, SKind::LParens) && is_kind_at(ts, c, SKind::RParens) {
        (c + 1, Some("("@ + n + ")"@))
    } else {
        (p, None)
    }
}

/// Parses an optional `( num? )` suffix and returns its text, `(n)` or `()`.
fn opt_paren_suffix(s: &mut Stream) -> (r: Option<String>)
    ensures
        frame(*old(s), *final(s)),
        reached(*old(s), *final(s), paren_suffix_reach(old(s).spec_tokens(), old(s).spec_pos())),
        r is None ==> final(s).spec_pos() == old(s).spec_pos(),
        ({
            let (e, t) = paren_suffix_at(old(s).spec_tokens(), old(s).spec_pos());
            final(s).spec_pos() == e && super::helpers::opt_view(r) == t
        }),
{
    let psave = s.pos();
    s.ws0();
    if s.eat(&TokenKind::LParens).is_some() {
        s.ws0();
        let num = s.eat(&TokenKind::Number);
        s.ws0();
        if s.eat(&TokenKind::RParens).is_some() {
            let n = match num {
                Some(n) => n,
                None => String::new(),
            };
            return Some(concat3("(", n.as_str(), ")"));
        }
    }
    s.set(psave);
    None
}

/// A default value at `p`: a number, a bit or hexadecimal literal, an
/// identifier with an optional `(n)`, or a quoted string; its end and value.
pub open spec fn default_value_at(ts: Seq<SToken>, p: int) -> Option<(int, JsonV)> {
    if !(0 <= p < ts.len()) {
        None
    } else {
        let k = ts[p].kind;
        let v = ts[p].value;
        if k is Number {
            Some((p + 1, JsonV::Num(v)))
        } else if k is BitFormat || k is HexaFormat {
            Some((p + 1, JsonV::Str(v)))
        } else if super::helpers::is_ident_kind(k) {
            let (e, suffix) = paren_suffix_at(ts, p + 1);
            Some(
                (
                    e,
                    JsonV::Str(
                        match suffix {
                            Some(x) => v + x,
                            None => v,
                        },
                    ),
                ),
            )
        } else if super::helpers::is_string_kind(k) {
            Some((p + 1, JsonV::Str(v)))
        } else {
            None
        }
    }
}

/// Parse `O_DEFAULT_VALUE`: a number, bit literal, hexa literal, identifier
/// with an optional `(n)`, or quoted string.
pub fn o_default_value(s: &mut Stream) -> (r: Option<Json>)
    ensures
        frame(*old(s), *final(s)),
        reached(*old(s), *final(s), default_value_reach(old(s).spec_tokens(), old(s).spec_pos())),
        r is Some ==> final(s).spec_pos() > old(s).spec_pos(),
        r is None ==> final(s).spec_pos() == old(s).spec_pos(),
        r matches Some(v) ==> v@ is Num || v@ is Str,
        match default_value_at(old(s).spec_tokens(), old(s).spec_pos()) {
            Some((e, v)) => r matches Some(x) && x@ == v && final(s).spec_pos() == e,
            None => r is None,
        },
{
    if let Some(n) = s_number(s) {
        return Some(n);
    }
    if let Some(v) = s.eat(&TokenKind::BitFormat) {
        return Some(Json::Str(v));
    }
    if let Some(v) = s.eat(&TokenKind::HexaFormat) {
        return Some(Json::Str(v));
    }
    if let Some(ident) = s_identifier(s) {
        let full = match opt_paren_suffix(s) {
            Some(suffix) => concat2(ident.as_str(), suffix.as_str()),
            None => ident,
        };
        return Some(Json::Str(full));
    }
    match o_quoted_string(s) {
        Some(v) => Some(Json::Str(v)),
        None => None,
    }
}

/// An `O_COLUMN_DEFINITION` node holding `key: v`.
pub open spec fn col_def_v(key: Seq<char>, v: JsonV) -> JsonV {
    node_v("O_COLUMN_DEFINITION"@, JsonV::Obj(seq![(key, v)]))
}

/// Wrap a column definition attribute node.
fn col_def(key: &str, v: Json) -> (r: Json)
    ensures
        is_node(r@, "O_COLUMN_DEFINITION"@),
        r@ == col_def_v(key@, v@),
{
    node("O_COLUMN_DEFINITION", obj1(key, v))
}

/// The keyword `kw` at `p` alone, as the attribute `key: b`.
pub open spec fn flag_at(ts: Seq<SToken>, p: int, kw: Seq<char>, key: Seq<char>, b: bool) -> Option<(int, JsonV)> {
    if is_keyword_at(ts, p, kw) {
        Some((p + 1, col_def_v(key, JsonV::Bool(b))))
    } else {
        None
    }
}

/// `kw __ word` at `p`, as the attribute `key: word`.
pub open spec fn kw_word_at(ts: Seq<SToken>, p: int, kw: Seq<char>, key: Seq<char>) -> Option<(int, JsonV)> {
    if !is_keyword_at(ts, p, kw) {
        None
    } else {
        match ws1_end(ts, p + 1) {
            Some(a) => match word_at(ts, a) {
                Some(v) => Some((a + 1, col_def_v(key, JsonV::Str(v)))),
                None => None,
            },
            None => None,
        }
    }
}

/// `CHARACTER __ SET __ word` at `p`, as the attribute `charset`.
pub open spec fn character_set_attr_at(ts: Seq<SToken>, p: int) -> Option<(int, JsonV)> {
    if !is_keyword_at(ts, p, "CHARACTER"@) {
        None
    } else {
        match ws1_end(ts, p + 1) {
            Some(a) => if is_keyword_at(ts, a, "SET"@) {
                match ws1_end(ts, a + 1) {
                    Some(b) => match word_at(ts, b) {
                        Some(v) => Some((b + 1, col_def_v("charset"@, JsonV::Str(v)))),
                        None => None,
                    },
                    None => None,
                }
            } else {
                None
            },
            None => None,
        }
    }
}

/// `kw1 __ kw2` at `p`, as the attribute `key: b`.
pub open spec fn two_kw_flag_at(ts: Seq<SToken>, p: int, kw1: Seq<char>, kw2: Seq<char>, key: Seq<char>, b: bool) -> Option<
    (int, JsonV),
> {
    if is_keyword_at(ts, p, kw1) && ws1_end(ts, p + 1) is Some && is_keyword_at(ts, ws1_end(ts, p + 1)->Some_0, kw2) {
        Some((ws1_end(ts, p + 1)->Some_0 + 1, col_def_v(key, JsonV::Bool(b))))
    } else {
        None
    }
}

/// `DEFAULT __ value` at `p`, as the attribute `default`.
pub open spec fn default_attr_at(ts: Seq<SToken>, p: int) -> Option<(int, JsonV)> {
    if !is_keyword_at(ts, p, "DEFAULT"@) {
        None
    } else {
        match ws1_end(ts, p + 1) {
            Some(a) => match default_value_at(ts, a) {
                Some((e, v)) => Some((e, col_def_v("default"@, v))),
                None => None,
            },
            None => None,
        }
    }
}

/// The sign, charset, collation, nullability and default attributes at `p`.
pub open spec fn attr_head_at(ts: Seq<SToken>, p: int) -> Option<(int, JsonV)> {
    first_of(
        flag_at(ts, p, "UNSIGNED"@, "unsigned"@, true),
        first_of(
            flag_at(ts, p, "ZEROFILL"@, "zerofill"@, true),
            first_of(
                kw_word_at(ts, p, "CHARSET"@, "charset"@),
                first_of(
                    character_set_attr_at(ts, p),
                    first_of(
                        kw_word_at(ts, p, "COLLATE"@, "collation"@),
                        first_of(
                            two_kw_flag_at(ts, p, "NOT"@, "NULL"@, "nullable"@, false),
                            first_of(flag_at(ts, p, "NULL"@, "nullable"@, true), default_attr_at(ts, p)),
                        ),
                    ),
                ),
            ),
        ),
    )
}

/// Column attributes: sign, charset, collation, nullability, default.
fn column_attribute_head(s: &mut Stream) -> (r: Option<Json>)
    ensures
        frame(*old(s), *final(s)),
        reached(*old(s), *final(s), attr_head_reach(old(s).spec_tokens(), old(s).spec_pos())),
        r is Some ==> final(s).spec_pos() > old(s).spec_pos(),
        r is None ==> final(s).spec_pos() == old(s).spec_pos(),
        r matches Some(v) ==> is_node(v@, "O_COLUMN_DEFINITION"@),
        match attr_head_at(old(s).spec_tokens(), old(s).spec_pos()) {
            Some((e, v)) => r matches Some(x) && x@ == v && final(s).spec_pos() == e,
            None => r is None,
        },
{
    proof {
        reveal_strlit("UNSIGNED");
        assert("UNSIGNED"@.len() == 8);
        assert("UNSIGNED"@[0] == 'U');
        reveal_strlit("ZEROFILL");
        assert("ZEROFILL"@.len() == 8);
        assert("ZEROFILL"@[0] == 'Z');
        reveal_strlit("CHARSET");
        assert("CHARSET"@.len() == 7);
        assert("CHARSET"@[0] == 'C');
        reveal_strlit("CHARACTER");
        assert("CHARACTER"@.len() == 9);
        assert("CHARACTER"@[0] == 'C');
        reveal_strlit("COLLATE");
        assert("COLLATE"@.len() == 7);
        assert("COLLATE"@[0] == 'C');
        reveal_strlit("NOT");
        assert("NOT"@.len() == 3);
        assert("NOT"@[0] == 'N');
        reveal_strlit("NULL");
        assert("NULL"@.len() == 4);
        assert("NULL"@[0] == 'N');
        reveal_strlit("DEFAULT");
        assert("DEFAULT"@.len() == 7);
        assert("DEFAULT"@[0] == 'D');
    }
    let save = s.pos();

    if s.eat_keyword("UNSIGNED").is_some() {
        return Some(col_def("unsigned", Json::Bool(true)));
    }
    if s.eat_keyword("ZEROFILL").is_some() {
        return Some(col_def("zerofill", Json::Bool(true)));
    }
    // CHARSET charset
    if s.eat_keyword("CHARSET").is_some() {
        if s.ws1() {
            if let Some(cs) = o_string_or_ident(s) {
                return Some(col_def("charset", Json::Str(cs)));
            }
        }
        s.set(save);
    }
    // CHARACTER SET charset
    if s.eat_keyword("CHARACTER").is_some() {
        if s.ws1() && s.eat_keyword("SET").is_some() && s.ws1() {
            if let Some(cs) = o_string_or_ident(s) {
                return Some(col_def("charset", Json::Str(cs)));
            }
        }
        s.set(save);
    }
    // COLLATE collation
    if s.eat_keyword("COLLATE").is_some() {
        if s.ws1() {
            if let Some(c) = o_string_or_ident(s) {
                return Some(col_def("collation", Json::Str(c)));
            }
        }
        s.set(save);
    }
    // NOT NULL
    if s.eat_keyword("NOT").is_some() {
        if s.ws1() && s.eat_keyword("NULL").is_some() {
            return Some(col_def("nullable", Json::Bool(false)));
        }
        s.set(save);
    }
    // NULL
    if s.eat_keyword("NULL").is_some() {
        return Some(col_def("nullable", Json::Bool(true)));
    }
    // DEFAULT value
    if s.eat_keyword("DEFAULT").is_some() {
        if s.ws1() {
            if let Some(v) = o_default_value(s) {
                return Some(col_def("default", v));
            }
        }
        s.set(save);
    }
    None
}

/// `UNIQUE [KEY]` at `p`, as the attribute `unique`.
pub open spec fn unique_attr_at(ts: Seq<SToken>, p: int) -> Option<(int, JsonV)> {
    if !is_keyword_at(ts, p, "UNIQUE"@) {
        None
    } else {
        let k = ws_end(ts, p + 1);
        Some(
            (
                if is_keyword_at(ts, k, "KEY"@) {
                    k + 1
                } else {
                    p + 1
                },
                col_def_v("unique"@, JsonV::Bool(true)),
            ),
        )
    }
}

/// `COMMENT __ 'text'` at `p`, as the attribute `comment`.
pub open spec fn comment_attr_at(ts: Seq<SToken>, p: int) -> Option<(int, JsonV)> {
    if !is_keyword_at(ts, p, "COMMENT"@) {
        None
    } else {
        match ws1_end(ts, p + 1) {
            Some(a) => if 0 <= a < ts.len() && super::helpers::is_string_kind(ts[a].kind) {
                Some((a + 1, col_def_v("comment"@, JsonV::Str(ts[a].value))))
            } else {
                None
            },
            None => None,
        }
    }
}

/// The auto increment, key and comment attributes at `p`.
pub open spec fn attr_keys_at(ts: Seq<SToken>, p: int) -> Option<(int, JsonV)> {
    first_of(
        flag_at(ts, p, "AUTO_INCREMENT"@, "autoincrement"@, true),
        first_of(
            unique_attr_at(ts, p),
            first_of(
                two_kw_flag_at(ts, p, "PRIMARY"@, "KEY"@, "primary"@, true),
                first_of(flag_at(ts, p, "KEY"@, "primary"@, true), comment_attr_at(ts, p)),
            ),
        ),
    )
}

/// Column attributes: auto increment, unique and primary keys, comment.
fn column_attribute_keys(s: &mut Stream) -> (r: Option<Json>)
    ensures
        frame(*old(s), *final(s)),
        reached(*old(s), *final(s), attr_keys_reach(old(s).spec_tokens(), old(s).spec_pos())),
        r is Some ==> final(s).spec_pos() > old(s).spec_pos(),
        r is None ==> final(s).spec_pos() == old(s).spec_pos(),
        r matches Some(v) ==> is_node(v@, "O_COLUMN_DEFINITION"@),
        match attr_keys_at(old(s).spec_tokens(), old(s).spec_pos()) {
            Some((e, v)) => r matches Some(x) && x@ == v && final(s).spec_pos() == e,
            None => r is None,
        },
{
    proof {
        reveal_strlit("AUTO_INCREMENT");
        assert("AUTO_INCREMENT"@.len() == 14);
        assert("AUTO_INCREMENT"@[0] == 'A');
        reveal_strlit("UNIQUE");
        assert("UNIQUE"@.len() == 6);
        assert("UNIQUE"@[0] == 'U');
        reveal_strlit("PRIMARY");
        assert("PRIMARY"@.len() == 7);
        assert("PRIMARY"@[0] == 'P');
        reveal_strlit("KEY");
        assert("KEY"@.len() == 3);
        assert("KEY"@[0] == 'K');
        reveal_strlit("COMMENT");
        assert("COMMENT"@.len() == 7);
        assert("COMMENT"@[0] == 'C');
    }
    let save = s.pos();
    if s.eat_keyword("AUTO_INCREMENT").is_some() {
        return Some(col_def("autoincrement", Json::Bool(true)));
    }
    // UNIQUE [KEY]?
    if s.eat_keyword("UNIQUE").is_some() {
        let ksave = s.pos();
        s.ws1();
        if s.eat_keyword("KEY").is_none() {
            s.set(ksave);
        }
        return Some(col_def("unique", Json::Bool(true)));
    }
    // [PRIMARY]? KEY
    let psave = s.pos();
    if s.eat_keyword("PRIMARY").is_some() {
        if s.ws1() && s.eat_keyword("KEY").is_some() {
            return Some(col_def("primary", Json::Bool(true)));
        }
        s.set(psave);
    }
    if s.eat_keyword("KEY").is_some() {
        return Some(col_def("primary", Json::Bool(true)));
    }
    // COMMENT string
    if s.eat_keyword("COMMENT").is_some() {
        if s.ws1() {
            if let Some(c) = o_quoted_string(s) {
                return Some(col_def("comment", Json::Str(c)));
            }
        }
        s.set(save);
    }
    None
}

/// `__ kw1 __ kw2 __ kw3` from `p`: where it ends.
pub open spec fn three_words_end(ts: Seq<SToken>, p: int, kw1: Seq<char>, kw2: Seq<char>, kw3: Seq<char>) -> Option<int> {
    match ws1_end(ts, p) {
        Some(a) => if is_keyword_at(ts, a, kw1) {
            match ws1_end(ts, a + 1) {
                Some(b) => if is_keyword_at(ts, b, kw2) {
                    match ws1_end(ts, b + 1) {
                        Some(c) => if is_keyword_at(ts, c, kw3) {
                            Some(c + 1)
                        } else {
                            None
                        },
                        None => None,
                    }
                } else {
                    None
                },
                None => None,
            }
        } else {
            None
        },
        None => None,
    }
}

/// `INVISIBLE [WITH | WITHOUT SYSTEM VERSIONING]` at `p`.
pub open spec fn invisible_attr_at(ts: Seq<SToken>, p: int) -> Option<(int, JsonV)> {
    if !is_keyword_at(ts, p, "INVISIBLE"@) {
        None
    } else {
        match three_words_end(ts, p + 1, "WITH"@, "SYSTEM"@, "VERSIONING"@) {
            Some(e) => Some((e, col_def_v("invisibleWithSystemVersioning"@, JsonV::Bool(true)))),
            None => match three_words_end(ts, p + 1, "WITHOUT"@, "SYSTEM"@, "VERSIONING"@) {
                Some(e) => Some((e, col_def_v("invisibleWithoutSystemVersioning"@, JsonV::Bool(true)))),
                None => Some((p + 1, col_def_v("invisible"@, JsonV::Bool(true)))),
            },
        }
    }
}

/// `kw __ (one of words)` at `p`, as the attribute `key: word`.
pub open spec fn kw_choice_at(ts: Seq<SToken>, p: int, kw: Seq<char>, words: Seq<&str>, key: Seq<char>) -> Option<
    (int, JsonV),
> {
    if !is_keyword_at(ts, p, kw) {
        None
    } else {
        match ws1_end(ts, p + 1) {
            Some(a) => if one_of_at(ts, a, words) {
                Some((a + 1, col_def_v(key, JsonV::Str(ts[a].value))))
            } else {
                None
            },
            None => None,
        }
    }
}

/// The column format words.
pub open spec fn column_format_words() -> Seq<&'static str> {
    seq!["FIXED", "DYNAMIC", "DEFAULT"]
}

/// The column storage words.
pub open spec fn column_storage_words() -> Seq<&'static str> {
    seq!["DISK", "MEMORY", "DEFAULT"]
}

/// `ON __ UPDATE __ CURRENT_TIMESTAMP [( [n] )]` at `p`, as the attribute
/// `onUpdate`.
pub open spec fn on_update_attr_at(ts: Seq<SToken>, p: int) -> Option<(int, JsonV)> {
    if !is_keyword_at(ts, p, "ON"@) {
        None
    } else {
        match ws1_end(ts, p + 1) {
            Some(a) => if is_keyword_at(ts, a, "UPDATE"@) {
                match ws1_end(ts, a + 1) {
                    Some(b) => if is_keyword_at(ts, b, "CURRENT_TIMESTAMP"@) {
                        let (e, suffix) = paren_suffix_at(ts, b + 1);
                        Some(
                            (
                                e,
                                col_def_v(
                                    "onUpdate"@,
                                    JsonV::Str(
                                        match suffix {
                                            Some(x) => "CURRENT_TIMESTAMP"@ + x,
                                            None => "CURRENT_TIMESTAMP"@,
                                        },
                                    ),
                                ),
                            ),
                        )
                    } else {
                        None
                    },
                    None => None,
                }
            } else {
                None
            },
            None => None,
        }
    }
}

/// The visibility, format, storage and on update attributes at `p`.
pub open spec fn attr_tail_at(ts: Seq<SToken>, p: int) -> Option<(int, JsonV)> {
    first_of(
        invisible_attr_at(ts, p),
        first_of(
            kw_choice_at(ts, p, "COLUMN_FORMAT"@, column_format_words(), "format"@),
            first_of(
                kw_choice_at(ts, p, "STORAGE"@, column_storage_words(), "storage"@),
                on_update_attr_at(ts, p),
            ),
        ),
    )
}

/// Column attributes: visibility, format, storage, on update.
fn column_attribute_tail(s: &mut Stream) -> (r: Option<Json>)
    ensures
        frame(*old(s), *final(s)),
        reached(*old(s), *final(s), attr_tail_reach(old(s).spec_tokens(), old(s).spec_pos())),
        r is Some ==> final(s).spec_pos() > old(s).spec_pos(),
        r is None ==> final(s).spec_pos() == old(s).spec_pos(),
        r matches Some(v) ==> is_node(v@, "O_COLUMN_DEFINITION"@),
        match attr_tail_at(old(s).spec_tokens(), old(s).spec_pos()) {
            Some((e, v)) => r matches Some(x) && x@ == v && final(s).spec_pos() == e,
            None => r is None,
        },
{
    proof {
        reveal_strlit("INVISIBLE");
        assert("INVISIBLE"@.len() == 9);
        assert("INVISIBLE"@[0] == 'I');
        reveal_strlit("COLUMN_FORMAT");
        assert("COLUMN_FORMAT"@.len() == 13);
        assert("COLUMN_FORMAT"@[0] == 'C');
        reveal_strlit("STORAGE");
        assert("STORAGE"@.len() == 7);
        assert("STORAGE"@[0] == 'S');
        reveal_strlit("ON");
        assert("ON"@.len() == 2);
        assert("ON"@[0] == 'O');
    }
    let save = s.pos();
    // INVISIBLE [WITH | WITHOUT SYSTEM VERSIONING]?
    if s.eat_keyword("INVISIBLE").is_some() {
        let isave = s.pos();
        if s.ws1() && s.eat_keyword("WITH").is_some() && s.ws1() && s.eat_keyword("SYSTEM").is_some()
            && s.ws1() && s.eat_keyword("VERSIONING").is_some() {
            return Some(col_def("invisibleWithSystemVersioning", Json::Bool(true)));
        }
        s.set(isave);
        if s.ws1() && s.eat_keyword("WITHOUT").is_some() && s.ws1() && s.eat_keyword(
            "SYSTEM",
        ).is_some() && s.ws1() && s.eat_keyword("VERSIONING").is_some() {
            return Some(col_def("invisibleWithoutSystemVersioning", Json::Bool(true)));
        }
        s.set(isave);
        return Some(col_def("invisible", Json::Bool(true)));
    }
    // COLUMN_FORMAT (FIXED|DYNAMIC|DEFAULT)
    if s.eat_keyword("COLUMN_FORMAT").is_some() {
        if s.ws1() {
            let words: [&str; 3] = ["FIXED", "DYNAMIC", "DEFAULT"];
            assert(words@ =~= column_format_words());
            if let Some(v) = one_of_keywords(s, &words) {
                return Some(col_def("format", Json::Str(v)));
            }
        }
        s.set(save);
    }
    // STORAGE (DISK|MEMORY|DEFAULT)
    if s.eat_keyword("STORAGE").is_some() {
        if s.ws1() {
            let words: [&str; 3] = ["DISK", "MEMORY", "DEFAULT"];
            assert(words@ =~= column_storage_words());
            if let Some(v) = one_of_keywords(s, &words) {
                return Some(col_def("storage", Json::Str(v)));
            }
        }
        s.set(save);
    }
    // ON UPDATE CURRENT_TIMESTAMP [ ( n? ) ]?
    if s.eat_keyword("ON").is_some() {
        if s.ws1() && s.eat_keyword("UPDATE").is_some() && s.ws1() && s.eat_keyword(
            "CURRENT_TIMESTAMP",
        ).is_some() {
            let on_update = match opt_paren_suffix(s) {
                Some(suffix) => concat2("CURRENT_TIMESTAMP", suffix.as_str()),
                None => string_of("CURRENT_TIMESTAMP"),
            };
            return Some(col_def("onUpdate", Json::Str(on_update)));
        }
        s.set(save);
    }
    None
}

/// A column attribute at `p`: its end and `O_COLUMN_DEFINITION` node.
pub open spec fn column_attr_at(ts: Seq<SToken>, p: int) -> Option<(int, JsonV)> {
    first_of(attr_head_at(ts, p), first_of(attr_keys_at(ts, p), attr_tail_at(ts, p)))
}

/// Parse `O_COLUMN_DEFINITION`, one column attribute.
pub fn o_column_definition(s: &mut Stream) -> (r: Option<Json>)
    ensures
        frame(*old(s), *final(s)),
        reached(*old(s), *final(s), column_attr_reach(old(s).spec_tokens(), old(s).spec_pos())),
        r is Some ==> final(s).spec_pos() > old(s).spec_pos(),
        r is None ==> final(s).spec_pos() == old(s).spec_pos(),
        r matches Some(v) ==> is_node(v@, "O_COLUMN_DEFINITION"@),
        match column_attr_at(old(s).spec_tokens(), old(s).spec_pos()) {
            Some((e, v)) => r matches Some(x) && x@ == v && final(s).spec_pos() == e,
            None => r is None,
        },
{
    if let Some(v) = column_attribute_head(s) {
        return Some(v);
    }
    if let Some(v) = column_attribute_keys(s) {
        return Some(v);
    }
    column_attribute_tail(s)
}

/// The column attributes from `p`, each after whitespace, after `acc`, and
/// where they end.
pub open spec fn column_attr_list(ts: Seq<SToken>, p: int, acc: Seq<JsonV>) -> (int, Seq<JsonV>)
    decreases ts.len() - p,
{
    match ws1_end(ts, p) {
        Some(a) => match column_attr_at(ts, a) {
            Some((e, v)) => if p < e <= ts.len() {
                column_attr_list(ts, e, acc.push(v))
            } else {
                (p, acc)
            },
            None => (p, acc),
        },
        None => (p, acc),
    }
}

/// Parse zero or more column definitions, each preceded by required whitespace.
pub fn column_definitions(s: &mut Stream) -> (r: Vec<Json>)
    ensures
        frame(*old(s), *final(s)),
        reached(*old(s), *final(s), column_attrs_reach(old(s).spec_tokens(), old(s).spec_pos())),
        forall|i: int| 0 <= i < r@.len() ==> is_node(#[trigger] r@[i]@, "O_COLUMN_DEFINITION"@),
        column_attr_list(old(s).spec_tokens(), old(s).spec_pos(), seq![]) == (
            final(s).spec_pos(),
            crate::json::view_arr(r@),
        ),
{
    let ghost ts = s.spec_tokens();
    let ghost target = column_attr_list(ts, s.spec_pos(), seq![]);
    let ghost g = mx(s.spec_furthest(), column_attrs_reach(ts, s.spec_pos()));
    let mut defs: Vec<Json> = Vec::new();
    loop
        invariant
            frame(*old(s), *s),
            s.spec_tokens() == ts,
            ts == old(s).spec_tokens(),
            target == column_attr_list(ts, old(s).spec_pos(), seq![]),
            column_attr_list(ts, s.spec_pos(), crate::json::view_arr(defs@)) == target,
            mx(s.spec_furthest(), column_attrs_reach(ts, s.spec_pos())) == g,
            g == mx(old(s).spec_furthest(), column_attrs_reach(ts, old(s).spec_pos())),
            forall|i: int|
                0 <= i < defs@.len() ==> is_node(#[trigger] defs@[i]@, "O_COLUMN_DEFINITION"@),
        ensures
            target == (s.spec_pos(), crate::json::view_arr(defs@)),
            s.spec_furthest() == g,
        decreases s.spec_tokens().len() - s.spec_pos(),
    {
        let save = s.pos();
        if !s.ws1() {
            s.set(save);
            break;
        }
        match o_column_definition(s) {
            Some(d) => {
                proof {
                    crate::json::lemma_view_arr_push(defs@, d);
                }
                defs.push(d);
            },
            None => {
                s.set(save);
                break;
            },
        }
    }
    defs
}

/// A reference action at `p`: `RESTRICT`, `CASCADE`, `SET NULL`, `SET
/// DEFAULT` or `NO ACTION`; its end and text.
pub open spec fn reference_action_at(ts: Seq<SToken>, p: int) -> Option<(int, Seq<char>)> {
    if is_keyword_at(ts, p, "RESTRICT"@) || is_keyword_at(ts, p, "CASCADE"@) {
        Some((p + 1, ts[p].value))
    } else if is_keyword_at(ts, p, "SET"@) && ws1_end(ts, p + 1) is Some && (is_keyword_at(
        ts,
        ws1_end(ts, p + 1)->Some_0,
        "NULL"@,
    ) || is_keyword_at(ts, ws1_end(ts, p + 1)->Some_0, "DEFAULT"@)) {
        let a = ws1_end(ts, p + 1)->Some_0;
        Some((a + 1, ts[p].value + " "@ + ts[a].value))
    } else if is_keyword_at(ts, p, "NO"@) && ws1_end(ts, p + 1) is Some && is_keyword_at(
        ts,
        ws1_end(ts, p + 1)->Some_0,
        "ACTION"@,
    ) {
        let a = ws1_end(ts, p + 1)->Some_0;
        Some((a + 1, ts[p].value + " "@ + ts[a].value))
    } else {
        None
    }
}

/// The match words of a column reference.
pub open spec fn match_words() -> Seq<&'static str> {
    seq!["FULL", "PARTIAL", "SIMPLE"]
}

/// The triggers of a reference action.
pub open spec fn trigger_words() -> Seq<&'static str> {
    seq!["DELETE", "UPDATE"]
}

/// An `{ trigger, action }` object.
pub open spec fn on_action_v(trigger: Seq<char>, action: Seq<char>) -> JsonV {
    JsonV::Obj(seq![("trigger"@, JsonV::Str(trigger)), ("action"@, JsonV::Str(action))])
}

/// The `ON (DELETE | UPDATE) action _` clauses from `p`, after `acc`, and
/// where they end.
pub open spec fn reference_on_list(ts: Seq<SToken>, p: int, acc: Seq<JsonV>) -> (int, Seq<JsonV>)
    decreases ts.len() - p,
{
    if is_keyword_at(ts, p, "ON"@) && ws1_end(ts, p + 1) is Some && one_of_at(
        ts,
        ws1_end(ts, p + 1)->Some_0,
        trigger_words(),
    ) && ws1_end(ts, ws1_end(ts, p + 1)->Some_0 + 1) is Some && reference_action_at(
        ts,
        ws1_end(ts, ws1_end(ts, p + 1)->Some_0 + 1)->Some_0,
    ) is Some {
        let a = ws1_end(ts, p + 1)->Some_0;
        let b = ws1_end(ts, a + 1)->Some_0;
        let (c, act) = reference_action_at(ts, b)->Some_0;
        let e = ws_end(ts, c);
        if p < e <= ts.len() {
            reference_on_list(ts, e, acc.push(on_action_v(ts[a].value, act)))
        } else {
            (p, acc)
        }
    } else {
        (p, acc)
    }
}

/// The definition of a column reference.
pub open spec fn reference_def(table: Seq<char>, cols: Seq<JsonV>, m: Option<Seq<char>>, on: Seq<JsonV>) -> JsonV {
    JsonV::Obj(
        seq![
            ("table"@, JsonV::Str(table)),
            ("columns"@, JsonV::Arr(cols)),
            (
                "match"@,
                match m {
                    Some(x) => JsonV::Str(x),
                    None => JsonV::Null,
                },
            ),
            ("on"@, JsonV::Arr(on)),
        ],
    )
}

/// A `REFERENCES table (columns) [MATCH m] [ON ... action]*` at `p`: its end
/// and node.
pub open spec fn column_reference_at(ts: Seq<SToken>, p: int) -> Option<(int, JsonV)> {
    if !is_keyword_at(ts, p, "REFERENCES"@) {
        None
    } else {
        match ws1_end(ts, p + 1) {
            None => None,
            Some(t) => match ident_at(ts, t) {
                None => None,
                Some(table) => match index_columns_at(ts, t + 1) {
                    None => None,
                    Some((e, cols)) => {
                        let m0 = ws_end(ts, e);
                        let (m1, m) = if is_keyword_at(ts, m0, "MATCH"@) && ws1_end(ts, m0 + 1) is Some && one_of_at(
                            ts,
                            ws1_end(ts, m0 + 1)->Some_0,
                            match_words(),
                        ) {
                            let a = ws1_end(ts, m0 + 1)->Some_0;
                            (ws_end(ts, a + 1), Some(ts[a].value))
                        } else {
                            (m0, None::<Seq<char>>)
                        };
                        let (f, on) = reference_on_list(ts, m1, seq![]);
                        Some((f, node_v("P_COLUMN_REFERENCE"@, reference_def(table, cols, m, on))))
                    },
                },
            },
        }
    }
}

/// Parse `P_COLUMN_REFERENCE`:
/// `REFERENCES table ( cols ) [MATCH ...]? [ON (DELETE|UPDATE) action]*`.
pub fn p_column_reference(s: &mut Stream) -> (r: Option<Json>)
    ensures
        frame(*old(s), *final(s)),
        reached(*old(s), *final(s), column_reference_reach(old(s).spec_tokens(), old(s).spec_pos())),
        r is Some ==> final(s).spec_pos() > old(s).spec_pos(),
        r is None ==> final(s).spec_pos() == old(s).spec_pos(),
        r matches Some(v) ==> is_node(v@, "P_COLUMN_REFERENCE"@),
        match column_reference_at(old(s).spec_tokens(), old(s).spec_pos()) {
            Some((e, v)) => r matches Some(x) && x@ == v && final(s).spec_pos() == e,
            None => r is None,
        },
{
    let ghost ts = s.spec_tokens();
    let save = s.pos();
    if s.eat_keyword("REFERENCES").is_none() {
        return None;
    }
    if !s.ws1() {
        s.set(save);
        return None;
    }
    let table = match s_identifier(s) {
        Some(t) => t,
        None => {
            s.set(save);
            return None;
        },
    };
    // Columns: `( col (, col)* )` then trailing whitespace.
    let columns = match index_column_list(s) {
        Some(c) => c,
        None => {
            s.set(save);
            return None;
        },
    };
    s.ws0();

    // Optional MATCH (FULL|PARTIAL|SIMPLE).
    let mut match_val: Option<String> = None;
    let msave = s.pos();
    if s.eat_keyword("MATCH").is_some() {
        if s.ws1() {
            let words: [&str; 3] = ["FULL", "PARTIAL", "SIMPLE"];
            assert(words@ =~= match_words());
            if let Some(v) = one_of_keywords(s, &words) {
                match_val = Some(v);
                s.ws0();
            } else {
                s.set(msave);
            }
        } else {
            s.set(msave);
        }
    }
    // Zero or more ON (DELETE|UPDATE) action.
    let ghost target = reference_on_list(ts, s.spec_pos(), seq![]);
    let ghost g = mx(s.spec_furthest(), reference_on_reach(ts, s.spec_pos()));
    let mut on: Vec<Json> = Vec::new();
    loop
        invariant
            frame(*old(s), *s),
            s.spec_tokens() == ts,
            s.spec_pos() > save,
            save == old(s).spec_pos(),
            reference_on_list(ts, s.spec_pos(), crate::json::view_arr(on@)) == target,
            mx(s.spec_furthest(), reference_on_reach(ts, s.spec_pos())) == g,
        ensures
            target == (s.spec_pos(), crate::json::view_arr(on@)),
            s.spec_furthest() == g,
        decreases s.spec_tokens().len() - s.spec_pos(),
    {
        let osave = s.pos();
        if s.eat_keyword("ON").is_none() {
            break;
        }
        if !s.ws1() {
            s.set(osave);
            break;
        }
        let words: [&str; 2] = ["DELETE", "UPDATE"];
        assert(words@ =~= trigger_words());
        let trigger = match one_of_keywords(s, &words) {
            Some(v) => v,
            None => {
                s.set(osave);
                break;
            },
        };
        if !s.ws1() {
            s.set(osave);
            break;
        }
        let action = match reference_action(s) {
            Some(v) => v,
            None => {
                s.set(osave);
                break;
            },
        };
        s.ws0();
        let ghost tv = trigger@;
        let ghost av = action@;
        let mut o: Vec<(String, Json)> = Vec::new();
        put(&mut o, "trigger", Json::Str(trigger));
        put(&mut o, "action", Json::Str(action));
        assert(crate::json::view_obj(o@) =~= on_action_v(tv, av)->Obj_0);
        let item = Json::Obj(o);
        proof {
            crate::json::lemma_view_arr_push(on@, item);
        }
        on.push(item);
    }
    let ghost cv = crate::json::view_arr(columns@);
    let ghost mv = super::helpers::opt_view(match_val);
    let ghost onv = crate::json::view_arr(on@);
    let mut def: Vec<(String, Json)> = Vec::new();
    put(&mut def, "table", Json::Str(table));
    put(&mut def, "columns", Json::Arr(columns));
    // A failed optional yields null in the parse tree.
    put(
        &mut def,
        "match",
        match match_val {
            Some(m) => Json::Str(m),
            None => Json::Null,
        },
    );
    put(&mut def, "on", Json::Arr(on));
    assert(crate::json::view_obj(def@) =~= reference_def(table@, cv, mv, onv)->Obj_0);
    Some(node("P_COLUMN_REFERENCE", Json::Obj(def)))
}

/// Parse a reference action: RESTRICT, CASCADE, SET NULL, SET DEFAULT or
/// NO ACTION.
pub fn reference_action(s: &mut Stream) -> (r: Option<String>)
    ensures
        frame(*old(s), *final(s)),
        reached(*old(s), *final(s), reference_action_reach(old(s).spec_tokens(), old(s).spec_pos())),
        r is Some ==> final(s).spec_pos() > old(s).spec_pos(),
        r is None ==> final(s).spec_pos() == old(s).spec_pos(),
        match reference_action_at(old(s).spec_tokens(), old(s).spec_pos()) {
            Some((e, v)) => r matches Some(x) && x@ == v && final(s).spec_pos() == e,
            None => r is None,
        },
{
    proof {
        reveal_strlit("RESTRICT");
        assert("RESTRICT"@.len() == 8);
        assert("RESTRICT"@[0] == 'R');
        reveal_strlit("CASCADE");
        assert("CASCADE"@.len() == 7);
        assert("CASCADE"@[0] == 'C');
        reveal_strlit("SET");
        assert("SET"@.len() == 3);
        assert("SET"@[0] == 'S');
        reveal_strlit("NO");
        assert("NO"@.len() == 2);
        assert("NO"@[0] == 'N');
    }
    let save = s.pos();
    if let Some(v) = s.eat_keyword("RESTRICT") {
        return Some(v);
    }
    if let Some(v) = s.eat_keyword("CASCADE") {
        return Some(v);
    }
    // SET NULL or SET DEFAULT.
    if let Some(set) = s.eat_keyword("SET") {
        if s.ws1() {
            if let Some(null) = s.eat_keyword("NULL") {
                return Some(concat3(set.as_str(), " ", null.as_str()));
            }
            if let Some(def) = s.eat_keyword("DEFAULT") {
                return Some(concat3(set.as_str(), " ", def.as_str()));
            }
        }
        s.set(save);
    }
    // NO ACTION
    if let Some(no) = s.eat_keyword("NO") {
        if s.ws1() {
            if let Some(action) = s.eat_keyword("ACTION") {
                return Some(concat3(no.as_str(), " ", action.as_str()));
            }
        }
        s.set(save);
    }
    None
}

/// Parse a datatype, requiring success. Used by column and add-column rules.
pub fn require_datatype(s: &mut Stream) -> (r: Option<Json>)
    ensures
        frame(*old(s), *final(s)),
        reached(*old(s), *final(s), datatype_reach(old(s).spec_tokens(), old(s).spec_pos())),
        r is Some ==> final(s).spec_pos() > old(s).spec_pos(),
        r matches Some(v) ==> is_node(v@, "O_DATATYPE"@),
        match datatype_at(old(s).spec_tokens(), old(s).spec_pos()) {
            Some((e, v)) => r matches Some(x) && x@ == v && final(s).spec_pos() == e,
            None => r is None,
        },
{
    o_datatype(s)
}


/// The attribute `NULL` makes a column nullable and `NOT NULL` makes it not
/// nullable: each parses, as the column attribute at `p`, to one
/// `O_COLUMN_DEFINITION` node holding `nullable` and nothing else.
pub proof fn law_null_attributes(ts: Seq<SToken>, p: int)
    ensures
        is_keyword_at(ts, p, "NULL"@) ==> column_attr_at(ts, p) == Some(
            (
                p + 1,
                JsonV::Obj(
                    seq![
                        ("id"@, JsonV::Str("O_COLUMN_DEFINITION"@)),
                        ("def"@, JsonV::Obj(seq![("nullable"@, JsonV::Bool(true))])),
                    ],
                ),
            ),
        ),
        is_keyword_at(ts, p, "NOT"@) && ws1_end(ts, p + 1) is Some && is_keyword_at(
            ts,
            ws1_end(ts, p + 1)->Some_0,
            "NULL"@,
        ) ==> column_attr_at(ts, p) == Some(
            (
                ws1_end(ts, p + 1)->Some_0 + 1,
                JsonV::Obj(
                    seq![
                        ("id"@, JsonV::Str("O_COLUMN_DEFINITION"@)),
                        ("def"@, JsonV::Obj(seq![("nullable"@, JsonV::Bool(false))])),
                    ],
                ),
            ),
        ),
{
    reveal_strlit("UNSIGNED");
    reveal_strlit("ZEROFILL");
    reveal_strlit("CHARSET");
    reveal_strlit("CHARACTER");
    reveal_strlit("COLLATE");
    reveal_strlit("NOT");
    reveal_strlit("NULL");
    assert("UNSIGNED"@.len() == 8 && "ZEROFILL"@.len() == 8 && "CHARSET"@.len() == 7);
    assert("CHARACTER"@.len() == 9 && "COLLATE"@.len() == 7);
    assert("NOT"@.len() == 3 && "NULL"@.len() == 4);
}

/// The sign and text attributes of a column: `UNSIGNED` and `ZEROFILL`
/// set their flag, `CHARSET w` and `CHARACTER SET w` name the character
/// set `w`, and `COLLATE w` the collation `w`, each as one
/// `O_COLUMN_DEFINITION` node.
pub proof fn law_sign_and_text_attributes(ts: Seq<SToken>, p: int)
    ensures
        is_keyword_at(ts, p, "UNSIGNED"@) ==> column_attr_at(ts, p) == Some(
            (p + 1, col_def_v("unsigned"@, JsonV::Bool(true))),
        ),
        is_keyword_at(ts, p, "ZEROFILL"@) ==> column_attr_at(ts, p) == Some(
            (p + 1, col_def_v("zerofill"@, JsonV::Bool(true))),
        ),
        is_keyword_at(ts, p, "CHARSET"@) && ws1_end(ts, p + 1) is Some && word_at(ts, ws1_end(ts, p + 1)->Some_0)
            is Some ==> column_attr_at(ts, p) == Some(
            (
                ws1_end(ts, p + 1)->Some_0 + 1,
                col_def_v("charset"@, JsonV::Str(word_at(ts, ws1_end(ts, p + 1)->Some_0)->Some_0)),
            ),
        ),
        is_keyword_at(ts, p, "COLLATE"@) && ws1_end(ts, p + 1) is Some && word_at(ts, ws1_end(ts, p + 1)->Some_0)
            is Some ==> column_attr_at(ts, p) == Some(
            (
                ws1_end(ts, p + 1)->Some_0 + 1,
                col_def_v("collation"@, JsonV::Str(word_at(ts, ws1_end(ts, p + 1)->Some_0)->Some_0)),
            ),
        ),
{
    reveal_strlit("UNSIGNED");
    reveal_strlit("ZEROFILL");
    reveal_strlit("CHARSET");
    reveal_strlit("CHARACTER");
    reveal_strlit("COLLATE");
    assert("UNSIGNED"@.len() == 8 && "ZEROFILL"@.len() == 8 && "CHARSET"@.len() == 7);
    assert("CHARACTER"@.len() == 9 && "COLLATE"@.len() == 7);
    assert("UNSIGNED"@[0] == 'U' && "ZEROFILL"@[0] == 'Z');
    assert("CHARSET"@[1] == 'H' && "COLLATE"@[1] == 'O');
}

} // verus!
