//! Remaining statement rules: create index, databases, drop, rename, set, use.

use vstd::prelude::*;

use crate::json::{concat3, is_node, node, obj1, put, Json};
use crate::lexer::TokenKind;

use super::common::{index_columns_reach, index_options_reach, index_type_reach, keyed_word_reach, three_words_reach, two_words_reach, algorithm_words, index_column_list, index_columns_at, index_option_list, index_options, index_type_at, keyed_word_at, lock_words, one_of_at, one_of_keywords, p_index_algorithm_option, p_index_type, p_lock_option};
use super::create_table::{charset_at, charset_reach, collate_at, collate_reach, eos_reach, opt_charset, opt_collate, s_eos};
use super::datatypes::alt_reach;
use super::helpers::{is_ident_kind, s_identifier, s_number};
use super::stream::{frame, is_keyword_at, is_kind_at, mx, reached, ws_end, Stream};
use crate::json::JsonV;
use crate::lexer::{SKind, SToken};

verus! {

broadcast use super::stream::lemma_stream_bounds;

/// A node `{ id, def }`.
pub open spec fn node_v(id: Seq<char>, def: JsonV) -> JsonV {
    JsonV::Obj(seq![("id"@, JsonV::Str(id)), ("def"@, def)])
}

/// Where mandatory whitespace from `p` ends, if there is some.
pub open spec fn ws1_end(ts: Seq<SToken>, p: int) -> Option<int> {
    if ws_end(ts, p) > p {
        Some(ws_end(ts, p))
    } else {
        None
    }
}

/// The value of an identifier (or a keyword used as one) at `p`.
pub open spec fn ident_at(ts: Seq<SToken>, p: int) -> Option<Seq<char>> {
    if 0 <= p < ts.len() && is_ident_kind(ts[p].kind) {
        Some(ts[p].value)
    } else {
        None
    }
}

/// Where an end of statement (whitespace, then `;`) from `p` ends.
pub open spec fn eos_end(ts: Seq<SToken>, p: int) -> Option<int> {
    if is_kind_at(ts, ws_end(ts, p), SKind::Semicolon) {
        Some(ws_end(ts, p) + 1)
    } else {
        None
    }
}

/// Where an optional `__ IF __ EXISTS` from `p` ends.
pub open spec fn if_exists_end(ts: Seq<SToken>, p: int) -> int {
    match ws1_end(ts, p) {
        Some(p1) => if is_keyword_at(ts, p1, "IF"@) {
            match ws1_end(ts, p1 + 1) {
                Some(p2) => if is_keyword_at(ts, p2, "EXISTS"@) {
                    p2 + 1
                } else {
                    p
                },
                None => p,
            }
        } else {
            p
        },
        None => p,
    }
}

/// Where an optional `__ WAIT __ n` or `__ NOWAIT` from `p` ends.
pub open spec fn wait_end(ts: Seq<SToken>, p: int) -> int {
    let waited = match ws1_end(ts, p) {
        Some(p1) => if is_keyword_at(ts, p1, "WAIT"@) {
            match ws1_end(ts, p1 + 1) {
                Some(p2) => if is_kind_at(ts, p2, SKind::Number) {
                    Some(p2 + 1)
                } else {
                    None
                },
                None => None,
            }
        } else {
            None
        },
        None => None,
    };
    match waited {
        Some(e) => e,
        None => match ws1_end(ts, p) {
            Some(p1) => if is_keyword_at(ts, p1, "NOWAIT"@) {
                p1 + 1
            } else {
                p
            },
            None => p,
        },
    }
}

/// How far an attempt at `__ WAIT __ n | __ NOWAIT` from `p` reads.
pub open spec fn wait_reach(ts: Seq<SToken>, p: int) -> int {
    let a = ws_end(ts, p);
    let b = ws_end(ts, a + 1);
    let waited = a > p && is_keyword_at(ts, a, "WAIT"@) && b > a + 1 && is_kind_at(ts, b, SKind::Number);
    let r1 = if !(a > p && is_keyword_at(ts, a, "WAIT"@)) {
        a
    } else if b > a + 1 && is_kind_at(ts, b, SKind::Number) {
        b + 1
    } else {
        b
    };
    if waited {
        r1
    } else {
        mx(r1, if a > p && is_keyword_at(ts, a, "NOWAIT"@) { a + 1 } else { a })
    }
}

/// How far an attempt at `__ w` from `p`, with `w` one of `words`, reads.
pub open spec fn ws_word_reach(ts: Seq<SToken>, p: int, words: Seq<&str>) -> int {
    let a = ws_end(ts, p);
    if a > p && one_of_at(ts, a, words) {
        a + 1
    } else {
        a
    }
}

/// How far the algorithm and lock options from `p`, each after optional
/// whitespace, read.
pub open spec fn algo_lock_reach(ts: Seq<SToken>, p: int) -> int
    decreases ts.len() - p,
{
    let a = ws_end(ts, p);
    let step = alt_reach(
        keyed_word_at(ts, a, "ALGORITHM"@, algorithm_words()) is Some,
        mx(a, keyed_word_reach(ts, a, "ALGORITHM"@, algorithm_words())),
        mx(a, keyed_word_reach(ts, a, "LOCK"@, lock_words())),
    );
    match algo_lock_at(ts, a) {
        Some((e, _)) => if p < e <= ts.len() {
            mx(mx(p, step), algo_lock_reach(ts, e))
        } else {
            mx(p, step)
        },
        None => mx(p, step),
    }
}

/// How far an attempt at the rest of a `CREATE INDEX` from its name at `q`
/// reads.
pub open spec fn create_index_tail_reach(ts: Seq<SToken>, q: int) -> int {
    if ident_at(ts, q) is None {
        q
    } else {
        let a = ws_end(ts, q + 1);
        let itr = if a > q + 1 {
            mx(a, index_type_reach(ts, a))
        } else {
            a
        };
        let pe = match ws1_end(ts, q + 1) {
            Some(a) => match index_type_at(ts, a) {
                Some((e, _)) => e,
                None => q + 1,
            },
            None => q + 1,
        };
        let o = ws_end(ts, pe);
        let t0 = ws_end(ts, o + 1);
        let head = mx(q + 1, mx(itr, o));
        if !(o > pe && is_keyword_at(ts, o, "ON"@)) {
            head
        } else if !(t0 > o + 1) {
            mx(head, t0)
        } else if ident_at(ts, t0) is None {
            mx(head, t0)
        } else {
            let pf = match index_columns_at(ts, t0 + 1) {
                Some((e, _)) => e,
                None => t0 + 1,
            };
            let w = wait_end(ts, pf);
            let ph = index_option_list(ts, w, seq![]).0;
            let pi = algo_lock_list(ts, ph, index_option_list(ts, w, seq![]).1).0;
            mx(
                mx(head, mx(t0 + 1, index_columns_reach(ts, t0 + 1))),
                mx(mx(wait_reach(ts, pf), index_options_reach(ts, w)), mx(algo_lock_reach(ts, ph), eos_reach(ts, pi))),
            )
        }
    }
}

/// How far an attempt at a `CREATE INDEX` at `p` reads.
#[verifier::opaque]
pub open spec fn create_index_reach(ts: Seq<SToken>, p: int) -> int {
    if !is_keyword_at(ts, p, "CREATE"@) {
        p
    } else {
        let a1 = or_replace_end(ts, p + 1);
        let pb = online_end(ts, a1);
        let pc = index_modifier_at(ts, pb).0;
        let a = ws_end(ts, pc);
        let head = mx(
            mx(p + 1, two_words_reach(ts, p + 1, "OR"@, "REPLACE"@)),
            mx(ws_word_reach(ts, a1, online_words()), mx(ws_word_reach(ts, pb, index_modifier_words()), a)),
        );
        if !(a > pc && is_keyword_at(ts, a, "INDEX"@)) {
            head
        } else {
            let ne = if_not_exists_end(ts, a + 1);
            let q = ws_end(ts, ne);
            let r = mx(head, mx(a + 1, mx(three_words_reach(ts, a + 1, "IF"@, "NOT"@, "EXISTS"@), q)));
            if !(q > ne) {
                r
            } else {
                mx(r, create_index_tail_reach(ts, q))
            }
        }
    }
}

/// How far an attempt at a database spec at `p` reads.
pub open spec fn db_spec_reach(ts: Seq<SToken>, p: int) -> int {
    alt_reach(charset_at(ts, p) is Some, charset_reach(ts, p), collate_reach(ts, p))
}

/// How far the run of `__ spec` database options from `p` reads.
pub open spec fn db_specs_reach(ts: Seq<SToken>, p: int, id: Seq<char>) -> int
    decreases ts.len() - p,
{
    match ws1_end(ts, p) {
        Some(a) => match db_spec_at(ts, a, id) {
            Some((e, _)) => if p < e <= ts.len() {
                mx(mx(p, mx(a, db_spec_reach(ts, a))), db_specs_reach(ts, e, id))
            } else {
                mx(p, mx(a, db_spec_reach(ts, a)))
            },
            None => mx(p, mx(a, db_spec_reach(ts, a))),
        },
        None => mx(p, ws_end(ts, p)),
    }
}

/// How far an attempt at `__ IF [__ NOT] __ EXISTS` from `p` reads.
pub open spec fn if_maybe_not_exists_reach(ts: Seq<SToken>, p: int) -> int {
    let i = ws_end(ts, p);
    if !(i > p && is_keyword_at(ts, i, "IF"@)) {
        i
    } else {
        let n = ws_end(ts, i + 1);
        let b = if n > i + 1 && is_keyword_at(ts, n, "NOT"@) {
            n + 1
        } else {
            i + 1
        };
        let c = ws_end(ts, b);
        mx(mx(i + 1, if n > i + 1 && is_keyword_at(ts, n, "NOT"@) { n + 1 } else { n }), if c > b && is_keyword_at(ts, c, "EXISTS"@) { c + 1 } else { c })
    }
}

/// How far an attempt at a `CREATE DATABASE` at `p` reads.
#[verifier::opaque]
pub open spec fn create_db_reach(ts: Seq<SToken>, p: int) -> int {
    let p1 = ws_end(ts, p + 1);
    if !is_keyword_at(ts, p, "CREATE"@) {
        p
    } else if !(p1 > p + 1) {
        p1
    } else {
        let a = ws_end(ts, p1 + 1);
        let c = ws_end(ts, a + 1);
        let orr = if !is_keyword_at(ts, p1, "OR"@) {
            p1
        } else if !(a > p1 + 1 && is_keyword_at(ts, a, "REPLACE"@)) {
            a
        } else {
            c
        };
        let p2 = match ws1_end(ts, p1 + 1) {
            Some(a) => if is_keyword_at(ts, p1, "OR"@) && is_keyword_at(ts, a, "REPLACE"@) && ws1_end(ts, a + 1) is Some {
                ws1_end(ts, a + 1)->Some_0
            } else {
                p1
            },
            None => p1,
        };
        if !one_of_at(ts, p2, database_words()) {
            mx(orr, p2)
        } else {
            let m = if_maybe_not_exists_end(ts, p2 + 1);
            let p4 = ws_end(ts, m);
            let r = mx(mx(orr, p2 + 1), mx(if_maybe_not_exists_reach(ts, p2 + 1), p4));
            if !(p4 > m && ident_at(ts, p4) is Some) {
                r
            } else {
                let p5 = db_spec_list(ts, p4 + 1, "O_CREATE_DB_SPEC"@, seq![]).0;
                mx(mx(r, p4 + 1), mx(db_specs_reach(ts, p4 + 1, "O_CREATE_DB_SPEC"@), eos_reach(ts, p5)))
            }
        }
    }
}

/// How far an attempt at an `ALTER DATABASE` at `p` reads.
#[verifier::opaque]
pub open spec fn alter_db_reach(ts: Seq<SToken>, p: int) -> int {
    let p1 = ws_end(ts, p + 1);
    if !is_keyword_at(ts, p, "ALTER"@) {
        p
    } else if !(p1 > p + 1 && one_of_at(ts, p1, database_words())) {
        p1
    } else {
        let a = ws_end(ts, p1 + 1);
        let nr = if a > p1 + 1 && ident_at(ts, a) is Some {
            a + 1
        } else {
            a
        };
        let p2 = match ws1_end(ts, p1 + 1) {
            Some(a) => match ident_at(ts, a) {
                Some(_) => a + 1,
                None => p1 + 1,
            },
            None => p1 + 1,
        };
        let (p3, meta) = db_spec_list(ts, p2, "O_ALTER_DB_SPEC"@, seq![]);
        mx(
            mx(p1 + 1, nr),
            mx(db_specs_reach(ts, p2, "O_ALTER_DB_SPEC"@), if meta.len() > 0 { eos_reach(ts, p3) } else { p2 }),
        )
    }
}

/// How far an attempt at a `DROP DATABASE` at `p` reads.
#[verifier::opaque]
pub open spec fn drop_db_reach(ts: Seq<SToken>, p: int) -> int {
    let p1 = ws_end(ts, p + 1);
    if !is_keyword_at(ts, p, "DROP"@) {
        p
    } else if !(p1 > p + 1 && one_of_at(ts, p1, database_words())) {
        p1
    } else {
        let ie = if_exists_end(ts, p1 + 1);
        let p3 = ws_end(ts, ie);
        let r = mx(mx(p1 + 1, two_words_reach(ts, p1 + 1, "IF"@, "EXISTS"@)), p3);
        if !(p3 > ie && ident_at(ts, p3) is Some) {
            r
        } else {
            mx(r, mx(p3 + 1, eos_reach(ts, p3 + 1)))
        }
    }
}

/// How far the algorithm and lock options from `p`, each after whitespace,
/// read.
pub open spec fn index_opt_reach(ts: Seq<SToken>, p: int) -> int
    decreases ts.len() - p,
{
    let a = ws_end(ts, p);
    let step = if a > p {
        alt_reach(
            keyed_word_at(ts, a, "ALGORITHM"@, algorithm_words()) is Some,
            mx(a, keyed_word_reach(ts, a, "ALGORITHM"@, algorithm_words())),
            mx(a, keyed_word_reach(ts, a, "LOCK"@, lock_words())),
        )
    } else {
        a
    };
    match index_opt_at(ts, p) {
        Some((e, _)) => if p < e <= ts.len() {
            mx(mx(p, step), index_opt_reach(ts, e))
        } else {
            mx(p, step)
        },
        None => mx(p, step),
    }
}

/// How far an attempt at a `DROP INDEX` at `p` reads.
#[verifier::opaque]
pub open spec fn drop_index_reach(ts: Seq<SToken>, p: int) -> int {
    let p1 = ws_end(ts, p + 1);
    if !is_keyword_at(ts, p, "DROP"@) {
        p
    } else if !(p1 > p + 1) {
        p1
    } else {
        let a = ws_end(ts, p1 + 1);
        let onr = if is_keyword_at(ts, p1, "ONLINE"@) || is_keyword_at(ts, p1, "OFFLINE"@) {
            a
        } else {
            p1
        };
        let p2 = if (is_keyword_at(ts, p1, "ONLINE"@) || is_keyword_at(ts, p1, "OFFLINE"@)) && ws1_end(ts, p1 + 1) is Some {
            ws1_end(ts, p1 + 1)->Some_0
        } else {
            p1
        };
        if !is_keyword_at(ts, p2, "INDEX"@) {
            mx(onr, p2)
        } else {
            let ie = if_exists_end(ts, p2 + 1);
            let p4 = ws_end(ts, ie);
            let r = mx(mx(onr, p2 + 1), mx(two_words_reach(ts, p2 + 1, "IF"@, "EXISTS"@), p4));
            if !(p4 > ie && ident_at(ts, p4) is Some) {
                r
            } else {
                let p5 = ws_end(ts, p4 + 1);
                let p6 = ws_end(ts, p5 + 1);
                if !(p5 > p4 + 1 && is_keyword_at(ts, p5, "ON"@)) {
                    mx(r, mx(p4 + 1, p5))
                } else if !(p6 > p5 + 1 && ident_at(ts, p6) is Some) {
                    mx(r, p6)
                } else {
                    let w = wait_end(ts, p6 + 1);
                    let p7 = index_opt_list(ts, w, seq![]).0;
                    mx(mx(r, mx(p6 + 1, wait_reach(ts, p6 + 1))), mx(index_opt_reach(ts, w), eos_reach(ts, p7)))
                }
            }
        }
    }
}

/// How far the further names `, t` of a `DROP TABLE` from `p` read.
pub open spec fn drop_rest_reach(ts: Seq<SToken>, p: int) -> int
    decreases ts.len() - p,
{
    let a = ws_end(ts, p);
    let b = ws_end(ts, a + 1);
    if p >= 0 && is_kind_at(ts, a, SKind::Comma) {
        match ident_at(ts, b) {
            Some(_) => if b + 1 > p {
                mx(p, drop_rest_reach(ts, b + 1))
            } else {
                mx(p, b)
            },
            None => mx(p, b),
        }
    } else {
        mx(p, a)
    }
}

/// How far an attempt at a `DROP TABLE` at `p` reads.
#[verifier::opaque]
pub open spec fn drop_table_reach(ts: Seq<SToken>, p: int) -> int {
    let p1 = ws_end(ts, p + 1);
    if !is_keyword_at(ts, p, "DROP"@) {
        p
    } else if !(p1 > p + 1) {
        p1
    } else {
        let a = ws_end(ts, p1 + 1);
        let tr = if is_keyword_at(ts, p1, "TEMPORARY"@) {
            a
        } else {
            p1
        };
        let p2 = if is_keyword_at(ts, p1, "TEMPORARY"@) && ws1_end(ts, p1 + 1) is Some {
            ws1_end(ts, p1 + 1)->Some_0
        } else {
            p1
        };
        if !is_keyword_at(ts, p2, "TABLE"@) {
            mx(tr, p2)
        } else {
            let ie = if_exists_end(ts, p2 + 1);
            let p4 = ws_end(ts, ie);
            let r = mx(mx(tr, p2 + 1), mx(two_words_reach(ts, p2 + 1, "IF"@, "EXISTS"@), p4));
            if !(p4 > ie && ident_at(ts, p4) is Some) {
                r
            } else {
                let p5 = drop_list(ts, p4 + 1, seq![ident_at(ts, p4)->Some_0]).0;
                let p6 = wait_end(ts, p5);
                let q = ws_end(ts, p6);
                let rc = if q > p6 && (is_keyword_at(ts, q, "RESTRICT"@) || is_keyword_at(ts, q, "CASCADE"@)) {
                    q + 1
                } else {
                    q
                };
                let p7 = match ws1_end(ts, p6) {
                    Some(q) => if is_keyword_at(ts, q, "RESTRICT"@) || is_keyword_at(ts, q, "CASCADE"@) {
                        q + 1
                    } else {
                        p6
                    },
                    None => p6,
                };
                mx(mx(r, mx(p4 + 1, drop_rest_reach(ts, p4 + 1))), mx(mx(wait_reach(ts, p5), rc), eos_reach(ts, p7)))
            }
        }
    }
}

/// How far an attempt at `__ TO __ ident` from `p` reads.
pub open spec fn to_name_reach(ts: Seq<SToken>, p: int) -> int {
    let a = ws_end(ts, p);
    let b = ws_end(ts, a + 1);
    if !(a > p && is_keyword_at(ts, a, "TO"@)) {
        a
    } else if b > a + 1 && ident_at(ts, b) is Some {
        b + 1
    } else {
        b
    }
}

/// How far the further pairs `, t TO n` of a `RENAME TABLE` from `p` read.
pub open spec fn rename_rest_reach(ts: Seq<SToken>, p: int) -> int
    decreases ts.len() - p,
{
    let a = ws_end(ts, p);
    let b = ws_end(ts, a + 1);
    if p >= 0 && is_kind_at(ts, a, SKind::Comma) {
        match ident_at(ts, b) {
            Some(_) => match to_name_at(ts, b + 1) {
                Some((p3, _)) => if p3 > p {
                    mx(mx(p, mx(b + 1, to_name_reach(ts, b + 1))), rename_rest_reach(ts, p3))
                } else {
                    mx(p, mx(b + 1, to_name_reach(ts, b + 1)))
                },
                None => mx(p, mx(b + 1, to_name_reach(ts, b + 1))),
            },
            None => mx(p, b),
        }
    } else {
        mx(p, a)
    }
}

/// How far an attempt at a `RENAME TABLE` at `p` reads.
#[verifier::opaque]
pub open spec fn rename_table_reach(ts: Seq<SToken>, p: int) -> int {
    let p1 = ws_end(ts, p + 1);
    let p2 = ws_end(ts, p1 + 1);
    if !is_keyword_at(ts, p, "RENAME"@) {
        p
    } else if !(p1 > p + 1 && is_keyword_at(ts, p1, "TABLE"@)) {
        p1
    } else if !(p2 > p1 + 1 && ident_at(ts, p2) is Some) {
        p2
    } else {
        let w = wait_end(ts, p2 + 1);
        let r = mx(mx(p2 + 1, wait_reach(ts, p2 + 1)), to_name_reach(ts, w));
        match to_name_at(ts, w) {
            None => r,
            Some((p4, n)) => {
                let p5 = rename_list(ts, p4, seq![(ident_at(ts, p2)->Some_0, n)]).0;
                mx(r, mx(rename_rest_reach(ts, p4), eos_reach(ts, p5)))
            },
        }
    }
}

/// How far a scan for the `;` that ends a `SET` from `p` reads.
pub open spec fn set_reach(ts: Seq<SToken>, p: int) -> int
    decreases ts.len() - p,
{
    let w = ws_end(ts, p);
    if p < 0 || p >= ts.len() {
        mx(p, w)
    } else if is_kind_at(ts, w, SKind::Semicolon) {
        mx(p, w + 1)
    } else if ts[p].kind is Semicolon {
        mx(p, w)
    } else {
        mx(mx(p, w), set_reach(ts, p + 1))
    }
}

/// How far an attempt at a `SET` at `p` reads.
#[verifier::opaque]
pub open spec fn set_stmt_reach(ts: Seq<SToken>, p: int) -> int {
    let p1 = ws_end(ts, p + 1);
    if !is_keyword_at(ts, p, "SET"@) {
        p
    } else if !(p1 > p + 1) {
        p1
    } else {
        set_reach(ts, p1)
    }
}

/// How far an attempt at a `USE` at `p` reads.
#[verifier::opaque]
pub open spec fn use_db_reach(ts: Seq<SToken>, p: int) -> int {
    let p1 = ws_end(ts, p + 1);
    if !is_keyword_at(ts, p, "USE"@) {
        p
    } else if !(p1 > p + 1 && ident_at(ts, p1) is Some) {
        p1
    } else {
        mx(p1 + 1, eos_reach(ts, p1 + 1))
    }
}

/// Where the cursor stands when a statement that opens with `kw __` at `p`
/// does not parse: past the keyword when no whitespace follows it, else
/// where it began.
#[verifier::opaque]
pub open spec fn head_fail_end(ts: Seq<SToken>, p: int, kw: Seq<char>) -> int {
    if is_keyword_at(ts, p, kw) && ws_end(ts, p + 1) == p + 1 {
        p + 1
    } else {
        p
    }
}

/// Where the cursor stands when a `RENAME TABLE` at `p` does not parse: after
/// `RENAME` and the whitespace behind it when `TABLE` does not follow, else
/// where it began.
#[verifier::opaque]
pub open spec fn rename_fail_end(ts: Seq<SToken>, p: int) -> int {
    let a = ws_end(ts, p + 1);
    if is_keyword_at(ts, p, "RENAME"@) && !(a > p + 1 && is_keyword_at(ts, a, "TABLE"@)) {
        a
    } else {
        p
    }
}

/// Optional `__ WAIT __ n | __ NOWAIT`.
fn opt_wait(s: &mut Stream)
    ensures
        frame(*old(s), *final(s)),
        reached(*old(s), *final(s), wait_reach(old(s).spec_tokens(), old(s).spec_pos())),
        final(s).spec_pos() == wait_end(old(s).spec_tokens(), old(s).spec_pos()),
{
    let sp = s.pos();
    if s.ws1() && s.eat_keyword("WAIT").is_some() && s.ws1() && s_number(s).is_some() {
    } else {
        s.set(sp);
        if s.ws1() && s.eat_keyword("NOWAIT").is_some() {
        } else {
            s.set(sp);
        }
    }
}

/// Optional `__ IF __ EXISTS`.
fn opt_if_exists(s: &mut Stream)
    ensures
        frame(*old(s), *final(s)),
        reached(*old(s), *final(s), two_words_reach(old(s).spec_tokens(), old(s).spec_pos(), "IF"@, "EXISTS"@)),
        final(s).spec_pos() == if_exists_end(old(s).spec_tokens(), old(s).spec_pos()),
{
    let sp = s.pos();
    if s.ws1() && s.eat_keyword("IF").is_some() && s.ws1() && s.eat_keyword("EXISTS").is_some() {
    } else {
        s.set(sp);
    }
}

/// Algorithm and lock options from `p`, each after optional whitespace,
/// after `acc`, and where they end.
pub open spec fn algo_lock_list(ts: Seq<SToken>, p: int, acc: Seq<JsonV>) -> (int, Seq<JsonV>)
    decreases ts.len() - p,
{
    match algo_lock_at(ts, ws_end(ts, p)) {
        Some((e, v)) => if p < e <= ts.len() {
            algo_lock_list(ts, e, acc.push(v))
        } else {
            (p, acc)
        },
        None => (p, acc),
    }
}

/// Where an optional `__ IF __ NOT __ EXISTS` from `p` ends.
pub open spec fn if_not_exists_end(ts: Seq<SToken>, p: int) -> int {
    match ws1_end(ts, p) {
        Some(a) => if is_keyword_at(ts, a, "IF"@) {
            match ws1_end(ts, a + 1) {
                Some(b) => if is_keyword_at(ts, b, "NOT"@) {
                    match ws1_end(ts, b + 1) {
                        Some(c) => if is_keyword_at(ts, c, "EXISTS"@) {
                            c + 1
                        } else {
                            p
                        },
                        None => p,
                    }
                } else {
                    p
                },
                None => p,
            }
        } else {
            p
        },
        None => p,
    }
}

/// The online words of `CREATE INDEX`.
pub open spec fn online_words() -> Seq<&'static str> {
    seq!["ONLINE", "OFFLINE"]
}

/// The modifiers of `CREATE INDEX`.
pub open spec fn index_modifier_words() -> Seq<&'static str> {
    seq!["UNIQUE", "FULLTEXT", "SPATIAL"]
}

/// The definition of a `CREATE INDEX`: name, type, index type (null when
/// absent), table, columns where given, options.
pub open spec fn create_index_def(
    name: Seq<char>,
    kind: Seq<char>,
    itype: Option<JsonV>,
    table: Seq<char>,
    columns: Option<Seq<JsonV>>,
    opts: Seq<JsonV>,
) -> JsonV {
    let head = seq![
        ("name"@, JsonV::Str(name)),
        ("type"@, JsonV::Str(kind)),
        (
            "index"@,
            match itype {
                Some(t) => t,
                None => JsonV::Null,
            },
        ),
        ("table"@, JsonV::Str(table)),
    ];
    let with_cols = match columns {
        Some(c) => head.push(("columns"@, JsonV::Arr(c))),
        None => head,
    };
    JsonV::Obj(with_cols.push(("options"@, JsonV::Arr(opts))))
}

/// The rest of a `CREATE INDEX` from its name at `q`, given the index kind:
/// its end and node.
pub open spec fn create_index_tail(ts: Seq<SToken>, q: int, kind: Seq<char>) -> Option<(int, JsonV)> {
    match ident_at(ts, q) {
        None => None,
        Some(name) => {
            let (pe, itype) = match ws1_end(ts, q + 1) {
                Some(a) => match index_type_at(ts, a) {
                    Some((e, t)) => (e, Some(t)),
                    None => (q + 1, None::<JsonV>),
                },
                None => (q + 1, None::<JsonV>),
            };
            match ws1_end(ts, pe) {
                None => None,
                Some(o) => if !is_keyword_at(ts, o, "ON"@) {
                    None
                } else {
                    match ws1_end(ts, o + 1) {
                        None => None,
                        Some(t0) => match ident_at(ts, t0) {
                            None => None,
                            Some(table) => {
                                let (pf, columns) = match index_columns_at(ts, t0 + 1) {
                                    Some((e, c)) => (e, Some(c)),
                                    None => (t0 + 1, None::<Seq<JsonV>>),
                                };
                                let (ph, opts1) = index_option_list(ts, wait_end(ts, pf), seq![]);
                                let (pi, opts) = algo_lock_list(ts, ph, opts1);
                                match eos_end(ts, pi) {
                                    Some(e) => Some(
                                        (e, node_v("P_CREATE_INDEX"@, create_index_def(name, kind, itype, table, columns, opts))),
                                    ),
                                    None => None,
                                }
                            },
                        },
                    }
                },
            }
        },
    }
}

/// Where an optional `__ OR __ REPLACE` from `p` ends.
pub open spec fn or_replace_end(ts: Seq<SToken>, p: int) -> int {
    match ws1_end(ts, p) {
        Some(a) => if is_keyword_at(ts, a, "OR"@) {
            match ws1_end(ts, a + 1) {
                Some(b) => if is_keyword_at(ts, b, "REPLACE"@) {
                    b + 1
                } else {
                    p
                },
                None => p,
            }
        } else {
            p
        },
        None => p,
    }
}

/// Where an optional `__ (ONLINE | OFFLINE)` from `p` ends.
pub open spec fn online_end(ts: Seq<SToken>, p: int) -> int {
    match ws1_end(ts, p) {
        Some(a) => if one_of_at(ts, a, online_words()) {
            a + 1
        } else {
            p
        },
        None => p,
    }
}

/// An optional `__ (UNIQUE | FULLTEXT | SPATIAL)` from `p`: where it ends
/// and the word.
pub open spec fn index_modifier_at(ts: Seq<SToken>, p: int) -> (int, Option<Seq<char>>) {
    match ws1_end(ts, p) {
        Some(a) => if one_of_at(ts, a, index_modifier_words()) {
            (a + 1, Some(ts[a].value))
        } else {
            (p, None)
        },
        None => (p, None),
    }
}

/// A `CREATE [OR REPLACE] [ONLINE | OFFLINE] [UNIQUE | FULLTEXT | SPATIAL]
/// INDEX [IF NOT EXISTS] name [USING type] ON table [(columns)] [WAIT n |
/// NOWAIT] [options];` at `p`: its end and node.
pub open spec fn spec_create_index(ts: Seq<SToken>, p: int) -> Option<(int, JsonV)> {
    if !is_keyword_at(ts, p, "CREATE"@) {
        None
    } else {
        let pb = online_end(ts, or_replace_end(ts, p + 1));
        let (pc, modifier) = index_modifier_at(ts, pb);
        match ws1_end(ts, pc) {
            None => None,
            Some(a) => if !is_keyword_at(ts, a, "INDEX"@) {
                None
            } else {
                let kind = match modifier {
                    Some(m) => m + " "@ + ts[a].value,
                    None => ts[a].value,
                };
                match ws1_end(ts, if_not_exists_end(ts, a + 1)) {
                    None => None,
                    Some(q) => create_index_tail(ts, q, kind),
                }
            },
        }
    }
}

/// Optional `__ OR __ REPLACE`.
fn opt_or_replace(s: &mut Stream)
    ensures
        frame(*old(s), *final(s)),
        reached(*old(s), *final(s), two_words_reach(old(s).spec_tokens(), old(s).spec_pos(), "OR"@, "REPLACE"@)),
        final(s).spec_pos() == or_replace_end(old(s).spec_tokens(), old(s).spec_pos()),
{
    let sp = s.pos();
    if s.ws1() && s.eat_keyword("OR").is_some() && s.ws1() && s.eat_keyword("REPLACE").is_some() {
    } else {
        s.set(sp);
    }
}

/// Optional `__ (ONLINE | OFFLINE)`.
fn opt_online(s: &mut Stream)
    ensures
        frame(*old(s), *final(s)),
        reached(*old(s), *final(s), ws_word_reach(old(s).spec_tokens(), old(s).spec_pos(), online_words())),
        final(s).spec_pos() == online_end(old(s).spec_tokens(), old(s).spec_pos()),
{
    let sp = s.pos();
    let online: [&str; 2] = ["ONLINE", "OFFLINE"];
    assert(online@ =~= online_words());
    if s.ws1() && one_of_keywords(s, &online).is_some() {
    } else {
        s.set(sp);
    }
}

/// Optional `__ (UNIQUE | FULLTEXT | SPATIAL)`.
fn opt_index_modifier(s: &mut Stream) -> (r: Option<String>)
    ensures
        frame(*old(s), *final(s)),
        reached(*old(s), *final(s), ws_word_reach(old(s).spec_tokens(), old(s).spec_pos(), index_modifier_words())),
        index_modifier_at(old(s).spec_tokens(), old(s).spec_pos()) == (
            final(s).spec_pos(),
            super::helpers::opt_view(r),
        ),
{
    let sp = s.pos();
    let modifiers: [&str; 3] = ["UNIQUE", "FULLTEXT", "SPATIAL"];
    assert(modifiers@ =~= index_modifier_words());
    if s.ws1() {
        if let Some(v) = one_of_keywords(s, &modifiers) {
            return Some(v);
        }
    }
    s.set(sp);
    None
}

/// Optional `__ IF __ NOT __ EXISTS`.
fn opt_if_not_exists(s: &mut Stream)
    ensures
        frame(*old(s), *final(s)),
        reached(*old(s), *final(s), three_words_reach(old(s).spec_tokens(), old(s).spec_pos(), "IF"@, "NOT"@, "EXISTS"@)),
        final(s).spec_pos() == if_not_exists_end(old(s).spec_tokens(), old(s).spec_pos()),
{
    let sp = s.pos();
    if s.ws1() && s.eat_keyword("IF").is_some() && s.ws1() && s.eat_keyword("NOT").is_some()
        && s.ws1() && s.eat_keyword("EXISTS").is_some() {
    } else {
        s.set(sp);
    }
}

/// Parse the rest of a `CREATE INDEX` from its name, given the index kind.
#[verifier::rlimit(100)]
fn create_index_rest(s: &mut Stream, type_str: String) -> (r: Option<Json>)
    ensures
        frame(*old(s), *final(s)),
        reached(*old(s), *final(s), create_index_tail_reach(old(s).spec_tokens(), old(s).spec_pos())),
        r is None ==> final(s).spec_pos() == old(s).spec_pos(),
        r matches Some(v) ==> is_node(v@, "P_CREATE_INDEX"@),
        match create_index_tail(old(s).spec_tokens(), old(s).spec_pos(), type_str@) {
            Some((e, v)) => r matches Some(x) && x@ == v && final(s).spec_pos() == e,
            None => r is None,
        },
{
    let ghost ts = s.spec_tokens();
    let save = s.pos();
    let name = match s_identifier(s) {
        Some(n) => n,
        None => {
            return None;
        },
    };
    // Optional index type.
    let mut index: Option<Json> = None;
    let sp = s.pos();
    if s.ws1() {
        if let Some(it) = p_index_type(s) {
            index = Some(it);
        } else {
            s.set(sp);
        }
    } else {
        s.set(sp);
    }
    if !s.ws1() || s.eat_keyword("ON").is_none() || !s.ws1() {
        s.set(save);
        return None;
    }
    let table = match s_identifier(s) {
        Some(t) => t,
        None => {
            s.set(save);
            return None;
        },
    };
    // Optional column list.
    let columns = index_column_list(s);
    opt_wait(s);
    let mut options = index_options(s);
    let ghost ph = s.spec_pos();
    let ghost target = algo_lock_list(ts, ph, crate::json::view_arr(options@));
    let ghost g = mx(s.spec_furthest(), algo_lock_reach(ts, ph));
    // Algorithm and lock options.
    loop
        invariant
            frame(*old(s), *s),
            s.spec_tokens() == ts,
            s.spec_pos() > save,
            save == old(s).spec_pos(),
            algo_lock_list(ts, s.spec_pos(), crate::json::view_arr(options@)) == target,
            mx(s.spec_furthest(), algo_lock_reach(ts, s.spec_pos())) == g,
        ensures
            target == (s.spec_pos(), crate::json::view_arr(options@)),
            s.spec_furthest() == g,
        decreases s.spec_tokens().len() - s.spec_pos(),
    {
        let sp = s.pos();
        s.ws0();
        if let Some(a) = p_index_algorithm_option(s) {
            proof {
                crate::json::lemma_view_arr_push(options@, a);
            }
            options.push(a);
            continue;
        }
        s.set(sp);
        s.ws0();
        if let Some(l) = p_lock_option(s) {
            proof {
                crate::json::lemma_view_arr_push(options@, l);
            }
            options.push(l);
            continue;
        }
        s.set(sp);
        break;
    }
    if !s_eos(s) {
        s.set(save);
        return None;
    }
    let ghost itv: Option<JsonV> = if index is Some {
        Some(index->Some_0@)
    } else {
        None
    };
    let ghost colv: Option<Seq<JsonV>> = if columns is Some {
        Some(crate::json::view_arr(columns->Some_0@))
    } else {
        None
    };
    let ghost optv = crate::json::view_arr(options@);
    let ghost kind = type_str@;
    let mut def: Vec<(String, Json)> = Vec::new();
    put(&mut def, "name", Json::Str(name));
    put(&mut def, "type", Json::Str(type_str));
    // The index type is null when absent.
    put(
        &mut def,
        "index",
        match index {
            Some(i) => i,
            None => Json::Null,
        },
    );
    put(&mut def, "table", Json::Str(table));
    // The columns are omitted when absent.
    if let Some(c) = columns {
        put(&mut def, "columns", Json::Arr(c));
    }
    put(&mut def, "options", Json::Arr(options));
    assert(crate::json::view_obj(def@) =~= create_index_def(name@, kind, itv, table@, colv, optv)->Obj_0);
    Some(node("P_CREATE_INDEX", Json::Obj(def)))
}

/// Parse `P_CREATE_INDEX`.
pub fn p_create_index(s: &mut Stream) -> (r: Option<Json>)
    ensures
        frame(*old(s), *final(s)),
        reached(*old(s), *final(s), create_index_reach(old(s).spec_tokens(), old(s).spec_pos())),
        r is Some ==> final(s).spec_pos() > old(s).spec_pos(),
        r is None ==> final(s).spec_pos() == old(s).spec_pos(),
        r matches Some(v) ==> is_node(v@, "P_CREATE_INDEX"@),
        match spec_create_index(old(s).spec_tokens(), old(s).spec_pos()) {
            Some((e, v)) => r matches Some(x) && x@ == v && final(s).spec_pos() == e,
            None => r is None,
        },
{
    proof {
        reveal(create_index_reach);
    }
    let save = s.pos();
    if s.eat_keyword("CREATE").is_none() {
        return None;
    }
    opt_or_replace(s);
    opt_online(s);
    let modifier = opt_index_modifier(s);
    if !s.ws1() {
        s.set(save);
        return None;
    }
    let index_kw = match s.eat_keyword("INDEX") {
        Some(v) => v,
        None => {
            s.set(save);
            return None;
        },
    };
    // type = (modifier + ' ')? + INDEX, using the raw matched text.
    let type_str = match modifier {
        Some(m) => concat3(m.as_str(), " ", index_kw.as_str()),
        None => index_kw,
    };
    opt_if_not_exists(s);
    if !s.ws1() {
        s.set(save);
        return None;
    }
    match create_index_rest(s, type_str) {
        Some(v) => Some(v),
        None => {
            s.set(save);
            None
        },
    }
}

/// A charset or collation spec `id` at `p`: its end and node.
pub open spec fn db_spec_at(ts: Seq<SToken>, p: int, id: Seq<char>) -> Option<(int, JsonV)> {
    match charset_at(ts, p) {
        Some((e, v)) => Some((e, node_v(id, JsonV::Obj(seq![("charset"@, JsonV::Str(v))])))),
        None => match collate_at(ts, p) {
            Some((e, v)) => Some((e, node_v(id, JsonV::Obj(seq![("collation"@, JsonV::Str(v))])))),
            None => None,
        },
    }
}

/// The run of `__ spec` database options from `p`, after `acc`, and where
/// it ends.
pub open spec fn db_spec_list(ts: Seq<SToken>, p: int, id: Seq<char>, acc: Seq<JsonV>) -> (int, Seq<JsonV>)
    decreases ts.len() - p,
{
    match ws1_end(ts, p) {
        Some(p1) => match db_spec_at(ts, p1, id) {
            Some((e, v)) => if p < e <= ts.len() {
                db_spec_list(ts, e, id, acc.push(v))
            } else {
                (p, acc)
            },
            None => (p, acc),
        },
        None => (p, acc),
    }
}

/// Parse `O_CREATE_DB_SPEC` / `O_ALTER_DB_SPEC`: a charset or a collation.
fn db_spec(s: &mut Stream, id: &str) -> (r: Option<Json>)
    ensures
        frame(*old(s), *final(s)),
        reached(*old(s), *final(s), db_spec_reach(old(s).spec_tokens(), old(s).spec_pos())),
        r is Some ==> final(s).spec_pos() > old(s).spec_pos(),
        r is None ==> final(s).spec_pos() == old(s).spec_pos(),
        r matches Some(v) ==> is_node(v@, id@),
        match db_spec_at(old(s).spec_tokens(), old(s).spec_pos(), id@) {
            Some((e, v)) => r matches Some(x) && x@ == v && final(s).spec_pos() == e,
            None => r is None,
        },
{
    if let Some(v) = opt_charset(s) {
        return Some(node(id, obj1("charset", Json::Str(v))));
    }
    if let Some(v) = opt_collate(s) {
        return Some(node(id, obj1("collation", Json::Str(v))));
    }
    None
}

/// Parse a run of `__ spec` database options.
fn db_specs(s: &mut Stream, id: &str) -> (r: Vec<Json>)
    ensures
        frame(*old(s), *final(s)),
        reached(*old(s), *final(s), db_specs_reach(old(s).spec_tokens(), old(s).spec_pos(), id@)),
        db_spec_list(old(s).spec_tokens(), old(s).spec_pos(), id@, seq![]) == (
            final(s).spec_pos(),
            crate::json::view_arr(r@),
        ),
{
    let ghost ts = s.spec_tokens();
    let ghost target = db_spec_list(ts, s.spec_pos(), id@, seq![]);
    let ghost g = mx(s.spec_furthest(), db_specs_reach(ts, s.spec_pos(), id@));
    let mut meta: Vec<Json> = Vec::new();
    loop
        invariant
            frame(*old(s), *s),
            s.spec_tokens() == ts,
            ts == old(s).spec_tokens(),
            target == db_spec_list(ts, old(s).spec_pos(), id@, seq![]),
            db_spec_list(ts, s.spec_pos(), id@, crate::json::view_arr(meta@)) == target,
            mx(s.spec_furthest(), db_specs_reach(ts, s.spec_pos(), id@)) == g,
            g == mx(old(s).spec_furthest(), db_specs_reach(ts, old(s).spec_pos(), id@)),
        ensures
            target == (s.spec_pos(), crate::json::view_arr(meta@)),
            s.spec_furthest() == g,
        decreases s.spec_tokens().len() - s.spec_pos(),
    {
        let sp = s.pos();
        if s.ws1() {
            if let Some(spec) = db_spec(s, id) {
                proof {
                    crate::json::lemma_view_arr_push(meta@, spec);
                }
                meta.push(spec);
                continue;
            }
        }
        s.set(sp);
        break;
    }
    meta
}

/// Where an optional `__ IF [__ NOT] __ EXISTS` from `p` ends.
pub open spec fn if_maybe_not_exists_end(ts: Seq<SToken>, p: int) -> int {
    match ws1_end(ts, p) {
        Some(a) => if is_keyword_at(ts, a, "IF"@) {
            let b = match ws1_end(ts, a + 1) {
                Some(n) => if is_keyword_at(ts, n, "NOT"@) {
                    n + 1
                } else {
                    a + 1
                },
                None => a + 1,
            };
            match ws1_end(ts, b) {
                Some(c) => if is_keyword_at(ts, c, "EXISTS"@) {
                    c + 1
                } else {
                    p
                },
                None => p,
            }
        } else {
            p
        },
        None => p,
    }
}

/// The end, database and specs of a `CREATE [OR REPLACE] (DATABASE | SCHEMA)
/// [IF [NOT] EXISTS] db [spec ...];` at `p`.
pub open spec fn spec_create_db(ts: Seq<SToken>, p: int) -> Option<(int, Seq<char>, Seq<JsonV>)> {
    if !is_keyword_at(ts, p, "CREATE"@) {
        None
    } else {
        match ws1_end(ts, p + 1) {
            None => None,
            Some(p1) => {
                let p2 = match ws1_end(ts, p1 + 1) {
                    Some(a) => if is_keyword_at(ts, p1, "OR"@) && is_keyword_at(ts, a, "REPLACE"@)
                        && ws1_end(ts, a + 1) is Some {
                        ws1_end(ts, a + 1)->Some_0
                    } else {
                        p1
                    },
                    None => p1,
                };
                if !one_of_at(ts, p2, database_words()) {
                    None
                } else {
                    match ws1_end(ts, if_maybe_not_exists_end(ts, p2 + 1)) {
                        None => None,
                        Some(p4) => match ident_at(ts, p4) {
                            None => None,
                            Some(db) => {
                                let (p5, meta) = db_spec_list(ts, p4 + 1, "O_CREATE_DB_SPEC"@, seq![]);
                                match eos_end(ts, p5) {
                                    Some(e) => Some((e, db, meta)),
                                    None => None,
                                }
                            },
                        },
                    }
                }
            },
        }
    }
}

/// Parse `P_CREATE_DB`.
#[verifier::rlimit(100)]
pub fn p_create_db(s: &mut Stream) -> (r: Option<Json>)
    ensures
        frame(*old(s), *final(s)),
        r is None ==> final(s).spec_pos() == head_fail_end(old(s).spec_tokens(), old(s).spec_pos(), "CREATE"@),
        reached(*old(s), *final(s), create_db_reach(old(s).spec_tokens(), old(s).spec_pos())),
        r is Some ==> final(s).spec_pos() > old(s).spec_pos(),
        r matches Some(v) ==> is_node(v@, "P_CREATE_DB"@),
        match spec_create_db(old(s).spec_tokens(), old(s).spec_pos()) {
            Some((e, db, meta)) => r matches Some(v) && v@ == node_v(
                "P_CREATE_DB"@,
                JsonV::Obj(seq![("database"@, JsonV::Str(db)), ("meta"@, JsonV::Arr(meta))]),
            ) && final(s).spec_pos() == e,
            None => r is None,
        },
{
    proof {
        reveal(head_fail_end);
    }
    proof {
        reveal(create_db_reach);
    }
    let save = s.pos();
    if s.eat_keyword("CREATE").is_none() || !s.ws1() {
        return None;
    }
    // OR REPLACE __.
    let sp = s.pos();
    if s.eat_keyword("OR").is_some() && s.ws1() && s.eat_keyword("REPLACE").is_some() && s.ws1() {
    } else {
        s.set(sp);
    }
    let words: [&str; 2] = ["DATABASE", "SCHEMA"];
    assert(words@ =~= database_words());
    if one_of_keywords(s, &words).is_none() {
        s.set(save);
        return None;
    }
    // IF [NOT]? EXISTS.
    let sp = s.pos();
    if s.ws1() && s.eat_keyword("IF").is_some() {
        let nsp = s.pos();
        if s.ws1() && s.eat_keyword("NOT").is_some() {
        } else {
            s.set(nsp);
        }
        if s.ws1() && s.eat_keyword("EXISTS").is_some() {
        } else {
            s.set(sp);
        }
    } else {
        s.set(sp);
    }
    if !s.ws1() {
        s.set(save);
        return None;
    }
    let database = match s_identifier(s) {
        Some(d) => d,
        None => {
            s.set(save);
            return None;
        },
    };
    let meta = db_specs(s, "O_CREATE_DB_SPEC");
    if !s_eos(s) {
        s.set(save);
        return None;
    }
    let mut def: Vec<(String, Json)> = Vec::new();
    put(&mut def, "database", Json::Str(database));
    let ghost mv = crate::json::view_arr(meta@);
    put(&mut def, "meta", Json::Arr(meta));
    assert(crate::json::view_obj(def@) =~= seq![("database"@, JsonV::Str(database@)), ("meta"@, JsonV::Arr(mv))]);
    Some(node("P_CREATE_DB", Json::Obj(def)))
}

/// The end, optional database and specs of an `ALTER (DATABASE | SCHEMA)
/// [db] spec ...;` at `p`.
pub open spec fn spec_alter_db(ts: Seq<SToken>, p: int) -> Option<(int, Option<Seq<char>>, Seq<JsonV>)> {
    if !is_keyword_at(ts, p, "ALTER"@) {
        None
    } else {
        match ws1_end(ts, p + 1) {
            None => None,
            Some(p1) => if !one_of_at(ts, p1, database_words()) {
                None
            } else {
                let (p2, db) = match ws1_end(ts, p1 + 1) {
                    Some(a) => match ident_at(ts, a) {
                        Some(d) => (a + 1, Some(d)),
                        None => (p1 + 1, None::<Seq<char>>),
                    },
                    None => (p1 + 1, None::<Seq<char>>),
                };
                let (p3, meta) = db_spec_list(ts, p2, "O_ALTER_DB_SPEC"@, seq![]);
                if meta.len() == 0 {
                    None
                } else {
                    match eos_end(ts, p3) {
                        Some(e) => Some((e, db, meta)),
                        None => None,
                    }
                }
            },
        }
    }
}

/// The definition of an `ALTER DATABASE`: the database if named, then the
/// specs.
pub open spec fn alter_db_def(db: Option<Seq<char>>, meta: Seq<JsonV>) -> JsonV {
    match db {
        Some(d) => JsonV::Obj(seq![("database"@, JsonV::Str(d)), ("meta"@, JsonV::Arr(meta))]),
        None => JsonV::Obj(seq![("meta"@, JsonV::Arr(meta))]),
    }
}

/// Parse `P_ALTER_DB`.
pub fn p_alter_db(s: &mut Stream) -> (r: Option<Json>)
    ensures
        frame(*old(s), *final(s)),
        r is None ==> final(s).spec_pos() == head_fail_end(old(s).spec_tokens(), old(s).spec_pos(), "ALTER"@),
        reached(*old(s), *final(s), alter_db_reach(old(s).spec_tokens(), old(s).spec_pos())),
        r is Some ==> final(s).spec_pos() > old(s).spec_pos(),
        r matches Some(v) ==> is_node(v@, "P_ALTER_DB"@),
        match spec_alter_db(old(s).spec_tokens(), old(s).spec_pos()) {
            Some((e, db, meta)) => r matches Some(v) && v@ == node_v("P_ALTER_DB"@, alter_db_def(db, meta))
                && final(s).spec_pos() == e,
            None => r is None,
        },
{
    proof {
        reveal(head_fail_end);
    }
    proof {
        reveal(alter_db_reach);
    }
    let save = s.pos();
    if s.eat_keyword("ALTER").is_none() || !s.ws1() {
        return None;
    }
    let words: [&str; 2] = ["DATABASE", "SCHEMA"];
    assert(words@ =~= database_words());
    if one_of_keywords(s, &words).is_none() {
        s.set(save);
        return None;
    }
    // Optional database name.
    let mut database: Option<String> = None;
    let sp = s.pos();
    if s.ws1() {
        if let Some(d) = s_identifier(s) {
            database = Some(d);
        } else {
            s.set(sp);
        }
    } else {
        s.set(sp);
    }
    // One or more specs.
    let meta = db_specs(s, "O_ALTER_DB_SPEC");
    if meta.len() == 0 {
        s.set(save);
        return None;
    }
    if !s_eos(s) {
        s.set(save);
        return None;
    }
    let ghost mv = crate::json::view_arr(meta@);
    let ghost dbv = crate::grammar::helpers::opt_view(database);
    let mut def: Vec<(String, Json)> = Vec::new();
    // The database is omitted when absent.
    if let Some(d) = database {
        put(&mut def, "database", Json::Str(d));
    }
    put(&mut def, "meta", Json::Arr(meta));
    assert(crate::json::view_obj(def@) =~= alter_db_def(dbv, mv)->Obj_0);
    Some(node("P_ALTER_DB", Json::Obj(def)))
}

/// The keywords that name a database in `DROP`.
pub open spec fn database_words() -> Seq<&'static str> {
    seq!["DATABASE", "SCHEMA"]
}

/// The end and database name of a `DROP (DATABASE | SCHEMA) [IF EXISTS] db;`
/// at `p`.
pub open spec fn spec_drop_db(ts: Seq<SToken>, p: int) -> Option<(int, Seq<char>)> {
    if !is_keyword_at(ts, p, "DROP"@) {
        None
    } else {
        match ws1_end(ts, p + 1) {
            None => None,
            Some(p1) => if !one_of_at(ts, p1, database_words()) {
                None
            } else {
                match ws1_end(ts, if_exists_end(ts, p1 + 1)) {
                    None => None,
                    Some(p3) => match ident_at(ts, p3) {
                        None => None,
                        Some(db) => match eos_end(ts, p3 + 1) {
                            Some(e) => Some((e, db)),
                            None => None,
                        },
                    },
                }
            },
        }
    }
}

/// Parse `P_DROP_DB`.
pub fn p_drop_db(s: &mut Stream) -> (r: Option<Json>)
    ensures
        frame(*old(s), *final(s)),
        r is None ==> final(s).spec_pos() == head_fail_end(old(s).spec_tokens(), old(s).spec_pos(), "DROP"@),
        reached(*old(s), *final(s), drop_db_reach(old(s).spec_tokens(), old(s).spec_pos())),
        r is Some ==> final(s).spec_pos() > old(s).spec_pos(),
        r matches Some(v) ==> is_node(v@, "P_DROP_DB"@),
        match spec_drop_db(old(s).spec_tokens(), old(s).spec_pos()) {
            Some((e, db)) => r matches Some(v) && v@ == node_v("P_DROP_DB"@, JsonV::Str(db))
                && final(s).spec_pos() == e,
            None => r is None,
        },
{
    proof {
        reveal(head_fail_end);
    }
    proof {
        reveal(drop_db_reach);
    }
    let save = s.pos();
    if s.eat_keyword("DROP").is_none() || !s.ws1() {
        return None;
    }
    let words: [&str; 2] = ["DATABASE", "SCHEMA"];
    assert(words@ =~= database_words());
    if one_of_keywords(s, &words).is_none() {
        s.set(save);
        return None;
    }
    opt_if_exists(s);
    if !s.ws1() {
        s.set(save);
        return None;
    }
    let db = match s_identifier(s) {
        Some(d) => d,
        None => {
            s.set(save);
            return None;
        },
    };
    if !s_eos(s) {
        s.set(save);
        return None;
    }
    Some(node("P_DROP_DB", Json::Str(db)))
}

/// An algorithm or lock option at `p`: its end and value.
pub open spec fn algo_lock_at(ts: Seq<SToken>, p: int) -> Option<(int, JsonV)> {
    match keyed_word_at(ts, p, "ALGORITHM"@, algorithm_words()) {
        Some((e, w)) => Some(
            (e, node_v("P_INDEX_ALGORITHM_OPTION"@, JsonV::Obj(seq![("algorithm"@, JsonV::Str(w))]))),
        ),
        None => match keyed_word_at(ts, p, "LOCK"@, lock_words()) {
            Some((e, w)) => Some((e, node_v("P_LOCK_OPTION"@, JsonV::Obj(seq![("lock"@, JsonV::Str(w))])))),
            None => None,
        },
    }
}

/// An algorithm or lock option after whitespace at `p`: its end and value.
pub open spec fn index_opt_at(ts: Seq<SToken>, p: int) -> Option<(int, JsonV)> {
    match ws1_end(ts, p) {
        None => None,
        Some(p1) => algo_lock_at(ts, p1),
    }
}

/// The algorithm and lock options from `p`, after `acc`, and where they end.
pub open spec fn index_opt_list(ts: Seq<SToken>, p: int, acc: Seq<JsonV>) -> (int, Seq<JsonV>)
    decreases ts.len() - p,
{
    match index_opt_at(ts, p) {
        Some((e, v)) => if p < e <= ts.len() {
            index_opt_list(ts, e, acc.push(v))
        } else {
            (p, acc)
        },
        None => (p, acc),
    }
}

/// The end, index, table and options of a `DROP [ONLINE | OFFLINE] INDEX
/// [IF EXISTS] i ON t [WAIT n | NOWAIT] [options];` at `p`.
pub open spec fn spec_drop_index(ts: Seq<SToken>, p: int) -> Option<(int, Seq<char>, Seq<char>, Seq<JsonV>)> {
    if !is_keyword_at(ts, p, "DROP"@) {
        None
    } else {
        match ws1_end(ts, p + 1) {
            None => None,
            Some(p1) => {
                let p2 = if (is_keyword_at(ts, p1, "ONLINE"@) || is_keyword_at(ts, p1, "OFFLINE"@))
                    && ws1_end(ts, p1 + 1) is Some {
                    ws1_end(ts, p1 + 1)->Some_0
                } else {
                    p1
                };
                if !is_keyword_at(ts, p2, "INDEX"@) {
                    None
                } else {
                    match ws1_end(ts, if_exists_end(ts, p2 + 1)) {
                        None => None,
                        Some(p4) => match ident_at(ts, p4) {
                            None => None,
                            Some(index) => match ws1_end(ts, p4 + 1) {
                                None => None,
                                Some(p5) => if !is_keyword_at(ts, p5, "ON"@) {
                                    None
                                } else {
                                    match ws1_end(ts, p5 + 1) {
                                        None => None,
                                        Some(p6) => match ident_at(ts, p6) {
                                            None => None,
                                            Some(table) => {
                                                let (p7, opts) = index_opt_list(ts, wait_end(ts, p6 + 1), seq![]);
                                                match eos_end(ts, p7) {
                                                    Some(e) => Some((e, index, table, opts)),
                                                    None => None,
                                                }
                                            },
                                        },
                                    }
                                },
                            },
                        },
                    }
                }
            },
        }
    }
}

/// Parse `P_DROP_INDEX`.
#[verifier::rlimit(100)]
pub fn p_drop_index(s: &mut Stream) -> (r: Option<Json>)
    ensures
        frame(*old(s), *final(s)),
        r is None ==> final(s).spec_pos() == head_fail_end(old(s).spec_tokens(), old(s).spec_pos(), "DROP"@),
        reached(*old(s), *final(s), drop_index_reach(old(s).spec_tokens(), old(s).spec_pos())),
        r is Some ==> final(s).spec_pos() > old(s).spec_pos(),
        r matches Some(v) ==> is_node(v@, "P_DROP_INDEX"@),
        match spec_drop_index(old(s).spec_tokens(), old(s).spec_pos()) {
            Some((e, index, table, opts)) => r matches Some(v) && v@ == node_v(
                "P_DROP_INDEX"@,
                JsonV::Obj(
                    seq![
                        ("index"@, JsonV::Str(index)),
                        ("table"@, JsonV::Str(table)),
                        ("options"@, JsonV::Arr(opts)),
                    ],
                ),
            ) && final(s).spec_pos() == e,
            None => r is None,
        },
{
    proof {
        reveal(head_fail_end);
    }
    proof {
        reveal(drop_index_reach);
    }
    let ghost ts = s.spec_tokens();
    let save = s.pos();
    if s.eat_keyword("DROP").is_none() || !s.ws1() {
        return None;
    }
    // ONLINE __ | OFFLINE __.
    let sp = s.pos();
    if (s.eat_keyword("ONLINE").is_some() || s.eat_keyword("OFFLINE").is_some()) && s.ws1() {
    } else {
        s.set(sp);
    }
    if s.eat_keyword("INDEX").is_none() {
        s.set(save);
        return None;
    }
    opt_if_exists(s);
    if !s.ws1() {
        s.set(save);
        return None;
    }
    let index = match s_identifier(s) {
        Some(i) => i,
        None => {
            s.set(save);
            return None;
        },
    };
    if !s.ws1() || s.eat_keyword("ON").is_none() || !s.ws1() {
        s.set(save);
        return None;
    }
    let table = match s_identifier(s) {
        Some(t) => t,
        None => {
            s.set(save);
            return None;
        },
    };
    opt_wait(s);
    // Algorithm and lock options.
    let ghost target = index_opt_list(ts, s.spec_pos(), seq![]);
    let ghost g = mx(s.spec_furthest(), index_opt_reach(ts, s.spec_pos()));
    let mut options: Vec<Json> = Vec::new();
    loop
        invariant
            frame(*old(s), *s),
            s.spec_tokens() == ts,
            s.spec_pos() > save,
            save == old(s).spec_pos(),
            index_opt_list(ts, s.spec_pos(), crate::json::view_arr(options@)) == target,
            mx(s.spec_furthest(), index_opt_reach(ts, s.spec_pos())) == g,
        ensures
            target == (s.spec_pos(), crate::json::view_arr(options@)),
            s.spec_furthest() == g,
        decreases s.spec_tokens().len() - s.spec_pos(),
    {
        let sp = s.pos();
        if s.ws1() {
            if let Some(a) = p_index_algorithm_option(s) {
                proof {
                    crate::json::lemma_view_arr_push(options@, a);
                }
                options.push(a);
                continue;
            }
            s.set(sp);
            if s.ws1() {
                if let Some(l) = p_lock_option(s) {
                    proof {
                        crate::json::lemma_view_arr_push(options@, l);
                    }
                    options.push(l);
                    continue;
                }
            }
        }
        s.set(sp);
        break;
    }
    if !s_eos(s) {
        s.set(save);
        return None;
    }
    let mut def: Vec<(String, Json)> = Vec::new();
    put(&mut def, "index", Json::Str(index));
    put(&mut def, "table", Json::Str(table));
    let ghost opts = crate::json::view_arr(options@);
    put(&mut def, "options", Json::Arr(options));
    assert(crate::json::view_obj(def@) =~= seq![
        ("index"@, JsonV::Str(index@)),
        ("table"@, JsonV::Str(table@)),
        ("options"@, JsonV::Arr(opts)),
    ]);
    Some(node("P_DROP_INDEX", Json::Obj(def)))
}

/// The further tables `, name` of a `DROP TABLE` from `p`, after `acc`.
pub open spec fn drop_list(ts: Seq<SToken>, p: int, acc: Seq<Seq<char>>) -> (int, Seq<Seq<char>>)
    decreases ts.len() - p,
{
    let p1 = ws_end(ts, p);
    if p >= 0 && is_kind_at(ts, p1, SKind::Comma) {
        match ident_at(ts, ws_end(ts, p1 + 1)) {
            Some(t) => if ws_end(ts, p1 + 1) + 1 > p {
                drop_list(ts, ws_end(ts, p1 + 1) + 1, acc.push(t))
            } else {
                (p, acc)
            },
            None => (p, acc),
        }
    } else {
        (p, acc)
    }
}

/// The end and table names of a `DROP [TEMPORARY] TABLE [IF EXISTS] t, ...
/// [WAIT n | NOWAIT] [RESTRICT | CASCADE];` at `p`.
pub open spec fn spec_drop_table(ts: Seq<SToken>, p: int) -> Option<(int, Seq<Seq<char>>)> {
    if !is_keyword_at(ts, p, "DROP"@) {
        None
    } else {
        match ws1_end(ts, p + 1) {
            None => None,
            Some(p1) => {
                let p2 = if is_keyword_at(ts, p1, "TEMPORARY"@) && ws1_end(ts, p1 + 1) is Some {
                    ws1_end(ts, p1 + 1)->Some_0
                } else {
                    p1
                };
                if !is_keyword_at(ts, p2, "TABLE"@) {
                    None
                } else {
                    match ws1_end(ts, if_exists_end(ts, p2 + 1)) {
                        None => None,
                        Some(p4) => match ident_at(ts, p4) {
                            None => None,
                            Some(first) => {
                                let (p5, names) = drop_list(ts, p4 + 1, seq![first]);
                                let p6 = wait_end(ts, p5);
                                let p7 = match ws1_end(ts, p6) {
                                    Some(q) => if is_keyword_at(ts, q, "RESTRICT"@) || is_keyword_at(ts, q, "CASCADE"@) {
                                        q + 1
                                    } else {
                                        p6
                                    },
                                    None => p6,
                                };
                                match eos_end(ts, p7) {
                                    Some(e) => Some((e, names)),
                                    None => None,
                                }
                            },
                        },
                    }
                }
            },
        }
    }
}

/// An array of strings.
pub open spec fn str_arr_v(v: Seq<Seq<char>>) -> JsonV {
    JsonV::Arr(v.map_values(|x: Seq<char>| JsonV::Str(x)))
}

/// Parse `P_DROP_TABLE`.
#[verifier::rlimit(100)]
pub fn p_drop_table(s: &mut Stream) -> (r: Option<Json>)
    ensures
        frame(*old(s), *final(s)),
        r is None ==> final(s).spec_pos() == head_fail_end(old(s).spec_tokens(), old(s).spec_pos(), "DROP"@),
        reached(*old(s), *final(s), drop_table_reach(old(s).spec_tokens(), old(s).spec_pos())),
        r is Some ==> final(s).spec_pos() > old(s).spec_pos(),
        r matches Some(v) ==> is_node(v@, "P_DROP_TABLE"@),
        match spec_drop_table(old(s).spec_tokens(), old(s).spec_pos()) {
            Some((e, names)) => r matches Some(v) && v@ == node_v("P_DROP_TABLE"@, str_arr_v(names))
                && final(s).spec_pos() == e,
            None => r is None,
        },
{
    proof {
        reveal(head_fail_end);
    }
    proof {
        reveal(drop_table_reach);
    }
    let ghost ts = s.spec_tokens();
    let save = s.pos();
    if s.eat_keyword("DROP").is_none() || !s.ws1() {
        return None;
    }
    // TEMPORARY __.
    let sp = s.pos();
    if s.eat_keyword("TEMPORARY").is_some() && s.ws1() {
    } else {
        s.set(sp);
    }
    if s.eat_keyword("TABLE").is_none() {
        s.set(save);
        return None;
    }
    opt_if_exists(s);
    if !s.ws1() {
        s.set(save);
        return None;
    }
    let p4 = s.pos();
    let first = match s_identifier(s) {
        Some(t) => t,
        None => {
            s.set(save);
            return None;
        },
    };
    let mut tables: Vec<Json> = Vec::new();
    let ghost mut names: Seq<Seq<char>> = seq![first@];
    let ghost target = drop_list(ts, p4 + 1, seq![first@]);
    let ghost g = mx(s.spec_furthest(), drop_rest_reach(ts, s.spec_pos()));
    let js = Json::Str(first);
    proof {
        crate::json::lemma_view_arr_push(tables@, js);
    }
    tables.push(js);
    assert(crate::json::view_arr(tables@) =~= names.map_values(|x: Seq<char>| JsonV::Str(x)));
    loop
        invariant
            frame(*old(s), *s),
            s.spec_tokens() == ts,
            s.spec_pos() > save,
            save == old(s).spec_pos(),
            drop_list(ts, s.spec_pos(), names) == target,
            crate::json::view_arr(tables@) == names.map_values(|x: Seq<char>| JsonV::Str(x)),
            mx(s.spec_furthest(), drop_rest_reach(ts, s.spec_pos())) == g,
        ensures
            drop_list(ts, s.spec_pos(), names) == (s.spec_pos(), names),
            s.spec_furthest() == g,
        decreases s.spec_tokens().len() - s.spec_pos(),
    {
        let sp = s.pos();
        s.ws0();
        if s.eat(&TokenKind::Comma).is_none() {
            s.set(sp);
            break;
        }
        s.ws0();
        match s_identifier(s) {
            Some(t) => {
                proof {
                    names = names.push(t@);
                }
                let jt = Json::Str(t);
                proof {
                    crate::json::lemma_view_arr_push(tables@, jt);
                }
                tables.push(jt);
                assert(crate::json::view_arr(tables@) =~= names.map_values(|x: Seq<char>| JsonV::Str(x)));
            },
            None => {
                s.set(sp);
                break;
            },
        }
    }
    let ghost p5 = s.spec_pos();
    assert(target == (p5, names));
    opt_wait(s);
    // RESTRICT | CASCADE.
    let sp = s.pos();
    if s.ws1() && (s.eat_keyword("RESTRICT").is_some() || s.eat_keyword("CASCADE").is_some()) {
    } else {
        s.set(sp);
    }
    if !s_eos(s) {
        s.set(save);
        return None;
    }
    Some(node("P_DROP_TABLE", Json::Arr(tables)))
}

/// A `{ table, newName }` pair.
pub open spec fn pair_v(table: Seq<char>, new_name: Seq<char>) -> JsonV {
    JsonV::Obj(seq![("table"@, JsonV::Str(table)), ("newName"@, JsonV::Str(new_name))])
}

/// A `{ table, newName }` pair.
fn rename_pair(table: String, new_name: String) -> (r: Json)
    ensures
        r@ == pair_v(table@, new_name@),
{
    let mut o: Vec<(String, Json)> = Vec::new();
    put(&mut o, "table", Json::Str(table));
    put(&mut o, "newName", Json::Str(new_name));
    assert(crate::json::view_obj(o@) =~= pair_v(table@, new_name@)->Obj_0);
    Json::Obj(o)
}

/// The end and name of a `__ TO __ name` at `p`.
pub open spec fn to_name_at(ts: Seq<SToken>, p: int) -> Option<(int, Seq<char>)> {
    match ws1_end(ts, p) {
        Some(p1) => if is_keyword_at(ts, p1, "TO"@) {
            match ws1_end(ts, p1 + 1) {
                Some(p2) => match ident_at(ts, p2) {
                    Some(n) => Some((p2 + 1, n)),
                    None => None,
                },
                None => None,
            }
        } else {
            None
        },
        None => None,
    }
}

/// Parse `__ TO __ ident`.
fn to_name(s: &mut Stream) -> (r: Option<String>)
    ensures
        frame(*old(s), *final(s)),
        reached(*old(s), *final(s), to_name_reach(old(s).spec_tokens(), old(s).spec_pos())),
        match to_name_at(old(s).spec_tokens(), old(s).spec_pos()) {
            Some((e, n)) => r matches Some(v) && v@ == n && final(s).spec_pos() == e,
            None => r is None,
        },
{
    if !s.ws1() || s.eat_keyword("TO").is_none() || !s.ws1() {
        return None;
    }
    s_identifier(s)
}

/// The further pairs `, table TO name` of a `RENAME TABLE` from `p`, after
/// `acc`.
pub open spec fn rename_list(ts: Seq<SToken>, p: int, acc: Seq<(Seq<char>, Seq<char>)>) -> (
    int,
    Seq<(Seq<char>, Seq<char>)>,
)
    decreases ts.len() - p,
{
    let p1 = ws_end(ts, p);
    let p2 = ws_end(ts, p1 + 1);
    if p >= 0 && is_kind_at(ts, p1, SKind::Comma) {
        match ident_at(ts, p2) {
            Some(t) => match to_name_at(ts, p2 + 1) {
                Some((p3, n)) => if p3 > p {
                    rename_list(ts, p3, acc.push((t, n)))
                } else {
                    (p, acc)
                },
                None => (p, acc),
            },
            None => (p, acc),
        }
    } else {
        (p, acc)
    }
}

/// The end and pairs of a `RENAME TABLE t TO n, ...;` at `p`.
pub open spec fn spec_rename_table_stmt(ts: Seq<SToken>, p: int) -> Option<(int, Seq<(Seq<char>, Seq<char>)>)> {
    if !is_keyword_at(ts, p, "RENAME"@) {
        None
    } else {
        match ws1_end(ts, p + 1) {
            None => None,
            Some(p1) => if !is_keyword_at(ts, p1, "TABLE"@) {
                None
            } else {
                match ws1_end(ts, p1 + 1) {
                    None => None,
                    Some(p2) => match ident_at(ts, p2) {
                        None => None,
                        Some(first) => match to_name_at(ts, wait_end(ts, p2 + 1)) {
                            None => None,
                            Some((p4, first_new)) => {
                                let (p5, pairs) = rename_list(ts, p4, seq![(first, first_new)]);
                                match eos_end(ts, p5) {
                                    Some(e) => Some((e, pairs)),
                                    None => None,
                                }
                            },
                        },
                    },
                }
            },
        }
    }
}

/// An array of `{ table, newName }` pairs.
pub open spec fn pairs_v(v: Seq<(Seq<char>, Seq<char>)>) -> JsonV {
    JsonV::Arr(v.map_values(|x: (Seq<char>, Seq<char>)| pair_v(x.0, x.1)))
}

/// Parse `P_RENAME_TABLE`.
pub fn p_rename_table(s: &mut Stream) -> (r: Option<Json>)
    ensures
        frame(*old(s), *final(s)),
        r is None ==> final(s).spec_pos() == rename_fail_end(old(s).spec_tokens(), old(s).spec_pos()),
        reached(*old(s), *final(s), rename_table_reach(old(s).spec_tokens(), old(s).spec_pos())),
        r is Some ==> final(s).spec_pos() > old(s).spec_pos(),
        r matches Some(v) ==> is_node(v@, "P_RENAME_TABLE"@),
        match spec_rename_table_stmt(old(s).spec_tokens(), old(s).spec_pos()) {
            Some((e, pairs)) => r matches Some(v) && v@ == node_v("P_RENAME_TABLE"@, pairs_v(pairs))
                && final(s).spec_pos() == e,
            None => r is None,
        },
{
    proof {
        reveal(rename_fail_end);
    }
    proof {
        reveal(rename_table_reach);
    }
    let ghost ts = s.spec_tokens();
    let save = s.pos();
    if s.eat_keyword("RENAME").is_none() || !s.ws1() || s.eat_keyword("TABLE").is_none() {
        return None;
    }
    if !s.ws1() {
        s.set(save);
        return None;
    }
    let first_table = match s_identifier(s) {
        Some(t) => t,
        None => {
            s.set(save);
            return None;
        },
    };
    opt_wait(s);
    let first_new = match to_name(s) {
        Some(t) => t,
        None => {
            s.set(save);
            return None;
        },
    };
    let ghost mut pv: Seq<(Seq<char>, Seq<char>)> = seq![(first_table@, first_new@)];
    let ghost target = rename_list(ts, s.spec_pos(), pv);
    let ghost g = mx(s.spec_furthest(), rename_rest_reach(ts, s.spec_pos()));
    let mut pairs: Vec<Json> = Vec::new();
    let j0 = rename_pair(first_table, first_new);
    proof {
        crate::json::lemma_view_arr_push(pairs@, j0);
    }
    pairs.push(j0);
    assert(crate::json::view_arr(pairs@) =~= pv.map_values(|x: (Seq<char>, Seq<char>)| pair_v(x.0, x.1)));
    loop
        invariant
            frame(*old(s), *s),
            s.spec_tokens() == ts,
            s.spec_pos() > save,
            save == old(s).spec_pos(),
            rename_list(ts, s.spec_pos(), pv) == target,
            crate::json::view_arr(pairs@) == pv.map_values(|x: (Seq<char>, Seq<char>)| pair_v(x.0, x.1)),
            mx(s.spec_furthest(), rename_rest_reach(ts, s.spec_pos())) == g,
        ensures
            rename_list(ts, s.spec_pos(), pv) == (s.spec_pos(), pv),
            s.spec_furthest() == g,
        decreases s.spec_tokens().len() - s.spec_pos(),
    {
        let sp = s.pos();
        s.ws0();
        if s.eat(&TokenKind::Comma).is_none() {
            s.set(sp);
            break;
        }
        s.ws0();
        let table = match s_identifier(s) {
            Some(t) => t,
            None => {
                s.set(sp);
                break;
            },
        };
        let new_name = match to_name(s) {
            Some(t) => t,
            None => {
                s.set(sp);
                break;
            },
        };
        proof {
            pv = pv.push((table@, new_name@));
        }
        let jp = rename_pair(table, new_name);
        proof {
            crate::json::lemma_view_arr_push(pairs@, jp);
        }
        pairs.push(jp);
        assert(crate::json::view_arr(pairs@) =~= pv.map_values(|x: (Seq<char>, Seq<char>)| pair_v(x.0, x.1)));
    }
    if !s_eos(s) {
        s.set(save);
        return None;
    }
    Some(node("P_RENAME_TABLE", Json::Arr(pairs)))
}

/// Scanning the body of a `SET` from `p`, where `any` says whether a token
/// other than whitespace came before: where the statement ends after its
/// first `;`, if some such token comes before that `;`.
pub open spec fn set_scan(ts: Seq<SToken>, p: int, any: bool) -> Option<int>
    decreases ts.len() - p,
{
    if p < 0 || p >= ts.len() {
        None
    } else if ts[p].kind is Semicolon {
        if any {
            Some(p + 1)
        } else {
            None
        }
    } else {
        set_scan(ts, p + 1, any || !(ts[p].kind is Ws))
    }
}

/// The end of a `SET __ ... ;` at `p`.
pub open spec fn spec_set(ts: Seq<SToken>, p: int) -> Option<int> {
    if !is_keyword_at(ts, p, "SET"@) {
        None
    } else {
        match ws1_end(ts, p + 1) {
            Some(p1) => set_scan(ts, p1, false),
            None => None,
        }
    }
}

proof fn lemma_set_scan_ws(ts: Seq<SToken>, p: int, any: bool)
    requires
        0 <= p <= ts.len(),
        is_kind_at(ts, ws_end(ts, p), SKind::Semicolon),
    ensures
        set_scan(ts, p, any) == (if any {
            Some(ws_end(ts, p) + 1)
        } else {
            None
        }),
    decreases ts.len() - p,
{
    if p < ts.len() && ts[p].kind is Ws {
        lemma_set_scan_ws(ts, p + 1, any);
    }
}

/// Parse `P_SET`: `SET` then a run of any tokens, ending at `;`.
pub fn p_set(s: &mut Stream) -> (r: Option<Json>)
    ensures
        frame(*old(s), *final(s)),
        reached(*old(s), *final(s), set_stmt_reach(old(s).spec_tokens(), old(s).spec_pos())),
        r is Some ==> final(s).spec_pos() > old(s).spec_pos(),
        r is None ==> final(s).spec_pos() == old(s).spec_pos(),
        r matches Some(v) ==> v@.get_str("id"@) == Some("P_SET"@),
        match spec_set(old(s).spec_tokens(), old(s).spec_pos()) {
            Some(e) => r matches Some(v) && v@ == JsonV::Obj(seq![("id"@, JsonV::Str("P_SET"@))])
                && final(s).spec_pos() == e,
            None => r is None,
        },
{
    proof {
        reveal(set_stmt_reach);
    }
    let ghost ts = s.spec_tokens();
    let save = s.pos();
    if s.eat_keyword("SET").is_none() {
        return None;
    }
    if !s.ws1() {
        s.set(save);
        return None;
    }
    let ghost p1 = s.spec_pos();
    let ghost g = mx(s.spec_furthest(), set_reach(ts, s.spec_pos()));
    let mut consumed_any = false;
    loop
        invariant
            frame(*old(s), *s),
            s.spec_tokens() == ts,
            s.spec_pos() > save,
            save == old(s).spec_pos(),
            spec_set(ts, save as int) == set_scan(ts, s.spec_pos(), consumed_any),
            mx(s.spec_furthest(), set_reach(ts, s.spec_pos())) == g,
            g == mx(old(s).spec_furthest(), set_stmt_reach(ts, save as int)),
        decreases s.spec_tokens().len() - s.spec_pos(),
    {
        // End at `_ ;`.
        let sp = s.pos();
        s.ws0();
        if s.eat(&TokenKind::Semicolon).is_some() {
            proof {
                lemma_set_scan_ws(ts, sp as int, consumed_any);
            }
            if !consumed_any {
                s.set(save);
                return None;
            }
            let mut o: Vec<(String, Json)> = Vec::new();
            put(&mut o, "id", Json::str_lit("P_SET"));
            let r = Json::Obj(o);
            proof {
                crate::json::lemma_view_obj(o@);
                crate::json::lemma_key_index_first(crate::json::view_obj(o@), "id"@, 0);
            }
            assert(crate::json::view_obj(o@) =~= seq![("id"@, JsonV::Str("P_SET"@))]);
            return Some(r);
        }
        s.set(sp);
        // Consume one token; whitespace alone does not count as a body token.
        match s.peek() {
            Some(t) => match &t.kind {
                TokenKind::Ws => {
                    s.bump();
                },
                TokenKind::Semicolon => {
                    s.set(save);
                    return None;
                },
                _ => {
                    s.bump();
                    consumed_any = true;
                },
            },
            None => {
                s.set(save);
                return None;
            },
        }
    }
}

/// The end and database name of a `USE db;` at `p`.
pub open spec fn spec_use_db(ts: Seq<SToken>, p: int) -> Option<(int, Seq<char>)> {
    if !is_keyword_at(ts, p, "USE"@) {
        None
    } else {
        match ws1_end(ts, p + 1) {
            None => None,
            Some(p1) => match ident_at(ts, p1) {
                None => None,
                Some(db) => match eos_end(ts, p1 + 1) {
                    Some(e) => Some((e, db)),
                    None => None,
                },
            },
        }
    }
}

/// Parse `P_USE_DB`: `USE db;`.
pub fn p_use_db(s: &mut Stream) -> (r: Option<Json>)
    ensures
        frame(*old(s), *final(s)),
        r is None ==> final(s).spec_pos() == head_fail_end(old(s).spec_tokens(), old(s).spec_pos(), "USE"@),
        reached(*old(s), *final(s), use_db_reach(old(s).spec_tokens(), old(s).spec_pos())),
        r is Some ==> final(s).spec_pos() > old(s).spec_pos(),
        r matches Some(v) ==> is_node(v@, "P_USE_DB"@),
        match spec_use_db(old(s).spec_tokens(), old(s).spec_pos()) {
            Some((e, db)) => r matches Some(v) && v@ == node_v("P_USE_DB"@, JsonV::Obj(seq![("database"@, JsonV::Str(db))]))
                && final(s).spec_pos() == e,
            None => r is None,
        },
{
    proof {
        reveal(head_fail_end);
    }
    proof {
        reveal(use_db_reach);
    }
    let save = s.pos();
    if s.eat_keyword("USE").is_none() || !s.ws1() {
        return None;
    }
    let db = match s_identifier(s) {
        Some(d) => d,
        None => {
            s.set(save);
            return None;
        },
    };
    if !s_eos(s) {
        s.set(save);
        return None;
    }
    let def = obj1("database", Json::Str(db));
    Some(node("P_USE_DB", def))
}

} // verus!
