//! CREATE TABLE grammar rules.

use vstd::prelude::*;

use crate::json::{concat2, is_node, node, obj1, put, spec_to_lowercase, str_eq, to_lowercase, Json, JsonV};
use crate::lexer::{SKind, TokenKind};

use super::common::{column_attrs_reach, column_reference_reach, index_columns_reach, index_options_reach, index_type_reach, keyed_word_reach, three_words_reach, two_words_reach, column_attr_list, column_definitions, column_reference_at, index_column_list, index_columns_at, index_option_list, index_options, index_type_at, one_of_at, one_of_keywords, p_column_reference, p_index_type, require_datatype, ws_eq_end, ws_or_equals};
use super::datatypes::{alt_reach, datatype_at, datatype_reach};
use super::helpers::{is_ident_kind, is_string_kind, o_quoted_string, o_string_or_ident, o_table_option_value, s_identifier, s_number};
use super::datatypes::first_of;
use super::helpers::option_value_at;
use super::statements::{eos_end, ident_at, if_not_exists_end, node_v, or_replace_end, str_arr_v, ws1_end};
use crate::lexer::SToken;
use super::stream::{frame, is_keyword_at, is_kind_at, mx, reached, ws_end, Stream};

verus! {

broadcast use super::stream::lemma_stream_bounds;

/// A `CREATE TABLE` statement at `p`: the common form, else the `LIKE` form;
/// its end and `P_CREATE_TABLE` node.
pub open spec fn spec_create_table(ts: Seq<SToken>, p: int) -> Option<(int, JsonV)> {
    match first_of(create_table_common_at(ts, p), create_table_like_at(ts, p)) {
        Some((e, v)) => Some((e, node_v("P_CREATE_TABLE"@, v))),
        None => None,
    }
}

/// How far an attempt at `_ ;` from `p` reads.
pub open spec fn eos_reach(ts: Seq<SToken>, p: int) -> int {
    let w = ws_end(ts, p);
    if is_kind_at(ts, w, SKind::Semicolon) {
        w + 1
    } else {
        w
    }
}

/// How far an attempt at `CREATE [OR REPLACE] [TEMPORARY] TABLE [IF NOT
/// EXISTS]` at `p` reads.
pub open spec fn create_table_head_reach(ts: Seq<SToken>, p: int) -> int {
    if !is_keyword_at(ts, p, "CREATE"@) {
        p
    } else {
        let a = or_replace_end(ts, p + 1);
        let r1 = mx(p + 1, two_words_reach(ts, p + 1, "OR"@, "REPLACE"@));
        let ta = ws_end(ts, a);
        let r2 = if ta > a && is_keyword_at(ts, ta, "TEMPORARY"@) {
            ta + 1
        } else {
            ta
        };
        let b = match ws1_end(ts, a) {
            Some(t) => if is_keyword_at(ts, t, "TEMPORARY"@) {
                t + 1
            } else {
                a
            },
            None => a,
        };
        let t = ws_end(ts, b);
        if !(t > b && is_keyword_at(ts, t, "TABLE"@)) {
            mx(mx(r1, r2), t)
        } else {
            mx(mx(r1, r2), mx(t + 1, three_words_reach(ts, t + 1, "IF"@, "NOT"@, "EXISTS"@)))
        }
    }
}

/// How far an attempt at an optional `__ ident` from `p` reads.
pub open spec fn opt_ws_ident_reach(ts: Seq<SToken>, p: int) -> int {
    let a = ws_end(ts, p);
    if a > p && ident_at(ts, a) is Some {
        a + 1
    } else {
        a
    }
}

/// How far an attempt at an optional `__ USING type` from `p` reads.
pub open spec fn opt_index_type_reach(ts: Seq<SToken>, p: int) -> int {
    let a = ws_end(ts, p);
    if a > p {
        mx(a, index_type_reach(ts, a))
    } else {
        a
    }
}

/// How far an attempt at an optional `__ REFERENCES ...` from `p` reads.
pub open spec fn opt_reference_reach(ts: Seq<SToken>, p: int) -> int {
    let a = ws_end(ts, p);
    if a > p {
        mx(a, column_reference_reach(ts, a))
    } else {
        a
    }
}

/// How far an attempt at an optional constraint prefix at `p` reads.
pub open spec fn constraint_reach(ts: Seq<SToken>, p: int) -> int {
    if !is_keyword_at(ts, p, "CONSTRAINT"@) {
        p
    } else {
        let a = ws_end(ts, p + 1);
        mx(
            p + 1,
            if a > p + 1 && ident_at(ts, a) is Some {
                ws_end(ts, a + 1)
            } else {
                a
            },
        )
    }
}

/// How far an attempt at `[__ USING type] columns options` from `p` reads.
pub open spec fn index_body_reach(ts: Seq<SToken>, p: int) -> int {
    let m = opt_index_type_at(ts, p).0;
    mx(
        opt_index_type_reach(ts, p),
        match index_columns_at(ts, m) {
            None => index_columns_reach(ts, m),
            Some((e, _)) => mx(index_columns_reach(ts, m), index_options_reach(ts, e)),
        },
    )
}

/// How far an attempt at a column definition at `p` reads.
pub open spec fn column_reach(ts: Seq<SToken>, p: int) -> int {
    if ident_at(ts, p) is None {
        p
    } else {
        let b = ws_end(ts, p + 1);
        match datatype_at(ts, b) {
            None => mx(p + 1, mx(b, datatype_reach(ts, b))),
            Some((e, _)) => {
                let f = column_attr_list(ts, e, seq![]).0;
                mx(p + 1, mx(mx(b, datatype_reach(ts, b)), mx(column_attrs_reach(ts, e), opt_reference_reach(ts, f))))
            },
        }
    }
}

/// How far an attempt at a primary key definition at `p` reads.
pub open spec fn primary_key_reach(ts: Seq<SToken>, p: int) -> int {
    let c = constraint_at(ts, p, "PRIMARY"@).0;
    let cr = constraint_reach(ts, p);
    if !is_keyword_at(ts, c, "PRIMARY"@) {
        cr
    } else {
        let a = ws_end(ts, c + 1);
        if !(a > c + 1 && is_keyword_at(ts, a, "KEY"@)) {
            mx(cr, mx(c + 1, a))
        } else {
            mx(cr, mx(a + 1, index_body_reach(ts, a + 1)))
        }
    }
}

/// How far an attempt at an `INDEX | KEY` definition at `p` reads.
pub open spec fn index_def_reach(ts: Seq<SToken>, p: int) -> int {
    if !one_of_at(ts, p, index_key_words()) {
        p
    } else {
        let n = opt_ws_ident_at(ts, p + 1).0;
        mx(p + 1, mx(opt_ws_ident_reach(ts, p + 1), index_body_reach(ts, n)))
    }
}

/// How far an attempt at `[__ name] [__ USING type] columns options` from
/// `q` reads.
pub open spec fn key_tail_body_reach(ts: Seq<SToken>, q: int) -> int {
    let n = opt_ws_ident_at(ts, q).0;
    mx(opt_ws_ident_reach(ts, q), index_body_reach(ts, n))
}

/// How far an attempt at the tail of a unique key from `q` reads.
pub open spec fn unique_tail_reach(ts: Seq<SToken>, q: int, consume_kw: bool) -> int {
    if consume_kw {
        let a = ws_end(ts, q);
        if !(a > q && one_of_at(ts, a, index_key_words())) {
            a
        } else {
            mx(a + 1, key_tail_body_reach(ts, a + 1))
        }
    } else {
        key_tail_body_reach(ts, q)
    }
}

/// How far an attempt at a unique key definition at `p` reads.
pub open spec fn unique_key_reach(ts: Seq<SToken>, p: int) -> int {
    let c = constraint_at(ts, p, "UNIQUE"@).0;
    let cr = constraint_reach(ts, p);
    if !is_keyword_at(ts, c, "UNIQUE"@) {
        cr
    } else {
        mx(
            cr,
            mx(
                c + 1,
                alt_reach(
                    unique_tail_at(ts, c + 1, false) is Some,
                    unique_tail_reach(ts, c + 1, false),
                    unique_tail_reach(ts, c + 1, true),
                ),
            ),
        )
    }
}

/// How far an attempt at a `FULLTEXT` or `SPATIAL` index definition (`kw`)
/// at `p` reads.
pub open spec fn named_index_reach(ts: Seq<SToken>, p: int, kw: Seq<char>) -> int {
    if !is_keyword_at(ts, p, kw) {
        p
    } else {
        let a = ws_end(ts, p + 1);
        let k = if a > p + 1 && one_of_at(ts, a, index_key_words()) {
            a + 1
        } else {
            p + 1
        };
        let n = opt_ws_ident_at(ts, k).0;
        mx(
            mx(p + 1, if a > p + 1 && one_of_at(ts, a, index_key_words()) { a + 1 } else { a }),
            mx(
                opt_ws_ident_reach(ts, k),
                match index_columns_at(ts, n) {
                    None => index_columns_reach(ts, n),
                    Some((e, _)) => mx(index_columns_reach(ts, n), index_options_reach(ts, e)),
                },
            ),
        )
    }
}

/// How far an attempt at a foreign key definition at `p` reads.
pub open spec fn foreign_key_reach(ts: Seq<SToken>, p: int) -> int {
    let c = constraint_at(ts, p, "FOREIGN"@).0;
    let cr = constraint_reach(ts, p);
    if !is_keyword_at(ts, c, "FOREIGN"@) {
        cr
    } else {
        let a = ws_end(ts, c + 1);
        if !(a > c + 1 && is_keyword_at(ts, a, "KEY"@)) {
            mx(cr, mx(c + 1, a))
        } else {
            let n = opt_ws_ident_at(ts, a + 1).0;
            mx(
                cr,
                mx(
                    mx(a + 1, opt_ws_ident_reach(ts, a + 1)),
                    match index_columns_at(ts, n) {
                        None => index_columns_reach(ts, n),
                        Some((e, _)) => mx(
                            index_columns_reach(ts, n),
                            mx(ws_end(ts, e), column_reference_reach(ts, ws_end(ts, e))),
                        ),
                    },
                ),
            )
        }
    }
}

/// How far an attempt at a create definition at `p` reads.
#[verifier::opaque]
pub open spec fn create_definition_reach(ts: Seq<SToken>, p: int) -> int {
    alt_reach(
        primary_key_def_at(ts, p) is Some,
        primary_key_reach(ts, p),
        alt_reach(
            index_def_at(ts, p) is Some,
            index_def_reach(ts, p),
            alt_reach(
                unique_key_def_at(ts, p) is Some,
                unique_key_reach(ts, p),
                alt_reach(
                    named_index_def_at(ts, p, "FULLTEXT"@, "fulltextIndex"@) is Some,
                    named_index_reach(ts, p, "FULLTEXT"@),
                    alt_reach(
                        named_index_def_at(ts, p, "SPATIAL"@, "spatialIndex"@) is Some,
                        named_index_reach(ts, p, "SPATIAL"@),
                        alt_reach(
                            foreign_key_def_at(ts, p) is Some,
                            foreign_key_reach(ts, p),
                            column_reach(ts, p),
                        ),
                    ),
                ),
            ),
        ),
    )
}

/// How far the further definitions `, definition` from `p` read.
pub open spec fn create_definition_rest_reach(ts: Seq<SToken>, p: int) -> int
    decreases ts.len() - p,
{
    let a = ws_end(ts, p);
    let b = ws_end(ts, a + 1);
    if p >= 0 && is_kind_at(ts, a, SKind::Comma) {
        match create_definition_at(ts, b) {
            Some((e, _)) => if p < e <= ts.len() {
                mx(mx(p, mx(b, create_definition_reach(ts, b))), create_definition_rest_reach(ts, e))
            } else {
                mx(p, mx(b, create_definition_reach(ts, b)))
            },
            None => mx(p, mx(b, create_definition_reach(ts, b))),
        }
    } else {
        mx(p, a)
    }
}

/// How far an attempt at `( definition , ... _ )` at `p` reads.
#[verifier::opaque]
pub open spec fn create_definitions_reach(ts: Seq<SToken>, p: int) -> int {
    if !is_kind_at(ts, p, SKind::LParens) {
        p
    } else {
        let b = ws_end(ts, p + 1);
        match create_definition_at(ts, b) {
            None => mx(b, create_definition_reach(ts, b)),
            Some((e1, d1)) => {
                let e2 = create_definition_rest(ts, e1, seq![d1]).0;
                let f = ws_end(ts, e2);
                mx(
                    mx(b, create_definition_reach(ts, b)),
                    mx(create_definition_rest_reach(ts, e1), if is_kind_at(ts, f, SKind::RParens) { f + 1 } else { f }),
                )
            },
        }
    }
}

/// How far an attempt at the numeric options from the `i`-th on reads.
pub open spec fn numeric_option_reach_from(ts: Seq<SToken>, p: int, i: int) -> int
    decreases 10 - i,
{
    if i < 0 || i >= 10 {
        p
    } else if is_keyword_at(ts, p, numeric_option_words()[i]@) {
        let q = match ws_eq_end(ts, p + 1) {
            Some(q) => q,
            None => p + 1,
        };
        if ws_eq_end(ts, p + 1) is Some && is_kind_at(ts, q, SKind::Number) {
            q + 1
        } else {
            mx(q, numeric_option_reach_from(ts, p, i + 1))
        }
    } else {
        numeric_option_reach_from(ts, p, i + 1)
    }
}

/// How far an attempt at the quoted options from the `i`-th on reads.
pub open spec fn quoted_option_reach_from(ts: Seq<SToken>, p: int, i: int) -> int
    decreases 5 - i,
{
    if i < 0 || i >= 5 {
        p
    } else if is_keyword_at(ts, p, quoted_option_words()[i]@) {
        let q = match ws_eq_end(ts, p + 1) {
            Some(q) => q,
            None => p + 1,
        };
        if ws_eq_end(ts, p + 1) is Some && 0 <= q < ts.len() && is_string_kind(ts[q].kind) {
            q + 1
        } else {
            mx(q, quoted_option_reach_from(ts, p, i + 1))
        }
    } else {
        quoted_option_reach_from(ts, p, i + 1)
    }
}

/// How far an attempt at `[DEFAULT __]` at `p` reads.
pub open spec fn default_prefix_reach(ts: Seq<SToken>, p: int) -> int {
    if is_keyword_at(ts, p, "DEFAULT"@) {
        ws_end(ts, p + 1)
    } else {
        p
    }
}

/// How far an attempt at `CHARACTER __ SET | CHARSET` at `p` reads.
pub open spec fn charset_words_reach(ts: Seq<SToken>, p: int) -> int {
    let a = ws_end(ts, p + 1);
    let plain = if is_keyword_at(ts, p, "CHARSET"@) {
        p + 1
    } else {
        p
    };
    if is_keyword_at(ts, p, "CHARACTER"@) {
        if a > p + 1 && is_keyword_at(ts, a, "SET"@) {
            a + 1
        } else {
            mx(a, plain)
        }
    } else {
        plain
    }
}

/// How far an attempt at `( __ | = ) word` from `p` reads.
pub open spec fn eq_word_reach(ts: Seq<SToken>, p: int) -> int {
    match ws_eq_end(ts, p) {
        None => p,
        Some(q) => if word_at(ts, q) is Some {
            q + 1
        } else {
            q
        },
    }
}

/// How far an attempt at a charset option at `p` reads.
pub open spec fn charset_reach(ts: Seq<SToken>, p: int) -> int {
    let d = default_prefix_end(ts, p);
    let head = mx(default_prefix_reach(ts, p), charset_words_reach(ts, d));
    match charset_words_end(ts, d) {
        None => head,
        Some(c) => mx(head, mx(c, eq_word_reach(ts, c))),
    }
}

/// How far an attempt at a collation option at `p` reads.
pub open spec fn collate_reach(ts: Seq<SToken>, p: int) -> int {
    let d = default_prefix_end(ts, p);
    if !is_keyword_at(ts, d, "COLLATE"@) {
        mx(default_prefix_reach(ts, p), d)
    } else {
        mx(default_prefix_reach(ts, p), mx(d + 1, eq_word_reach(ts, d + 1)))
    }
}

/// How far an attempt at `(DATA | INDEX) __ DIRECTORY ( __ | = ) 'dir'` at
/// `p` reads.
pub open spec fn directory_reach(ts: Seq<SToken>, p: int) -> int {
    if !(is_keyword_at(ts, p, "DATA"@) || is_keyword_at(ts, p, "INDEX"@)) {
        p
    } else {
        let a = ws_end(ts, p + 1);
        if !(a > p + 1 && is_keyword_at(ts, a, "DIRECTORY"@)) {
            a
        } else {
            match ws_eq_end(ts, a + 1) {
                None => a + 1,
                Some(q) => if 0 <= q < ts.len() && is_string_kind(ts[q].kind) {
                    q + 1
                } else {
                    q
                },
            }
        }
    }
}

/// How far an attempt at a valued table option at `p` reads.
pub open spec fn valued_option_reach(ts: Seq<SToken>, p: int) -> int {
    alt_reach(
        numeric_option_from(ts, p, 0) is Some,
        numeric_option_reach_from(ts, p, 0),
        alt_reach(
            charset_at(ts, p) is Some,
            charset_reach(ts, p),
            alt_reach(
                collate_at(ts, p) is Some,
                collate_reach(ts, p),
                alt_reach(
                    quoted_option_from(ts, p, 0) is Some,
                    quoted_option_reach_from(ts, p, 0),
                    directory_reach(ts, p),
                ),
            ),
        ),
    )
}

/// How far an attempt at `kw ( __ | = ) v` at `p` reads, where `v` is a
/// number or `DEFAULT` when `numeric`, else any option value.
pub open spec fn eq_value_reach(ts: Seq<SToken>, p: int, kw: Seq<char>, numeric: bool) -> int {
    if !is_keyword_at(ts, p, kw) {
        p
    } else {
        match ws_eq_end(ts, p + 1) {
            None => p + 1,
            Some(q) => if (if numeric {
                number_or_default_at(ts, q)
            } else {
                option_value_at(ts, q)
            }) is Some {
                q + 1
            } else {
                q
            },
        }
    }
}

/// How far the further names `, name` from `p` read.
pub open spec fn ident_list_rest_reach(ts: Seq<SToken>, p: int) -> int
    decreases ts.len() - p,
{
    let a = ws_end(ts, p);
    let b = ws_end(ts, a + 1);
    if p >= 0 && is_kind_at(ts, a, SKind::Comma) && ident_at(ts, b) is Some && p < b + 1 <= ts.len() {
        mx(p, ident_list_rest_reach(ts, b + 1))
    } else if p >= 0 && is_kind_at(ts, a, SKind::Comma) {
        mx(p, b)
    } else {
        mx(p, a)
    }
}

/// How far an attempt at `( _ name , ... _ )` at `p` reads.
pub open spec fn ident_list_reach(ts: Seq<SToken>, p: int) -> int {
    let b = ws_end(ts, p + 1);
    if !is_kind_at(ts, p, SKind::LParens) {
        p
    } else if ident_at(ts, b) is None {
        b
    } else {
        let e = ident_list_rest(ts, b + 1, seq![ident_at(ts, b)->Some_0]).0;
        let f = ws_end(ts, e);
        mx(mx(b + 1, ident_list_rest_reach(ts, b + 1)), if is_kind_at(ts, f, SKind::RParens) { f + 1 } else { f })
    }
}

/// How far an attempt at the system versioning, tablespace and union
/// options at `p` reads.
pub open spec fn special_option_reach(ts: Seq<SToken>, p: int) -> int {
    let a = ws_end(ts, p + 1);
    let with = if is_keyword_at(ts, p, "WITH"@) {
        mx(p + 1, two_words_reach(ts, p + 1, "SYSTEM"@, "VERSIONING"@))
    } else {
        p
    };
    let tablespace = if !is_keyword_at(ts, p, "TABLESPACE"@) {
        p
    } else if !(a > p + 1 && ident_at(ts, a) is Some) {
        a
    } else {
        let c = ws_end(ts, a + 1);
        let d = ws_end(ts, c + 1);
        mx(
            a + 1,
            if !(c > a + 1 && is_keyword_at(ts, c, "STORAGE"@)) {
                c
            } else if d > c + 1 && one_of_at(ts, d, tablespace_storage_words()) {
                d + 1
            } else {
                d
            },
        )
    };
    let union = if !is_keyword_at(ts, p, "UNION"@) {
        p
    } else {
        match ws_eq_end(ts, p + 1) {
            None => p + 1,
            Some(q) => mx(q, ident_list_reach(ts, q)),
        }
    };
    alt_reach(
        system_versioning_at(ts, p) is Some,
        with,
        alt_reach(tablespace_at(ts, p) is Some, tablespace, union),
    )
}

/// How far an attempt at a keyword table option at `p` reads.
pub open spec fn keyword_option_reach(ts: Seq<SToken>, p: int) -> int {
    let engine = if is_keyword_at(ts, p, "ENGINE"@) {
        match ws_eq_end(ts, p + 1) {
            None => p + 1,
            Some(_) => eq_word_reach(ts, p + 1),
        }
    } else {
        p
    };
    alt_reach(
        eq_choice_at(ts, p, "IETF_QUOTES"@, seq!["YES", "NO"], "ietfQuotes"@) is Some,
        keyed_word_reach(ts, p, "IETF_QUOTES"@, seq!["YES", "NO"]),
        alt_reach(
            engine_at(ts, p) is Some,
            engine,
            alt_reach(
                eq_choice_at(ts, p, "INSERT_METHOD"@, seq!["NO", "FIRST", "LAST"], "insertMethod"@) is Some,
                keyed_word_reach(ts, p, "INSERT_METHOD"@, seq!["NO", "FIRST", "LAST"]),
                alt_reach(
                    eq_value_at(ts, p, "PACK_KEYS"@, true, "packKeys"@) is Some,
                    eq_value_reach(ts, p, "PACK_KEYS"@, true),
                    alt_reach(
                        eq_choice_at(ts, p, "ROW_FORMAT"@, row_format_words(), "rowFormat"@) is Some,
                        keyed_word_reach(ts, p, "ROW_FORMAT"@, row_format_words()),
                        alt_reach(
                            eq_value_at(ts, p, "STATS_AUTO_RECALC"@, true, "statsAutoRecalc"@) is Some,
                            eq_value_reach(ts, p, "STATS_AUTO_RECALC"@, true),
                            alt_reach(
                                eq_value_at(ts, p, "STATS_PERSISTENT"@, true, "statsPersistent"@) is Some,
                                eq_value_reach(ts, p, "STATS_PERSISTENT"@, true),
                                alt_reach(
                                    eq_value_at(ts, p, "STATS_SAMPLE_PAGES"@, false, "statsSamplePages"@) is Some,
                                    eq_value_reach(ts, p, "STATS_SAMPLE_PAGES"@, false),
                                    special_option_reach(ts, p),
                                ),
                            ),
                        ),
                    ),
                ),
            ),
        ),
    )
}

/// How far an attempt at a table option at `p` reads.
pub open spec fn table_option_reach(ts: Seq<SToken>, p: int) -> int {
    alt_reach(valued_option_at(ts, p) is Some, valued_option_reach(ts, p), keyword_option_reach(ts, p))
}

/// How far the further table options from `p` read.
pub open spec fn table_option_rest_reach(ts: Seq<SToken>, p: int) -> int
    decreases ts.len() - p,
{
    match option_sep_end(ts, p) {
        None => p,
        Some(c) => match table_option_at(ts, c) {
            Some((e, _)) => if p < e <= ts.len() {
                mx(mx(p, mx(c, table_option_reach(ts, c))), table_option_rest_reach(ts, e))
            } else {
                mx(p, mx(c, table_option_reach(ts, c)))
            },
            None => mx(p, mx(c, table_option_reach(ts, c))),
        },
    }
}

/// How far an attempt at table options at `p` reads.
#[verifier::opaque]
pub open spec fn table_options_reach(ts: Seq<SToken>, p: int) -> int {
    match table_option_at(ts, p) {
        None => table_option_reach(ts, p),
        Some((e, _)) => mx(table_option_reach(ts, p), table_option_rest_reach(ts, e)),
    }
}

/// How far an attempt at optional `_ options` from `p` reads.
pub open spec fn opt_table_options_reach(ts: Seq<SToken>, p: int) -> int {
    mx(ws_end(ts, p), table_options_reach(ts, ws_end(ts, p)))
}

/// How far an attempt at `LIKE other` or `( LIKE other )` from `p` reads.
pub open spec fn like_clause_reach(ts: Seq<SToken>, p: int) -> int {
    let a = ws_end(ts, p);
    let b = ws_end(ts, a + 1);
    let started = a > p && is_keyword_at(ts, a, "LIKE"@) && b > a + 1;
    let plain = if !(a > p && is_keyword_at(ts, a, "LIKE"@)) {
        a
    } else if !(b > a + 1) {
        b
    } else if ident_at(ts, b) is Some {
        b + 1
    } else {
        b
    };
    let c = ws_end(ts, b + 1);
    let d = ws_end(ts, c + 1);
    let paren = if !is_kind_at(ts, a, SKind::LParens) {
        a
    } else if !is_keyword_at(ts, b, "LIKE"@) {
        b
    } else if !(c > b + 1) {
        c
    } else if ident_at(ts, c) is None {
        c
    } else if is_kind_at(ts, d, SKind::RParens) {
        d + 1
    } else {
        d
    };
    if started {
        plain
    } else {
        mx(plain, paren)
    }
}

/// How far an attempt at `CREATE TABLE name ( definitions ) [options];` at
/// `p` reads.
pub open spec fn create_table_common_reach(ts: Seq<SToken>, p: int) -> int {
    let hr = create_table_head_reach(ts, p);
    match create_table_head_end(ts, p) {
        None => hr,
        Some(h) => {
            let a = ws_end(ts, h);
            if !(a > h && ident_at(ts, a) is Some) {
                mx(hr, a)
            } else {
                let b = ws_end(ts, a + 1);
                match create_definitions_at(ts, b) {
                    None => mx(hr, mx(a + 1, mx(b, create_definitions_reach(ts, b)))),
                    Some((e, _)) => {
                        let f = opt_table_options_at(ts, e).0;
                        mx(
                            hr,
                            mx(
                                mx(a + 1, mx(b, create_definitions_reach(ts, b))),
                                mx(opt_table_options_reach(ts, e), eos_reach(ts, f)),
                            ),
                        )
                    },
                }
            }
        },
    }
}

/// How far an attempt at `CREATE TABLE name LIKE other;` at `p` reads.
pub open spec fn create_table_like_reach(ts: Seq<SToken>, p: int) -> int {
    let hr = create_table_head_reach(ts, p);
    match create_table_head_end(ts, p) {
        None => hr,
        Some(h) => {
            let a = ws_end(ts, h);
            if !(a > h && ident_at(ts, a) is Some) {
                mx(hr, a)
            } else {
                match like_clause_at(ts, a + 1) {
                    None => mx(hr, mx(a + 1, like_clause_reach(ts, a + 1))),
                    Some((e, _)) => mx(hr, mx(mx(a + 1, like_clause_reach(ts, a + 1)), eos_reach(ts, e))),
                }
            }
        },
    }
}

/// How far an attempt at a `CREATE TABLE` statement at `p` reads.
#[verifier::opaque]
pub open spec fn create_table_reach(ts: Seq<SToken>, p: int) -> int {
    alt_reach(create_table_common_at(ts, p) is Some, create_table_common_reach(ts, p), create_table_like_reach(ts, p))
}


/// Parse `P_CREATE_TABLE`. Tries the common form, then the LIKE form.
pub fn p_create_table(s: &mut Stream) -> (r: Option<Json>)
    ensures
        frame(*old(s), *final(s)),
        reached(*old(s), *final(s), create_table_reach(old(s).spec_tokens(), old(s).spec_pos())),
        r is Some ==> final(s).spec_pos() > old(s).spec_pos(),
        r is None ==> final(s).spec_pos() == old(s).spec_pos(),
        r matches Some(v) ==> is_node(v@, "P_CREATE_TABLE"@),
        match spec_create_table(old(s).spec_tokens(), old(s).spec_pos()) {
            Some((e, v)) => r matches Some(x) && x@ == v && final(s).spec_pos() == e,
            None => r is None,
        },
{
    proof {
        reveal(create_table_reach);
    }
    let save = s.pos();
    if let Some(inner) = p_create_table_common(s) {
        return Some(node("P_CREATE_TABLE", inner));
    }
    s.set(save);
    if let Some(inner) = p_create_table_like(s) {
        return Some(node("P_CREATE_TABLE", inner));
    }
    s.set(save);
    None
}

/// Where `CREATE [OR REPLACE] [TEMPORARY] TABLE [IF NOT EXISTS]` at `p`
/// ends.
pub open spec fn create_table_head_end(ts: Seq<SToken>, p: int) -> Option<int> {
    if !is_keyword_at(ts, p, "CREATE"@) {
        None
    } else {
        let a = or_replace_end(ts, p + 1);
        let b = match ws1_end(ts, a) {
            Some(t) => if is_keyword_at(ts, t, "TEMPORARY"@) {
                t + 1
            } else {
                a
            },
            None => a,
        };
        match ws1_end(ts, b) {
            Some(t) => if is_keyword_at(ts, t, "TABLE"@) {
                Some(if_not_exists_end(ts, t + 1))
            } else {
                None
            },
            None => None,
        }
    }
}

/// Parse the leading `CREATE [OR REPLACE]? [TEMPORARY]? TABLE [IF NOT EXISTS]?`.
#[verifier::rlimit(60)]
pub fn create_table_head(s: &mut Stream) -> (r: bool)
    ensures
        frame(*old(s), *final(s)),
        reached(*old(s), *final(s), create_table_head_reach(old(s).spec_tokens(), old(s).spec_pos())),
        r ==> final(s).spec_pos() > old(s).spec_pos(),
        match create_table_head_end(old(s).spec_tokens(), old(s).spec_pos()) {
            Some(e) => r && final(s).spec_pos() == e,
            None => !r,
        },
{
    if s.eat_keyword("CREATE").is_none() {
        return false;
    }
    // OR REPLACE.
    let save = s.pos();
    if s.ws1() && s.eat_keyword("OR").is_some() && s.ws1() && s.eat_keyword("REPLACE").is_some() {
    } else {
        s.set(save);
    }
    // TEMPORARY.
    let save = s.pos();
    if s.ws1() && s.eat_keyword("TEMPORARY").is_some() {
    } else {
        s.set(save);
    }
    if !s.ws1() || s.eat_keyword("TABLE").is_none() {
        return false;
    }
    // IF NOT EXISTS.
    let save = s.pos();
    if s.ws1() && s.eat_keyword("IF").is_some() && s.ws1() && s.eat_keyword("NOT").is_some()
        && s.ws1() && s.eat_keyword("EXISTS").is_some() {
    } else {
        s.set(save);
    }
    true
}

/// Optional `_ options` from `p`: where they end and the node.
pub open spec fn opt_table_options_at(ts: Seq<SToken>, p: int) -> (int, Option<JsonV>) {
    match table_options_at(ts, ws_end(ts, p)) {
        Some((g, v)) => (g, Some(v)),
        None => (p, None),
    }
}

/// The value of a common `CREATE TABLE`.
pub open spec fn create_common_v(table: Seq<char>, cols: JsonV, opts: Option<JsonV>) -> JsonV {
    node_v(
        "P_CREATE_TABLE_COMMON"@,
        JsonV::Obj(
            seq![("table"@, JsonV::Str(table)), ("columnsDef"@, cols), ("tableOptions"@, or_null_v(opts))],
        ),
    )
}

/// The common `CREATE TABLE name (definitions) [options];` at `p`: its end
/// and `P_CREATE_TABLE_COMMON` node.
pub open spec fn create_table_common_at(ts: Seq<SToken>, p: int) -> Option<(int, JsonV)> {
    match create_table_head_end(ts, p) {
        None => None,
        Some(h) => match ws1_end(ts, h) {
            None => None,
            Some(a) => match ident_at(ts, a) {
                None => None,
                Some(table) => match create_definitions_at(ts, ws_end(ts, a + 1)) {
                    None => None,
                    Some((e, cols)) => {
                        let (f, opts) = opt_table_options_at(ts, e);
                        match eos_end(ts, f) {
                            Some(z) => Some((z, create_common_v(table, cols, opts))),
                            None => None,
                        }
                    },
                },
            },
        },
    }
}

/// Parse optional `_ options`.
fn opt_table_options(s: &mut Stream) -> (r: Option<Json>)
    ensures
        frame(*old(s), *final(s)),
        reached(*old(s), *final(s), opt_table_options_reach(old(s).spec_tokens(), old(s).spec_pos())),
        opt_table_options_at(old(s).spec_tokens(), old(s).spec_pos()) == (
            final(s).spec_pos(),
            crate::json::opt_json(r),
        ),
{
    let save = s.pos();
    s.ws0();
    if let Some(opts) = p_create_table_options(s) {
        return Some(opts);
    }
    s.set(save);
    None
}

/// The value of a common `CREATE TABLE`.
fn create_common_value(table: String, columns_def: Json, table_options: Option<Json>) -> (r: Json)
    ensures
        r@ == create_common_v(table@, columns_def@, crate::json::opt_json(table_options)),
        is_node(r@, "P_CREATE_TABLE_COMMON"@),
{
    let ghost tv = table@;
    let ghost cv = columns_def@;
    let ghost ov = crate::json::opt_json(table_options);
    let mut def: Vec<(String, Json)> = Vec::new();
    put(&mut def, "table", Json::Str(table));
    put(&mut def, "columnsDef", columns_def);
    // Null when no options follow.
    let oj = opt_or_null(table_options);
    assert(oj@ == or_null_v(ov));
    put(&mut def, "tableOptions", oj);
    assert(crate::json::view_obj(def@) =~= seq![
        ("table"@, JsonV::Str(tv)),
        ("columnsDef"@, cv),
        ("tableOptions"@, or_null_v(ov)),
    ]);
    node("P_CREATE_TABLE_COMMON", Json::Obj(def))
}

fn p_create_table_common(s: &mut Stream) -> (r: Option<Json>)
    ensures
        frame(*old(s), *final(s)),
        reached(*old(s), *final(s), create_table_common_reach(old(s).spec_tokens(), old(s).spec_pos())),
        r is Some ==> final(s).spec_pos() > old(s).spec_pos(),
        r matches Some(v) ==> is_node(v@, "P_CREATE_TABLE_COMMON"@),
        match create_table_common_at(old(s).spec_tokens(), old(s).spec_pos()) {
            Some((e, v)) => r matches Some(x) && x@ == v && final(s).spec_pos() == e,
            None => r is None,
        },
{
    if !create_table_head(s) {
        return None;
    }
    if !s.ws1() {
        return None;
    }
    let table = match s_identifier(s) {
        Some(t) => t,
        None => return None,
    };
    s.ws0();
    let columns_def = match p_create_table_create_definitions(s) {
        Some(c) => c,
        None => return None,
    };
    // Optional table options.
    let table_options = opt_table_options(s);
    if !s_eos(s) {
        return None;
    }
    Some(create_common_value(table, columns_def, table_options))
}

/// Where the `__ LIKE __ name` or `_ ( _ LIKE __ name _ )` of a `CREATE
/// TABLE ... LIKE` from `p` ends, and the name.
pub open spec fn like_clause_at(ts: Seq<SToken>, p: int) -> Option<(int, Seq<char>)> {
    let plain = match ws1_end(ts, p) {
        Some(a) => if is_keyword_at(ts, a, "LIKE"@) {
            match ws1_end(ts, a + 1) {
                Some(b) => Some(b),
                None => None,
            }
        } else {
            None
        },
        None => None,
    };
    match plain {
        Some(b) => match ident_at(ts, b) {
            Some(n) => Some((b + 1, n)),
            None => None,
        },
        None => {
            let a = ws_end(ts, p);
            let b = ws_end(ts, a + 1);
            if is_kind_at(ts, a, SKind::LParens) && is_keyword_at(ts, b, "LIKE"@) {
                match ws1_end(ts, b + 1) {
                    Some(c) => match ident_at(ts, c) {
                        Some(n) => if is_kind_at(ts, ws_end(ts, c + 1), SKind::RParens) {
                            Some((ws_end(ts, c + 1) + 1, n))
                        } else {
                            None
                        },
                        None => None,
                    },
                    None => None,
                }
            } else {
                None
            }
        },
    }
}

/// A `CREATE TABLE name LIKE other;` at `p`: its end and
/// `P_CREATE_TABLE_LIKE` node.
pub open spec fn create_table_like_at(ts: Seq<SToken>, p: int) -> Option<(int, JsonV)> {
    match create_table_head_end(ts, p) {
        None => None,
        Some(h) => match ws1_end(ts, h) {
            None => None,
            Some(a) => match ident_at(ts, a) {
                None => None,
                Some(table) => match like_clause_at(ts, a + 1) {
                    None => None,
                    Some((e, like)) => match eos_end(ts, e) {
                        Some(z) => Some(
                            (
                                z,
                                node_v(
                                    "P_CREATE_TABLE_LIKE"@,
                                    JsonV::Obj(seq![("table"@, JsonV::Str(table)), ("like"@, JsonV::Str(like))]),
                                ),
                            ),
                        ),
                        None => None,
                    },
                },
            },
        },
    }
}

/// Parse `__ LIKE __ name` or `_ ( _ LIKE __ name _ )`.
fn like_clause(s: &mut Stream) -> (r: Option<String>)
    ensures
        frame(*old(s), *final(s)),
        reached(*old(s), *final(s), like_clause_reach(old(s).spec_tokens(), old(s).spec_pos())),
        match like_clause_at(old(s).spec_tokens(), old(s).spec_pos()) {
            Some((e, n)) => r matches Some(x) && x@ == n && final(s).spec_pos() == e,
            None => r is None,
        },
{
    let save = s.pos();
    if s.ws1() && s.eat_keyword("LIKE").is_some() && s.ws1() {
        return s_identifier(s);
    }
    s.set(save);
    s.ws0();
    if s.eat(&TokenKind::LParens).is_none() {
        return None;
    }
    s.ws0();
    if s.eat_keyword("LIKE").is_none() || !s.ws1() {
        return None;
    }
    let like = match s_identifier(s) {
        Some(l) => l,
        None => return None,
    };
    s.ws0();
    if s.eat(&TokenKind::RParens).is_none() {
        return None;
    }
    Some(like)
}

fn p_create_table_like(s: &mut Stream) -> (r: Option<Json>)
    ensures
        frame(*old(s), *final(s)),
        reached(*old(s), *final(s), create_table_like_reach(old(s).spec_tokens(), old(s).spec_pos())),
        r is Some ==> final(s).spec_pos() > old(s).spec_pos(),
        r matches Some(v) ==> is_node(v@, "P_CREATE_TABLE_LIKE"@),
        match create_table_like_at(old(s).spec_tokens(), old(s).spec_pos()) {
            Some((e, v)) => r matches Some(x) && x@ == v && final(s).spec_pos() == e,
            None => r is None,
        },
{
    if !create_table_head(s) {
        return None;
    }
    if !s.ws1() {
        return None;
    }
    let table = match s_identifier(s) {
        Some(t) => t,
        None => return None,
    };
    // `__ LIKE __ ident` or `_ ( _ LIKE __ ident _ )`.
    let like = match like_clause(s) {
        Some(l) => l,
        None => return None,
    };
    if !s_eos(s) {
        return None;
    }
    let ghost tv = table@;
    let ghost lv = like@;
    let mut def: Vec<(String, Json)> = Vec::new();
    put(&mut def, "table", Json::Str(table));
    put(&mut def, "like", Json::Str(like));
    assert(crate::json::view_obj(def@) =~= seq![("table"@, JsonV::Str(tv)), ("like"@, JsonV::Str(lv))]);
    Some(node("P_CREATE_TABLE_LIKE", Json::Obj(def)))
}

/// The further create definitions `, definition` from `p`, after `acc`.
pub open spec fn create_definition_rest(ts: Seq<SToken>, p: int, acc: Seq<JsonV>) -> (int, Seq<JsonV>)
    decreases ts.len() - p,
{
    let a = ws_end(ts, p);
    if p >= 0 && is_kind_at(ts, a, SKind::Comma) {
        match create_definition_at(ts, ws_end(ts, a + 1)) {
            Some((e, d)) => if p < e <= ts.len() {
                create_definition_rest(ts, e, acc.push(d))
            } else {
                (p, acc)
            },
            None => (p, acc),
        }
    } else {
        (p, acc)
    }
}

/// A list `( _ definition , ... _ )` at `p`: its end and
/// `P_CREATE_TABLE_CREATE_DEFINITIONS` node.
#[verifier::opaque]
pub open spec fn create_definitions_at(ts: Seq<SToken>, p: int) -> Option<(int, JsonV)> {
    if !is_kind_at(ts, p, SKind::LParens) {
        None
    } else {
        match create_definition_at(ts, ws_end(ts, p + 1)) {
            None => None,
            Some((e1, d1)) => {
                let (e2, defs) = create_definition_rest(ts, e1, seq![d1]);
                let f = ws_end(ts, e2);
                if is_kind_at(ts, f, SKind::RParens) {
                    Some((f + 1, node_v("P_CREATE_TABLE_CREATE_DEFINITIONS"@, JsonV::Arr(defs))))
                } else {
                    None
                }
            },
        }
    }
}

/// Parse `( def (, def)* )`.
fn p_create_table_create_definitions(s: &mut Stream) -> (r: Option<Json>)
    ensures
        frame(*old(s), *final(s)),
        reached(*old(s), *final(s), create_definitions_reach(old(s).spec_tokens(), old(s).spec_pos())),
        r is Some ==> final(s).spec_pos() > old(s).spec_pos(),
        r is None ==> final(s).spec_pos() == old(s).spec_pos(),
        r matches Some(v) ==> is_node(v@, "P_CREATE_TABLE_CREATE_DEFINITIONS"@),
        match create_definitions_at(old(s).spec_tokens(), old(s).spec_pos()) {
            Some((e, v)) => r matches Some(x) && x@ == v && final(s).spec_pos() == e,
            None => r is None,
        },
{
    proof {
        reveal(create_definitions_at);
        reveal(create_definitions_reach);
    }
    let ghost ts = s.spec_tokens();
    let save = s.pos();
    if s.eat(&TokenKind::LParens).is_none() {
        return None;
    }
    s.ws0();
    let first = match o_create_table_create_definition(s) {
        Some(d) => d,
        None => {
            s.set(save);
            return None;
        },
    };
    let ghost target = create_definition_rest(ts, s.spec_pos(), seq![first@]);
    let ghost g = mx(s.spec_furthest(), create_definition_rest_reach(ts, s.spec_pos()));
    let mut defs: Vec<Json> = Vec::new();
    proof {
        crate::json::lemma_view_arr_push(defs@, first);
    }
    defs.push(first);
    assert(crate::json::view_arr(defs@) =~= seq![first@]);
    loop
        invariant
            frame(*old(s), *s),
            s.spec_tokens() == ts,
            save == old(s).spec_pos(),
            s.spec_pos() > save,
            create_definition_rest(ts, s.spec_pos(), crate::json::view_arr(defs@)) == target,
            mx(s.spec_furthest(), create_definition_rest_reach(ts, s.spec_pos())) == g,
        ensures
            target == (s.spec_pos(), crate::json::view_arr(defs@)),
            s.spec_furthest() == g,
        decreases s.spec_tokens().len() - s.spec_pos(),
    {
        let item = s.pos();
        s.ws0();
        if s.eat(&TokenKind::Comma).is_none() {
            s.set(item);
            break;
        }
        s.ws0();
        match o_create_table_create_definition(s) {
            Some(d) => {
                proof {
                    crate::json::lemma_view_arr_push(defs@, d);
                }
                defs.push(d);
            },
            None => {
                s.set(item);
                break;
            },
        }
    }
    s.ws0();
    if s.eat(&TokenKind::RParens).is_none() {
        s.set(save);
        return None;
    }
    Some(node("P_CREATE_TABLE_CREATE_DEFINITIONS", Json::Arr(defs)))
}

/// A create definition at `p`: a primary key, index, unique key, fulltext or
/// spatial index, foreign key or column, in that order; its end and
/// `O_CREATE_TABLE_CREATE_DEFINITION` node.
#[verifier::opaque]
pub open spec fn create_definition_at(ts: Seq<SToken>, p: int) -> Option<(int, JsonV)> {
    let d = first_of(
        primary_key_def_at(ts, p),
        first_of(
            index_def_at(ts, p),
            first_of(
                unique_key_def_at(ts, p),
                first_of(
                    named_index_def_at(ts, p, "FULLTEXT"@, "fulltextIndex"@),
                    first_of(
                        named_index_def_at(ts, p, "SPATIAL"@, "spatialIndex"@),
                        first_of(foreign_key_def_at(ts, p), column_at(ts, p)),
                    ),
                ),
            ),
        ),
    );
    match d {
        Some((e, v)) => Some((e, node_v("O_CREATE_TABLE_CREATE_DEFINITION"@, v))),
        None => None,
    }
}

/// Parse one create definition. Index and key forms come before columns so a
/// leading keyword like PRIMARY or INDEX is not read as a column name.
#[verifier::rlimit(100)]
fn o_create_table_create_definition(s: &mut Stream) -> (r: Option<Json>)
    ensures
        frame(*old(s), *final(s)),
        reached(*old(s), *final(s), create_definition_reach(old(s).spec_tokens(), old(s).spec_pos())),
        r is Some ==> final(s).spec_pos() > old(s).spec_pos(),
        r is None ==> final(s).spec_pos() == old(s).spec_pos(),
        r matches Some(v) ==> is_node(v@, "O_CREATE_TABLE_CREATE_DEFINITION"@),
        match create_definition_at(old(s).spec_tokens(), old(s).spec_pos()) {
            Some((e, v)) => r matches Some(x) && x@ == v && final(s).spec_pos() == e,
            None => r is None,
        },
{
    proof {
        reveal(create_definition_at);
        reveal(create_definition_reach);
    }
    let save = s.pos();
    if let Some(v) = def_primary_key(s) {
        return Some(node("O_CREATE_TABLE_CREATE_DEFINITION", v));
    }
    s.set(save);
    if let Some(v) = def_index(s) {
        return Some(node("O_CREATE_TABLE_CREATE_DEFINITION", v));
    }
    s.set(save);
    if let Some(v) = def_unique_key(s) {
        return Some(node("O_CREATE_TABLE_CREATE_DEFINITION", v));
    }
    s.set(save);
    if let Some(v) = def_fulltext(s) {
        return Some(node("O_CREATE_TABLE_CREATE_DEFINITION", v));
    }
    s.set(save);
    if let Some(v) = def_spatial(s) {
        return Some(node("O_CREATE_TABLE_CREATE_DEFINITION", v));
    }
    s.set(save);
    if let Some(v) = def_foreign_key(s) {
        return Some(node("O_CREATE_TABLE_CREATE_DEFINITION", v));
    }
    s.set(save);
    if let Some(v) = def_column(s) {
        return Some(node("O_CREATE_TABLE_CREATE_DEFINITION", v));
    }
    s.set(save);
    None
}

/// An optional `__ name` from `p`: where it ends and the name.
pub open spec fn opt_ws_ident_at(ts: Seq<SToken>, p: int) -> (int, Option<Seq<char>>) {
    match ws1_end(ts, p) {
        Some(a) => match ident_at(ts, a) {
            Some(n) => (a + 1, Some(n)),
            None => (p, None),
        },
        None => (p, None),
    }
}

/// Optional `__ ident` after a keyword. Returns the identifier.
pub fn opt_ws_ident(s: &mut Stream) -> (r: Option<String>)
    ensures
        frame(*old(s), *final(s)),
        reached(*old(s), *final(s), opt_ws_ident_reach(old(s).spec_tokens(), old(s).spec_pos())),
        r is None ==> final(s).spec_pos() == old(s).spec_pos(),
        r is Some ==> final(s).spec_pos() > old(s).spec_pos(),
        opt_ws_ident_at(old(s).spec_tokens(), old(s).spec_pos()) == (
            final(s).spec_pos(),
            super::helpers::opt_view(r),
        ),
{
    let save = s.pos();
    if s.ws1() {
        if let Some(id) = s_identifier(s) {
            return Some(id);
        }
    }
    s.set(save);
    None
}

/// An optional `__ USING type` from `p`: where it ends and the node.
pub open spec fn opt_index_type_at(ts: Seq<SToken>, p: int) -> (int, Option<JsonV>) {
    match ws1_end(ts, p) {
        Some(a) => match index_type_at(ts, a) {
            Some((e, t)) => (e, Some(t)),
            None => (p, None),
        },
        None => (p, None),
    }
}

/// The string `v`, or null when absent.
pub open spec fn str_or_null_v(v: Option<Seq<char>>) -> JsonV {
    match v {
        Some(x) => JsonV::Str(x),
        None => JsonV::Null,
    }
}

/// `v`, or null when absent.
pub open spec fn or_null_v(v: Option<JsonV>) -> JsonV {
    match v {
        Some(x) => x,
        None => JsonV::Null,
    }
}

/// Optional `__ P_INDEX_TYPE`. Returns the index type node.
pub fn opt_index_type(s: &mut Stream) -> (r: Option<Json>)
    ensures
        frame(*old(s), *final(s)),
        reached(*old(s), *final(s), opt_index_type_reach(old(s).spec_tokens(), old(s).spec_pos())),
        r is None ==> final(s).spec_pos() == old(s).spec_pos(),
        r matches Some(v) ==> is_node(v@, "P_INDEX_TYPE"@),
        opt_index_type_at(old(s).spec_tokens(), old(s).spec_pos()) == (
            final(s).spec_pos(),
            crate::json::opt_json(r),
        ),
{
    let save = s.pos();
    if s.ws1() {
        if let Some(it) = p_index_type(s) {
            return Some(it);
        }
    }
    s.set(save);
    None
}

/// The definition of a column: its datatype, attributes and reference where
/// given.
pub open spec fn column_inner_v(datatype: JsonV, attrs: Seq<JsonV>, reference: Option<JsonV>) -> Seq<(Seq<char>, JsonV)> {
    let inner = seq![("datatype"@, datatype), ("columnDefinition"@, JsonV::Arr(attrs))];
    match reference {
        Some(r) => inner.push(("reference"@, r)),
        None => inner,
    }
}

/// A column: its name and definition.
pub open spec fn column_def_v(name: Seq<char>, datatype: JsonV, attrs: Seq<JsonV>, reference: Option<JsonV>) -> JsonV {
    obj1_v(
        "column"@,
        JsonV::Obj(
            seq![("name"@, JsonV::Str(name)), ("def"@, JsonV::Obj(column_inner_v(datatype, attrs, reference)))],
        ),
    )
}

/// A column `name _ datatype [attributes] [__ reference]` at `p`.
pub open spec fn column_at(ts: Seq<SToken>, p: int) -> Option<(int, JsonV)> {
    match ident_at(ts, p) {
        None => None,
        Some(name) => match datatype_at(ts, ws_end(ts, p + 1)) {
            None => None,
            Some((e, dt)) => {
                let (f, attrs) = column_attr_list(ts, e, seq![]);
                let (g, reference) = opt_reference_at(ts, f);
                Some((g, column_def_v(name, dt, attrs, reference)))
            },
        },
    }
}

/// The value of a column.
fn column_value(name: String, datatype: Json, attrs: Vec<Json>, reference: Option<Json>) -> (r: Json)
    ensures
        r@ == column_def_v(
            name@,
            datatype@,
            crate::json::view_arr(attrs@),
            crate::json::opt_json(reference),
        ),
{
    let ghost nv = name@;
    let ghost dv = datatype@;
    let ghost cv = crate::json::view_arr(attrs@);
    let ghost rv = crate::json::opt_json(reference);
    let mut inner: Vec<(String, Json)> = Vec::new();
    put(&mut inner, "datatype", datatype);
    put(&mut inner, "columnDefinition", Json::Arr(attrs));
    if let Some(r) = reference {
        put(&mut inner, "reference", r);
    }
    let ghost iv = column_inner_v(dv, cv, rv);
    assert(crate::json::view_obj(inner@) =~= iv);
    let mut column: Vec<(String, Json)> = Vec::new();
    put(&mut column, "name", Json::Str(name));
    put(&mut column, "def", Json::Obj(inner));
    assert(crate::json::view_obj(column@) =~= seq![("name"@, JsonV::Str(nv)), ("def"@, JsonV::Obj(iv))]);
    obj1("column", Json::Obj(column))
}

/// An optional `__ REFERENCES ...` from `p`: where it ends and the node.
pub open spec fn opt_reference_at(ts: Seq<SToken>, p: int) -> (int, Option<JsonV>) {
    match ws1_end(ts, p) {
        Some(a) => match column_reference_at(ts, a) {
            Some((h, r)) => (h, Some(r)),
            None => (p, None),
        },
        None => (p, None),
    }
}

/// Parse an optional `__ REFERENCES ...`.
pub fn opt_ws_reference(s: &mut Stream) -> (r: Option<Json>)
    ensures
        frame(*old(s), *final(s)),
        reached(*old(s), *final(s), opt_reference_reach(old(s).spec_tokens(), old(s).spec_pos())),
        opt_reference_at(old(s).spec_tokens(), old(s).spec_pos()) == (
            final(s).spec_pos(),
            crate::json::opt_json(r),
        ),
{
    let save = s.pos();
    if s.ws1() {
        if let Some(r) = p_column_reference(s) {
            return Some(r);
        }
    }
    s.set(save);
    None
}

fn def_column(s: &mut Stream) -> (r: Option<Json>)
    ensures
        frame(*old(s), *final(s)),
        reached(*old(s), *final(s), column_reach(old(s).spec_tokens(), old(s).spec_pos())),
        r is Some ==> final(s).spec_pos() > old(s).spec_pos(),
        match column_at(old(s).spec_tokens(), old(s).spec_pos()) {
            Some((e, v)) => r matches Some(x) && x@ == v && final(s).spec_pos() == e,
            None => r is None,
        },
{
    let ghost ts = s.spec_tokens();
    let name = match s_identifier(s) {
        Some(n) => n,
        None => return None,
    };
    s.ws0();
    let datatype = match require_datatype(s) {
        Some(d) => d,
        None => return None,
    };
    let column_definition = column_definitions(s);
    let reference = opt_ws_reference(s);
    Some(column_value(name, datatype, column_definition, reference))
}

/// A constraint prefix: absent, present without a name (empty), or named.
pub struct Constraint(pub Option<String>);

/// An optional `CONSTRAINT [__ name] __` before the keyword `next` at `p`:
/// where it ends and the name (empty when none is given).
pub open spec fn constraint_at(ts: Seq<SToken>, p: int, next: Seq<char>) -> (int, Option<Seq<char>>) {
    if !is_keyword_at(ts, p, "CONSTRAINT"@) {
        (p, None)
    } else {
        let named = match ws1_end(ts, p + 1) {
            Some(a) => match ident_at(ts, a) {
                Some(n) => match ws1_end(ts, a + 1) {
                    Some(b) => if is_keyword_at(ts, b, next) {
                        Some((b, n))
                    } else {
                        None
                    },
                    None => None,
                },
                None => None,
            },
            None => None,
        };
        match named {
            Some((b, n)) => (b, Some(n)),
            None => match ws1_end(ts, p + 1) {
                Some(a) => (a, Some(Seq::empty())),
                None => (p, None),
            },
        }
    }
}

/// Parse an optional constraint prefix followed by the keyword `next`. The
/// name is kept only when `next` follows it, so a keyword like PRIMARY is not
/// swallowed as a constraint name.
pub fn opt_constraint_full(s: &mut Stream, next: &str) -> (r: Constraint)
    ensures
        frame(*old(s), *final(s)),
        reached(*old(s), *final(s), constraint_reach(old(s).spec_tokens(), old(s).spec_pos())),
        r.0 is None ==> final(s).spec_pos() == old(s).spec_pos(),
        constraint_at(old(s).spec_tokens(), old(s).spec_pos(), next@) == (
            final(s).spec_pos(),
            super::helpers::opt_view(r.0),
        ),
{
    let save = s.pos();
    if s.eat_keyword("CONSTRAINT").is_none() {
        return Constraint(None);
    }
    // Try with a name.
    let with_name = s.pos();
    if s.ws1() {
        if let Some(n) = s_identifier(s) {
            if s.ws1() && peek_keyword(s, next) {
                return Constraint(Some(n));
            }
        }
    }
    // Retry without a name.
    s.set(with_name);
    if !s.ws1() {
        s.set(save);
        return Constraint(None);
    }
    let r = Constraint(Some(String::new()));
    assert(super::helpers::opt_view(r.0) =~= Some(Seq::<char>::empty()));
    r
}

/// Whether the next token is the given keyword, without consuming it.
pub fn peek_keyword(s: &Stream, name: &str) -> (r: bool)
    ensures
        r == is_keyword_at(s.spec_tokens(), s.spec_pos(), name@),
{
    proof {
        super::stream::lemma_stream_bounds(*s);
    }
    match s.peek() {
        Some(t) => match &t.kind {
            TokenKind::Keyword(k) => {
                let r = str_eq(k.as_str(), name);
                assert(t.kind@ == SKind::Keyword(k@));
                r
            },
            _ => false,
        },
        None => false,
    }
}

/// A constraint name as a value: the name when present and not empty, null
/// otherwise.
pub open spec fn constraint_name_v(c: Option<Seq<char>>) -> JsonV {
    match c {
        Some(n) => if n.len() > 0 {
            JsonV::Str(n)
        } else {
            JsonV::Null
        },
        None => JsonV::Null,
    }
}

/// A constraint name as a JSON value: the name when present and non-empty,
/// null otherwise.
pub fn constraint_name(c: Constraint) -> (r: Json)
    ensures
        match c.0 {
            Some(n) => if n@.len() > 0 {
                r@ == crate::json::JsonV::Str(n@)
            } else {
                r@ is Null
            },
            None => r@ is Null,
        },
        r@ == constraint_name_v(super::helpers::opt_view(c.0)),
{
    match c.0 {
        Some(n) => {
            if n.as_str().unicode_len() > 0 {
                Json::Str(n)
            } else {
                Json::Null
            }
        },
        None => Json::Null,
    }
}

pub fn opt_or_null(v: Option<Json>) -> (r: Json)
    ensures
        match v {
            Some(x) => r@ == x@,
            None => r@ is Null,
        },
{
    match v {
        Some(x) => x,
        None => Json::Null,
    }
}

/// An index body `[USING type] (columns) [options]` from `p`, after an
/// optional name: where it ends, the index type, the columns and the
/// options.
pub open spec fn index_body_at(ts: Seq<SToken>, p: int) -> Option<(int, Option<JsonV>, Seq<JsonV>, Seq<JsonV>)> {
    let (a, itype) = opt_index_type_at(ts, p);
    match index_columns_at(ts, a) {
        None => None,
        Some((e, cols)) => {
            let (f, opts) = index_option_list(ts, e, seq![]);
            Some((f, itype, cols, opts))
        },
    }
}

/// A primary key definition at `p`.
pub open spec fn primary_key_def_at(ts: Seq<SToken>, p: int) -> Option<(int, JsonV)> {
    let (c0, cname) = constraint_at(ts, p, "PRIMARY"@);
    if !is_keyword_at(ts, c0, "PRIMARY"@) {
        None
    } else {
        match ws1_end(ts, c0 + 1) {
            Some(k) => if is_keyword_at(ts, k, "KEY"@) {
                match index_body_at(ts, k + 1) {
                    Some((f, itype, cols, opts)) => Some(
                        (
                            f,
                            obj1_v(
                                "primaryKey"@,
                                JsonV::Obj(
                                    seq![
                                        ("name"@, constraint_name_v(cname)),
                                        ("index"@, or_null_v(itype)),
                                        ("columns"@, JsonV::Arr(cols)),
                                        ("options"@, JsonV::Arr(opts)),
                                    ],
                                ),
                            ),
                        ),
                    ),
                    None => None,
                }
            } else {
                None
            },
            None => None,
        }
    }
}

fn def_primary_key(s: &mut Stream) -> (r: Option<Json>)
    ensures
        frame(*old(s), *final(s)),
        reached(*old(s), *final(s), primary_key_reach(old(s).spec_tokens(), old(s).spec_pos())),
        r is Some ==> final(s).spec_pos() > old(s).spec_pos(),
        match primary_key_def_at(old(s).spec_tokens(), old(s).spec_pos()) {
            Some((e, v)) => r matches Some(x) && x@ == v && final(s).spec_pos() == e,
            None => r is None,
        },
{
    let constraint = opt_constraint_full(s, "PRIMARY");
    let ghost cname = super::helpers::opt_view(constraint.0);
    if s.eat_keyword("PRIMARY").is_none() {
        return None;
    }
    if !s.ws1() || s.eat_keyword("KEY").is_none() {
        return None;
    }
    let index = opt_index_type(s);
    let columns = match index_column_list(s) {
        Some(c) => c,
        None => return None,
    };
    let options = index_options(s);
    let ghost iv: Option<JsonV> = if index is Some {
        Some(index->Some_0@)
    } else {
        None
    };
    let ghost cv = crate::json::view_arr(columns@);
    let ghost ov = crate::json::view_arr(options@);
    let mut pk: Vec<(String, Json)> = Vec::new();
    put(&mut pk, "name", constraint_name(constraint));
    put(&mut pk, "index", opt_or_null(index));
    put(&mut pk, "columns", Json::Arr(columns));
    put(&mut pk, "options", Json::Arr(options));
    assert(crate::json::view_obj(pk@) =~= seq![
        ("name"@, constraint_name_v(cname)),
        ("index"@, or_null_v(iv)),
        ("columns"@, JsonV::Arr(cv)),
        ("options"@, JsonV::Arr(ov)),
    ]);
    Some(obj1("primaryKey", Json::Obj(pk)))
}

/// The words that may follow an index kind.
pub open spec fn index_key_words() -> Seq<&'static str> {
    seq!["INDEX", "KEY"]
}

/// The value of an index definition.
pub open spec fn index_def_v(name: Option<Seq<char>>, itype: Option<JsonV>, cols: Seq<JsonV>, opts: Seq<JsonV>) -> JsonV {
    obj1_v(
        "index"@,
        JsonV::Obj(
            seq![
                ("name"@, str_or_null_v(name)),
                ("index"@, or_null_v(itype)),
                ("columns"@, JsonV::Arr(cols)),
                ("options"@, JsonV::Arr(opts)),
            ],
        ),
    )
}

/// An index definition `(INDEX | KEY) [__ name] [USING type] (columns)
/// [options]` at `p`.
pub open spec fn index_def_at(ts: Seq<SToken>, p: int) -> Option<(int, JsonV)> {
    if !one_of_at(ts, p, index_key_words()) {
        None
    } else {
        let (a, name) = opt_ws_ident_at(ts, p + 1);
        match index_body_at(ts, a) {
            Some((f, itype, cols, opts)) => Some((f, index_def_v(name, itype, cols, opts))),
            None => None,
        }
    }
}

/// The value of an index definition.
fn index_value(name: Option<String>, index: Option<Json>, columns: Vec<Json>, options: Vec<Json>) -> (r: Json)
    ensures
        r@ == index_def_v(
            super::helpers::opt_view(name),
            crate::json::opt_json(index),
            crate::json::view_arr(columns@),
            crate::json::view_arr(options@),
        ),
{
    let ghost nm = super::helpers::opt_view(name);
    let ghost nv = str_or_null_v(nm);
    let ghost iv = crate::json::opt_json(index);
    let ghost cv = crate::json::view_arr(columns@);
    let ghost ov = crate::json::view_arr(options@);
    let nj = match name {
        Some(n) => Json::Str(n),
        None => Json::Null,
    };
    assert(nj@ == nv);
    let ij = opt_or_null(index);
    assert(ij@ == or_null_v(iv));
    let mut idx: Vec<(String, Json)> = Vec::new();
    put(&mut idx, "name", nj);
    put(&mut idx, "index", ij);
    put(&mut idx, "columns", Json::Arr(columns));
    put(&mut idx, "options", Json::Arr(options));
    assert(crate::json::view_obj(idx@) =~= seq![
        ("name"@, nv),
        ("index"@, or_null_v(iv)),
        ("columns"@, JsonV::Arr(cv)),
        ("options"@, JsonV::Arr(ov)),
    ]);
    obj1("index", Json::Obj(idx))
}

/// Parse an index body `[USING type] (columns) [options]`.
pub fn index_body(s: &mut Stream) -> (r: Option<(Option<Json>, Vec<Json>, Vec<Json>)>)
    ensures
        frame(*old(s), *final(s)),
        reached(*old(s), *final(s), index_body_reach(old(s).spec_tokens(), old(s).spec_pos())),
        match index_body_at(old(s).spec_tokens(), old(s).spec_pos()) {
            Some((f, itype, cols, opts)) => r matches Some((i, c, o)) && final(s).spec_pos() == f
                && crate::json::opt_json(i) == itype && crate::json::view_arr(c@) == cols
                && crate::json::view_arr(o@) == opts,
            None => r is None,
        },
{
    let index = opt_index_type(s);
    let columns = match index_column_list(s) {
        Some(c) => c,
        None => return None,
    };
    let options = index_options(s);
    Some((index, columns, options))
}

fn def_index(s: &mut Stream) -> (r: Option<Json>)
    ensures
        frame(*old(s), *final(s)),
        reached(*old(s), *final(s), index_def_reach(old(s).spec_tokens(), old(s).spec_pos())),
        r is Some ==> final(s).spec_pos() > old(s).spec_pos(),
        match index_def_at(old(s).spec_tokens(), old(s).spec_pos()) {
            Some((e, v)) => r matches Some(x) && x@ == v && final(s).spec_pos() == e,
            None => r is None,
        },
{
    let words: [&str; 2] = ["INDEX", "KEY"];
    assert(words@ =~= index_key_words());
    if one_of_keywords(s, &words).is_none() {
        return None;
    }
    let name = opt_ws_ident(s);
    match index_body(s) {
        Some((index, columns, options)) => Some(index_value(name, index, columns, options)),
        None => None,
    }
}

/// Whether a name is the word index or key, in any case.
pub open spec fn spec_is_index_or_key(name: Seq<char>) -> bool {
    spec_to_lowercase(name) == "index"@ || spec_to_lowercase(name) == "key"@
}

/// Whether a name is the literal word index or key, case-insensitively.
pub fn is_index_or_key(name: &str) -> (r: bool)
    ensures
        r == spec_is_index_or_key(name@),
{
    let lower = to_lowercase(name);
    str_eq(lower.as_str(), "index") || str_eq(lower.as_str(), "key")
}

/// The name field of a unique, fulltext or spatial key: none when the name
/// is the word index or key, null when there is no name.
pub open spec fn key_name_fields(name: Option<Seq<char>>) -> Seq<(Seq<char>, JsonV)> {
    match name {
        Some(n) => if spec_is_index_or_key(n) {
            seq![]
        } else {
            seq![("name"@, JsonV::Str(n))]
        },
        None => seq![("name"@, JsonV::Null)],
    }
}

/// Puts the name of a unique, fulltext or spatial key: omitted when it is the
/// word index or key, null when absent.
fn put_key_name(fields: &mut Vec<(String, Json)>, name: Option<String>)
    ensures
        crate::json::view_obj(final(fields)@) == crate::json::view_obj(old(fields)@) + key_name_fields(
            super::helpers::opt_view(name),
        ),
{
    let ghost before = crate::json::view_obj(fields@);
    match name {
        Some(n) => {
            if !is_index_or_key(n.as_str()) {
                put(fields, "name", Json::Str(n));
            }
        },
        None => {
            put(fields, "name", Json::Null);
        },
    }
    assert(crate::json::view_obj(fields@) =~= before + key_name_fields(super::helpers::opt_view(name)));
}

/// The parts of a unique key after UNIQUE: name, index type, columns, options.
pub struct UniqueTail {
    pub name: Option<String>,
    pub index: Option<Json>,
    pub columns: Vec<Json>,
    pub options: Vec<Json>,
}

/// The tail of a unique key after `UNIQUE` from `p`, with or without the
/// `__ (INDEX | KEY)` branch: where it ends, the name and the index body.
pub open spec fn unique_tail_at(ts: Seq<SToken>, p: int, consume_kw: bool) -> Option<
    (int, Option<Seq<char>>, Option<JsonV>, Seq<JsonV>, Seq<JsonV>),
> {
    let q = if consume_kw {
        match ws1_end(ts, p) {
            Some(a) => if one_of_at(ts, a, index_key_words()) {
                Some(a + 1)
            } else {
                None
            },
            None => None,
        }
    } else {
        Some(p)
    };
    match q {
        None => None,
        Some(q0) => {
            let (a, name) = opt_ws_ident_at(ts, q0);
            match index_body_at(ts, a) {
                Some((f, itype, cols, opts)) => Some((f, name, itype, cols, opts)),
                None => None,
            }
        },
    }
}

/// The value of a unique key.
pub open spec fn unique_key_v(name: Option<Seq<char>>, itype: Option<JsonV>, cols: Seq<JsonV>, opts: Seq<JsonV>) -> JsonV {
    let head = key_name_fields(name);
    let with_index = match itype {
        Some(t) => head.push(("index"@, t)),
        None => head,
    };
    obj1_v(
        "uniqueKey"@,
        JsonV::Obj(with_index.push(("columns"@, JsonV::Arr(cols))).push(("options"@, JsonV::Arr(opts)))),
    )
}

/// A unique key definition at `p`.
pub open spec fn unique_key_def_at(ts: Seq<SToken>, p: int) -> Option<(int, JsonV)> {
    let (c0, _cname) = constraint_at(ts, p, "UNIQUE"@);
    if !is_keyword_at(ts, c0, "UNIQUE"@) {
        None
    } else {
        match unique_tail_at(ts, c0 + 1, false) {
            Some((f, name, itype, cols, opts)) => Some((f, unique_key_v(name, itype, cols, opts))),
            None => match unique_tail_at(ts, c0 + 1, true) {
                Some((f, name, itype, cols, opts)) => Some((f, unique_key_v(name, itype, cols, opts))),
                None => None,
            },
        }
    }
}

fn def_unique_key(s: &mut Stream) -> (r: Option<Json>)
    ensures
        frame(*old(s), *final(s)),
        reached(*old(s), *final(s), unique_key_reach(old(s).spec_tokens(), old(s).spec_pos())),
        r is Some ==> final(s).spec_pos() > old(s).spec_pos(),
        match unique_key_def_at(old(s).spec_tokens(), old(s).spec_pos()) {
            Some((e, v)) => r matches Some(x) && x@ == v && final(s).spec_pos() == e,
            None => r is None,
        },
{
    // The constraint prefix is consumed but its name is not used here.
    let _constraint = opt_constraint_full(s, "UNIQUE");
    if s.eat_keyword("UNIQUE").is_none() {
        return None;
    }
    // The optional INDEX or KEY prefers its absent branch: the word is read
    // as the identifier first, and the keyword branch is taken only when the
    // identifier branch cannot continue.
    let tail = match unique_key_tail(s, false) {
        Some(t) => t,
        None => match unique_key_tail(s, true) {
            Some(t) => t,
            None => return None,
        },
    };
    let ghost nv = super::helpers::opt_view(tail.name);
    let ghost iv: Option<JsonV> = if tail.index is Some {
        Some(tail.index->Some_0@)
    } else {
        None
    };
    let ghost cv = crate::json::view_arr(tail.columns@);
    let ghost ov = crate::json::view_arr(tail.options@);
    let mut uk: Vec<(String, Json)> = Vec::new();
    put_key_name(&mut uk, tail.name);
    // An absent index type is omitted.
    if let Some(i) = tail.index {
        put(&mut uk, "index", i);
    }
    put(&mut uk, "columns", Json::Arr(tail.columns));
    put(&mut uk, "options", Json::Arr(tail.options));
    assert(crate::json::view_obj(uk@) =~= unique_key_v(nv, iv, cv, ov)->Obj_0[0].1->Obj_0);
    Some(obj1("uniqueKey", Json::Obj(uk)))
}

/// Parse the tail of a unique key after UNIQUE. `consume_kw` selects whether
/// the `__ INDEX | __ KEY` branch is taken.
fn unique_key_tail(s: &mut Stream, consume_kw: bool) -> (r: Option<UniqueTail>)
    ensures
        frame(*old(s), *final(s)),
        reached(*old(s), *final(s), unique_tail_reach(old(s).spec_tokens(), old(s).spec_pos(), consume_kw)),
        r is None ==> final(s).spec_pos() == old(s).spec_pos(),
        match unique_tail_at(old(s).spec_tokens(), old(s).spec_pos(), consume_kw) {
            Some((f, name, itype, cols, opts)) => r matches Some(t) && final(s).spec_pos() == f
                && super::helpers::opt_view(t.name) == name && (match t.index {
                Some(x) => Some(x@),
                None => None::<JsonV>,
            }) == itype && crate::json::view_arr(t.columns@) == cols && crate::json::view_arr(t.options@)
                == opts,
            None => r is None,
        },
{
    let save = s.pos();
    if consume_kw {
        let words: [&str; 2] = ["INDEX", "KEY"];
        assert(words@ =~= index_key_words());
        if s.ws1() && one_of_keywords(s, &words).is_some() {
        } else {
            s.set(save);
            return None;
        }
    }
    let name = opt_ws_ident(s);
    let index = opt_index_type(s);
    let columns = match index_column_list(s) {
        Some(c) => c,
        None => {
            s.set(save);
            return None;
        },
    };
    let options = index_options(s);
    Some(UniqueTail { name, index, columns, options })
}

/// A fulltext or spatial index `kw [__ (INDEX | KEY)] [__ name] (columns)
/// [options]` at `p`, under `key`.
pub open spec fn named_index_def_at(ts: Seq<SToken>, p: int, kw: Seq<char>, key: Seq<char>) -> Option<(int, JsonV)> {
    if !is_keyword_at(ts, p, kw) {
        None
    } else {
        let k = match ws1_end(ts, p + 1) {
            Some(a) => if one_of_at(ts, a, index_key_words()) {
                a + 1
            } else {
                p + 1
            },
            None => p + 1,
        };
        let (a, name) = opt_ws_ident_at(ts, k);
        match index_columns_at(ts, a) {
            None => None,
            Some((e, cols)) => {
                let (f, opts) = index_option_list(ts, e, seq![]);
                Some(
                    (
                        f,
                        obj1_v(
                            key,
                            JsonV::Obj(
                                key_name_fields(name).push(("columns"@, JsonV::Arr(cols))).push(
                                    ("options"@, JsonV::Arr(opts)),
                                ),
                            ),
                        ),
                    ),
                )
            },
        }
    }
}

/// FULLTEXT or SPATIAL index definitions share one shape.
fn def_named_index(s: &mut Stream, kw: &str, key: &str) -> (r: Option<Json>)
    ensures
        frame(*old(s), *final(s)),
        reached(*old(s), *final(s), named_index_reach(old(s).spec_tokens(), old(s).spec_pos(), kw@)),
        r is Some ==> final(s).spec_pos() > old(s).spec_pos(),
        match named_index_def_at(old(s).spec_tokens(), old(s).spec_pos(), kw@, key@) {
            Some((e, v)) => r matches Some(x) && x@ == v && final(s).spec_pos() == e,
            None => r is None,
        },
{
    if s.eat_keyword(kw).is_none() {
        return None;
    }
    let save = s.pos();
    let words: [&str; 2] = ["INDEX", "KEY"];
    assert(words@ =~= index_key_words());
    if s.ws1() && one_of_keywords(s, &words).is_some() {
    } else {
        s.set(save);
    }
    let name = opt_ws_ident(s);
    let columns = match index_column_list(s) {
        Some(c) => c,
        None => return None,
    };
    let options = index_options(s);
    let ghost nv = super::helpers::opt_view(name);
    let ghost cv = crate::json::view_arr(columns@);
    let ghost ov = crate::json::view_arr(options@);
    let mut fi: Vec<(String, Json)> = Vec::new();
    put_key_name(&mut fi, name);
    put(&mut fi, "columns", Json::Arr(columns));
    put(&mut fi, "options", Json::Arr(options));
    assert(crate::json::view_obj(fi@) =~= key_name_fields(nv).push(("columns"@, JsonV::Arr(cv))).push(
        ("options"@, JsonV::Arr(ov)),
    ));
    Some(obj1(key, Json::Obj(fi)))
}

fn def_fulltext(s: &mut Stream) -> (r: Option<Json>)
    ensures
        frame(*old(s), *final(s)),
        reached(*old(s), *final(s), named_index_reach(old(s).spec_tokens(), old(s).spec_pos(), "FULLTEXT"@)),
        r is Some ==> final(s).spec_pos() > old(s).spec_pos(),
        match named_index_def_at(old(s).spec_tokens(), old(s).spec_pos(), "FULLTEXT"@, "fulltextIndex"@) {
            Some((e, v)) => r matches Some(x) && x@ == v && final(s).spec_pos() == e,
            None => r is None,
        },
{
    def_named_index(s, "FULLTEXT", "fulltextIndex")
}

fn def_spatial(s: &mut Stream) -> (r: Option<Json>)
    ensures
        frame(*old(s), *final(s)),
        reached(*old(s), *final(s), named_index_reach(old(s).spec_tokens(), old(s).spec_pos(), "SPATIAL"@)),
        r is Some ==> final(s).spec_pos() > old(s).spec_pos(),
        match named_index_def_at(old(s).spec_tokens(), old(s).spec_pos(), "SPATIAL"@, "spatialIndex"@) {
            Some((e, v)) => r matches Some(x) && x@ == v && final(s).spec_pos() == e,
            None => r is None,
        },
{
    def_named_index(s, "SPATIAL", "spatialIndex")
}

/// A foreign key definition at `p`.
pub open spec fn foreign_key_def_at(ts: Seq<SToken>, p: int) -> Option<(int, JsonV)> {
    let (c0, cname) = constraint_at(ts, p, "FOREIGN"@);
    if !is_keyword_at(ts, c0, "FOREIGN"@) {
        None
    } else {
        match ws1_end(ts, c0 + 1) {
            Some(k) => if is_keyword_at(ts, k, "KEY"@) {
                let (a, _index_name) = opt_ws_ident_at(ts, k + 1);
                match index_columns_at(ts, a) {
                    None => None,
                    Some((e, cols)) => match column_reference_at(ts, ws_end(ts, e)) {
                        Some((f, reference)) => Some(
                            (
                                f,
                                obj1_v(
                                    "foreignKey"@,
                                    JsonV::Obj(
                                        seq![
                                            ("name"@, constraint_name_v(cname)),
                                            ("columns"@, JsonV::Arr(cols)),
                                            ("reference"@, reference),
                                        ],
                                    ),
                                ),
                            ),
                        ),
                        None => None,
                    },
                }
            } else {
                None
            },
            None => None,
        }
    }
}

fn def_foreign_key(s: &mut Stream) -> (r: Option<Json>)
    ensures
        frame(*old(s), *final(s)),
        reached(*old(s), *final(s), foreign_key_reach(old(s).spec_tokens(), old(s).spec_pos())),
        r is Some ==> final(s).spec_pos() > old(s).spec_pos(),
        match foreign_key_def_at(old(s).spec_tokens(), old(s).spec_pos()) {
            Some((e, v)) => r matches Some(x) && x@ == v && final(s).spec_pos() == e,
            None => r is None,
        },
{
    let constraint = opt_constraint_full(s, "FOREIGN");
    let ghost cname = super::helpers::opt_view(constraint.0);
    if s.eat_keyword("FOREIGN").is_none() {
        return None;
    }
    if !s.ws1() || s.eat_keyword("KEY").is_none() {
        return None;
    }
    // A named index after FOREIGN KEY is parsed but not used for the name.
    let _index_name = opt_ws_ident(s);
    let columns = match index_column_list(s) {
        Some(c) => c,
        None => return None,
    };
    s.ws0();
    let reference = match p_column_reference(s) {
        Some(r) => r,
        None => return None,
    };
    let ghost cv = crate::json::view_arr(columns@);
    let ghost rv = reference@;
    let mut fk: Vec<(String, Json)> = Vec::new();
    put(&mut fk, "name", constraint_name(constraint));
    put(&mut fk, "columns", Json::Arr(columns));
    put(&mut fk, "reference", reference);
    assert(crate::json::view_obj(fk@) =~= seq![
        ("name"@, constraint_name_v(cname)),
        ("columns"@, JsonV::Arr(cv)),
        ("reference"@, rv),
    ]);
    Some(obj1("foreignKey", Json::Obj(fk)))
}

/// Parse `S_EOS`: optional whitespace then a semicolon.
pub fn s_eos(s: &mut Stream) -> (r: bool)
    ensures
        frame(*old(s), *final(s)),
        reached(*old(s), *final(s), eos_reach(old(s).spec_tokens(), old(s).spec_pos())),
        ({
            let p1 = ws_end(old(s).spec_tokens(), old(s).spec_pos());
            if is_kind_at(old(s).spec_tokens(), p1, SKind::Semicolon) {
                r && final(s).spec_pos() == p1 + 1
            } else {
                !r && final(s).spec_pos() == old(s).spec_pos()
            }
        }),
{
    let save = s.pos();
    s.ws0();
    if s.eat(&TokenKind::Semicolon).is_some() {
        true
    } else {
        s.set(save);
        false
    }
}

/// The separator `( __ | _ , _ )` between table options from `p`: where it
/// ends.
pub open spec fn option_sep_end(ts: Seq<SToken>, p: int) -> Option<int> {
    if ws_end(ts, p) > p {
        Some(ws_end(ts, p))
    } else if is_kind_at(ts, p, SKind::Comma) {
        Some(ws_end(ts, p + 1))
    } else {
        None
    }
}

/// The further table options from `p`, each after a separator, after `acc`,
/// and where they end.
pub open spec fn table_option_list(ts: Seq<SToken>, p: int, acc: Seq<JsonV>) -> (int, Seq<JsonV>)
    decreases ts.len() - p,
{
    match option_sep_end(ts, p) {
        Some(a) => match table_option_at(ts, a) {
            Some((e, v)) => if p < e <= ts.len() {
                table_option_list(ts, e, acc.push(v))
            } else {
                (p, acc)
            },
            None => (p, acc),
        },
        None => (p, acc),
    }
}

/// The table options at `p`: their end and `P_CREATE_TABLE_OPTIONS` node.
#[verifier::opaque]
pub open spec fn table_options_at(ts: Seq<SToken>, p: int) -> Option<(int, JsonV)> {
    match table_option_at(ts, p) {
        None => None,
        Some((e, first)) => {
            let (f, opts) = table_option_list(ts, e, seq![first]);
            Some((f, node_v("P_CREATE_TABLE_OPTIONS"@, JsonV::Arr(opts))))
        },
    }
}

/// Parse `P_CREATE_TABLE_OPTIONS`: options separated by whitespace or a comma.
pub fn p_create_table_options(s: &mut Stream) -> (r: Option<Json>)
    ensures
        frame(*old(s), *final(s)),
        reached(*old(s), *final(s), table_options_reach(old(s).spec_tokens(), old(s).spec_pos())),
        r is Some ==> final(s).spec_pos() > old(s).spec_pos(),
        r is None ==> final(s).spec_pos() == old(s).spec_pos(),
        r matches Some(v) ==> is_node(v@, "P_CREATE_TABLE_OPTIONS"@),
        match table_options_at(old(s).spec_tokens(), old(s).spec_pos()) {
            Some((e, v)) => r matches Some(x) && x@ == v && final(s).spec_pos() == e,
            None => r is None,
        },
{
    proof {
        reveal(table_options_at);
        reveal(table_options_reach);
    }
    let ghost ts = s.spec_tokens();
    let first = match o_create_table_option(s) {
        Some(o) => o,
        None => return None,
    };
    let ghost start = old(s).spec_pos();
    let ghost target = table_option_list(ts, s.spec_pos(), seq![first@]);
    let ghost g = mx(s.spec_furthest(), table_option_rest_reach(ts, s.spec_pos()));
    let mut opts: Vec<Json> = Vec::new();
    proof {
        crate::json::lemma_view_arr_push(opts@, first);
    }
    opts.push(first);
    assert(crate::json::view_arr(opts@) =~= seq![first@]);
    loop
        invariant
            frame(*old(s), *s),
            s.spec_tokens() == ts,
            s.spec_pos() > start,
            start == old(s).spec_pos(),
            table_option_list(ts, s.spec_pos(), crate::json::view_arr(opts@)) == target,
            mx(s.spec_furthest(), table_option_rest_reach(ts, s.spec_pos())) == g,
        ensures
            target == (s.spec_pos(), crate::json::view_arr(opts@)),
            s.spec_furthest() == g,
        decreases s.spec_tokens().len() - s.spec_pos(),
    {
        let save = s.pos();
        // Separator: `( __ | _ , _ )`.
        let sep_ok = if s.ws1() {
            true
        } else {
            s.ws0();
            if s.eat(&TokenKind::Comma).is_some() {
                s.ws0();
                true
            } else {
                false
            }
        };
        if !sep_ok {
            s.set(save);
            break;
        }
        match o_create_table_option(s) {
            Some(o) => {
                proof {
                    crate::json::lemma_view_arr_push(opts@, o);
                }
                opts.push(o);
            },
            None => {
                s.set(save);
                break;
            },
        }
    }
    Some(node("P_CREATE_TABLE_OPTIONS", Json::Arr(opts)))
}

/// The keywords of the options whose value is a number.
pub open spec fn numeric_option_words() -> Seq<&'static str> {
    seq![
        "AUTO_INCREMENT",
        "AVG_ROW_LENGTH",
        "CHECKSUM",
        "DELAY_KEY_WRITE",
        "ENCRYPTION_KEY_ID",
        "KEY_BLOCK_SIZE",
        "MAX_ROWS",
        "MIN_ROWS",
        "PAGE_CHECKSUM",
        "TRANSACTIONAL",
    ]
}

/// The field names of the options whose value is a number.
pub open spec fn numeric_option_fields() -> Seq<&'static str> {
    seq![
        "autoincrement",
        "avgRowLength",
        "checksum",
        "delayKeyWrite",
        "encryptionKeyId",
        "keyBlockSize",
        "maxRows",
        "minRows",
        "pageChecksum",
        "transactional",
    ]
}

/// The keywords of the options whose value is a quoted string.
pub open spec fn quoted_option_words() -> Seq<&'static str> {
    seq!["COMMENT", "COMPRESSION", "CONNECTION", "ENCRYPTION", "PASSWORD"]
}

/// The field names of the options whose value is a quoted string.
pub open spec fn quoted_option_fields() -> Seq<&'static str> {
    seq!["comment", "compression", "connection", "encryption", "password"]
}

/// Keyword ( __ | = ) NUMBER options and their field names.
fn numeric_option(i: usize) -> (r: (&'static str, &'static str))
    requires
        i < 10,
    ensures
        r.0@ == numeric_option_words()[i as int]@,
        r.1@ == numeric_option_fields()[i as int]@,
{
    match i {
        0 => ("AUTO_INCREMENT", "autoincrement"),
        1 => ("AVG_ROW_LENGTH", "avgRowLength"),
        2 => ("CHECKSUM", "checksum"),
        3 => ("DELAY_KEY_WRITE", "delayKeyWrite"),
        4 => ("ENCRYPTION_KEY_ID", "encryptionKeyId"),
        5 => ("KEY_BLOCK_SIZE", "keyBlockSize"),
        6 => ("MAX_ROWS", "maxRows"),
        7 => ("MIN_ROWS", "minRows"),
        8 => ("PAGE_CHECKSUM", "pageChecksum"),
        _ => ("TRANSACTIONAL", "transactional"),
    }
}

/// Keyword ( __ | = ) quoted-string options and their field names.
fn quoted_option(i: usize) -> (r: (&'static str, &'static str))
    requires
        i < 5,
    ensures
        r.0@ == quoted_option_words()[i as int]@,
        r.1@ == quoted_option_fields()[i as int]@,
{
    match i {
        0 => ("COMMENT", "comment"),
        1 => ("COMPRESSION", "compression"),
        2 => ("CONNECTION", "connection"),
        3 => ("ENCRYPTION", "encryption"),
        _ => ("PASSWORD", "password"),
    }
}

/// An object `{ key: v }`.
pub open spec fn obj1_v(key: Seq<char>, v: JsonV) -> JsonV {
    JsonV::Obj(seq![(key, v)])
}

/// `kw ( __ | = ) n` at `p`, with `kw` and its field the `i`-th numeric
/// option or a later one: its end and `{ field: n }`.
pub open spec fn numeric_option_from(ts: Seq<SToken>, p: int, i: int) -> Option<(int, JsonV)>
    decreases 10 - i,
{
    if i < 0 || i >= 10 {
        None
    } else if is_keyword_at(ts, p, numeric_option_words()[i]@) && ws_eq_end(ts, p + 1) is Some && is_kind_at(
        ts,
        ws_eq_end(ts, p + 1)->Some_0,
        SKind::Number,
    ) {
        let q = ws_eq_end(ts, p + 1)->Some_0;
        Some((q + 1, obj1_v(numeric_option_fields()[i]@, JsonV::Num(ts[q].value))))
    } else {
        numeric_option_from(ts, p, i + 1)
    }
}

/// `kw ( __ | = ) 'text'` at `p`, with `kw` and its field the `i`-th quoted
/// option or a later one: its end and `{ field: text }`.
pub open spec fn quoted_option_from(ts: Seq<SToken>, p: int, i: int) -> Option<(int, JsonV)>
    decreases 5 - i,
{
    if i < 0 || i >= 5 {
        None
    } else if is_keyword_at(ts, p, quoted_option_words()[i]@) && ws_eq_end(ts, p + 1) is Some && 0 <= ws_eq_end(
        ts,
        p + 1,
    )->Some_0 < ts.len() && is_string_kind(ts[ws_eq_end(ts, p + 1)->Some_0].kind) {
        let q = ws_eq_end(ts, p + 1)->Some_0;
        Some((q + 1, obj1_v(quoted_option_fields()[i]@, JsonV::Str(ts[q].value))))
    } else {
        quoted_option_from(ts, p, i + 1)
    }
}

/// `(DATA | INDEX) __ DIRECTORY ( __ | = ) 'dir'` at `p`: its end and
/// `{ dataDirectory | indexDirectory: dir }`.
pub open spec fn directory_at(ts: Seq<SToken>, p: int) -> Option<(int, JsonV)> {
    if !(is_keyword_at(ts, p, "DATA"@) || is_keyword_at(ts, p, "INDEX"@)) {
        None
    } else {
        match ws1_end(ts, p + 1) {
            Some(a) => if is_keyword_at(ts, a, "DIRECTORY"@) {
                match ws_eq_end(ts, a + 1) {
                    Some(q) => if 0 <= q < ts.len() && is_string_kind(ts[q].kind) {
                        Some((q + 1, obj1_v(spec_to_lowercase(ts[p].value) + "Directory"@, JsonV::Str(ts[q].value))))
                    } else {
                        None
                    },
                    None => None,
                }
            } else {
                None
            },
            None => None,
        }
    }
}

/// The charset option at `p`.
pub open spec fn charset_option_at(ts: Seq<SToken>, p: int) -> Option<(int, JsonV)> {
    match charset_at(ts, p) {
        Some((e, v)) => Some((e, obj1_v("charset"@, JsonV::Str(v)))),
        None => None,
    }
}

/// The collation option at `p`.
pub open spec fn collate_option_at(ts: Seq<SToken>, p: int) -> Option<(int, JsonV)> {
    match collate_at(ts, p) {
        Some((e, v)) => Some((e, obj1_v("collation"@, JsonV::Str(v)))),
        None => None,
    }
}

/// The table options whose value is a number, charset, collation, quoted
/// string or directory, at `p`.
pub open spec fn valued_option_at(ts: Seq<SToken>, p: int) -> Option<(int, JsonV)> {
    first_of(
        numeric_option_from(ts, p, 0),
        first_of(
            charset_option_at(ts, p),
            first_of(collate_option_at(ts, p), first_of(quoted_option_from(ts, p, 0), directory_at(ts, p))),
        ),
    )
}

/// A table option at `p`: its end and `O_CREATE_TABLE_OPTION` node.
pub open spec fn table_option_at(ts: Seq<SToken>, p: int) -> Option<(int, JsonV)> {
    match first_of(valued_option_at(ts, p), keyword_option_at(ts, p)) {
        Some((e, v)) => Some((e, node_v("O_CREATE_TABLE_OPTION"@, v))),
        None => None,
    }
}

/// Parse one table option.
fn o_create_table_option(s: &mut Stream) -> (r: Option<Json>)
    ensures
        frame(*old(s), *final(s)),
        reached(*old(s), *final(s), table_option_reach(old(s).spec_tokens(), old(s).spec_pos())),
        r is Some ==> final(s).spec_pos() > old(s).spec_pos(),
        r is None ==> final(s).spec_pos() == old(s).spec_pos(),
        r matches Some(v) ==> is_node(v@, "O_CREATE_TABLE_OPTION"@),
        match table_option_at(old(s).spec_tokens(), old(s).spec_pos()) {
            Some((e, v)) => r matches Some(x) && x@ == v && final(s).spec_pos() == e,
            None => r is None,
        },
{
    if let Some(v) = table_option_valued(s) {
        return Some(node("O_CREATE_TABLE_OPTION", v));
    }
    if let Some(v) = table_option_keyword(s) {
        return Some(node("O_CREATE_TABLE_OPTION", v));
    }
    None
}

/// Options `kw ( __ | = ) n` for the numeric options.
fn numeric_table_option(s: &mut Stream) -> (r: Option<Json>)
    ensures
        frame(*old(s), *final(s)),
        reached(*old(s), *final(s), numeric_option_reach_from(old(s).spec_tokens(), old(s).spec_pos(), 0)),
        r is Some ==> final(s).spec_pos() > old(s).spec_pos(),
        r is None ==> final(s).spec_pos() == old(s).spec_pos(),
        match numeric_option_from(old(s).spec_tokens(), old(s).spec_pos(), 0) {
            Some((e, v)) => r matches Some(x) && x@ == v && final(s).spec_pos() == e,
            None => r is None,
        },
{
    let save = s.pos();
    let mut i: usize = 0;
    while i < 10
        invariant
            0 <= i <= 10,
            frame(*old(s), *s),
            s.spec_pos() == save,
            save == old(s).spec_pos(),
            numeric_option_from(s.spec_tokens(), save as int, 0) == numeric_option_from(
                s.spec_tokens(),
                save as int,
                i as int,
            ),
            mx(s.spec_furthest(), numeric_option_reach_from(s.spec_tokens(), save as int, i as int)) == mx(
                old(s).spec_furthest(),
                numeric_option_reach_from(s.spec_tokens(), save as int, 0),
            ),
        decreases 10 - i,
    {
        let (kw, field) = numeric_option(i);
        if s.eat_keyword(kw).is_some() {
            if ws_or_equals(s) {
                if let Some(n) = s_number(s) {
                    return Some(obj1(field, n));
                }
            }
            s.set(save);
        }
        i += 1;
    }
    None
}

/// Options `kw ( __ | = ) 'text'` for the quoted options.
fn quoted_table_option(s: &mut Stream) -> (r: Option<Json>)
    ensures
        frame(*old(s), *final(s)),
        reached(*old(s), *final(s), quoted_option_reach_from(old(s).spec_tokens(), old(s).spec_pos(), 0)),
        r is Some ==> final(s).spec_pos() > old(s).spec_pos(),
        r is None ==> final(s).spec_pos() == old(s).spec_pos(),
        match quoted_option_from(old(s).spec_tokens(), old(s).spec_pos(), 0) {
            Some((e, v)) => r matches Some(x) && x@ == v && final(s).spec_pos() == e,
            None => r is None,
        },
{
    let save = s.pos();
    let mut i: usize = 0;
    while i < 5
        invariant
            0 <= i <= 5,
            frame(*old(s), *s),
            s.spec_pos() == save,
            save == old(s).spec_pos(),
            quoted_option_from(s.spec_tokens(), save as int, 0) == quoted_option_from(
                s.spec_tokens(),
                save as int,
                i as int,
            ),
            mx(s.spec_furthest(), quoted_option_reach_from(s.spec_tokens(), save as int, i as int)) == mx(
                old(s).spec_furthest(),
                quoted_option_reach_from(s.spec_tokens(), save as int, 0),
            ),
        decreases 5 - i,
    {
        let (kw, field) = quoted_option(i);
        if s.eat_keyword(kw).is_some() {
            if ws_or_equals(s) {
                if let Some(v) = o_quoted_string(s) {
                    return Some(obj1(field, Json::Str(v)));
                }
            }
            s.set(save);
        }
        i += 1;
    }
    None
}

/// Table options whose value is a number, a charset, a collation, a quoted
/// string or a directory.
fn table_option_valued(s: &mut Stream) -> (r: Option<Json>)
    ensures
        frame(*old(s), *final(s)),
        reached(*old(s), *final(s), valued_option_reach(old(s).spec_tokens(), old(s).spec_pos())),
        r is Some ==> final(s).spec_pos() > old(s).spec_pos(),
        r is None ==> final(s).spec_pos() == old(s).spec_pos(),
        match valued_option_at(old(s).spec_tokens(), old(s).spec_pos()) {
            Some((e, v)) => r matches Some(x) && x@ == v && final(s).spec_pos() == e,
            None => r is None,
        },
{
    if let Some(v) = numeric_table_option(s) {
        return Some(v);
    }
    // [DEFAULT]? (CHARACTER SET | CHARSET) ( __ | = ) charset
    if let Some(v) = opt_charset(s) {
        return Some(obj1("charset", Json::Str(v)));
    }
    // [DEFAULT]? COLLATE ( __ | = ) collation
    if let Some(v) = opt_collate(s) {
        return Some(obj1("collation", Json::Str(v)));
    }
    if let Some(v) = quoted_table_option(s) {
        return Some(v);
    }
    // (DATA|INDEX) DIRECTORY ( __ | = ) string
    if let Some(v) = opt_directory(s) {
        return Some(v);
    }
    None
}

/// `kw ( __ | = ) word`, with `word` one of `words`, at `p`: its end and
/// `{ field: word }`.
pub open spec fn eq_choice_at(ts: Seq<SToken>, p: int, kw: Seq<char>, words: Seq<&str>, field: Seq<char>) -> Option<
    (int, JsonV),
> {
    if !is_keyword_at(ts, p, kw) {
        None
    } else {
        match ws_eq_end(ts, p + 1) {
            Some(q) => if one_of_at(ts, q, words) {
                Some((q + 1, obj1_v(field, JsonV::Str(ts[q].value))))
            } else {
                None
            },
            None => None,
        }
    }
}

/// A number, or the keyword `DEFAULT` as a string, at `p`.
pub open spec fn number_or_default_at(ts: Seq<SToken>, p: int) -> Option<JsonV> {
    if is_kind_at(ts, p, SKind::Number) {
        Some(JsonV::Num(ts[p].value))
    } else if is_keyword_at(ts, p, "DEFAULT"@) {
        Some(JsonV::Str(ts[p].value))
    } else {
        None
    }
}

/// `kw ( __ | = ) v` at `p`, where `v` is read by `value` (a number or
/// default when `numeric`, else any option value): its end and
/// `{ field: v }`.
pub open spec fn eq_value_at(ts: Seq<SToken>, p: int, kw: Seq<char>, numeric: bool, field: Seq<char>) -> Option<
    (int, JsonV),
> {
    if !is_keyword_at(ts, p, kw) {
        None
    } else {
        match ws_eq_end(ts, p + 1) {
            Some(q) => match (if numeric {
                number_or_default_at(ts, q)
            } else {
                option_value_at(ts, q)
            }) {
                Some(v) => Some((q + 1, obj1_v(field, v))),
                None => None,
            },
            None => None,
        }
    }
}

/// `ENGINE ( __ | = ) engine` at `p`.
pub open spec fn engine_at(ts: Seq<SToken>, p: int) -> Option<(int, JsonV)> {
    if !is_keyword_at(ts, p, "ENGINE"@) {
        None
    } else {
        match ws_eq_end(ts, p + 1) {
            Some(q) => match word_at(ts, q) {
                Some(v) => Some((q + 1, obj1_v("engine"@, JsonV::Str(v)))),
                None => None,
            },
            None => None,
        }
    }
}

/// The row formats.
pub open spec fn row_format_words() -> Seq<&'static str> {
    seq!["DEFAULT", "DYNAMIC", "FIXED", "COMPRESSED", "REDUNDANT", "COMPACT", "PAGE"]
}

/// The table options whose value is one of a few keywords, and the special
/// forms, at `p`.
pub open spec fn keyword_option_at(ts: Seq<SToken>, p: int) -> Option<(int, JsonV)> {
    first_of(
        eq_choice_at(ts, p, "IETF_QUOTES"@, seq!["YES", "NO"], "ietfQuotes"@),
        first_of(
            engine_at(ts, p),
            first_of(
                eq_choice_at(ts, p, "INSERT_METHOD"@, seq!["NO", "FIRST", "LAST"], "insertMethod"@),
                first_of(
                    eq_value_at(ts, p, "PACK_KEYS"@, true, "packKeys"@),
                    first_of(
                        eq_choice_at(ts, p, "ROW_FORMAT"@, row_format_words(), "rowFormat"@),
                        first_of(
                            eq_value_at(ts, p, "STATS_AUTO_RECALC"@, true, "statsAutoRecalc"@),
                            first_of(
                                eq_value_at(ts, p, "STATS_PERSISTENT"@, true, "statsPersistent"@),
                                first_of(
                                    eq_value_at(ts, p, "STATS_SAMPLE_PAGES"@, false, "statsSamplePages"@),
                                    special_option_at(ts, p),
                                ),
                            ),
                        ),
                    ),
                ),
            ),
        ),
    )
}

/// Parse `kw ( __ | = ) word` with `word` one of `words`.
fn eq_choice(s: &mut Stream, kw: &str, words: &[&str], field: &str) -> (r: Option<Json>)
    ensures
        frame(*old(s), *final(s)),
        reached(*old(s), *final(s), keyed_word_reach(old(s).spec_tokens(), old(s).spec_pos(), kw@, words@)),
        r is Some ==> final(s).spec_pos() > old(s).spec_pos(),
        r is None ==> final(s).spec_pos() == old(s).spec_pos(),
        match eq_choice_at(old(s).spec_tokens(), old(s).spec_pos(), kw@, words@, field@) {
            Some((e, v)) => r matches Some(x) && x@ == v && final(s).spec_pos() == e,
            None => r is None,
        },
{
    let save = s.pos();
    if s.eat_keyword(kw).is_some() {
        if ws_or_equals(s) {
            if let Some(v) = one_of_keywords(s, words) {
                return Some(obj1(field, Json::Str(v)));
            }
        }
        s.set(save);
    }
    None
}

/// Parse `kw ( __ | = ) (NUMBER | DEFAULT)` or, when not `numeric`,
/// `kw ( __ | = ) value`.
fn eq_value(s: &mut Stream, kw: &str, numeric: bool, field: &str) -> (r: Option<Json>)
    ensures
        frame(*old(s), *final(s)),
        reached(*old(s), *final(s), eq_value_reach(old(s).spec_tokens(), old(s).spec_pos(), kw@, numeric)),
        r is Some ==> final(s).spec_pos() > old(s).spec_pos(),
        r is None ==> final(s).spec_pos() == old(s).spec_pos(),
        match eq_value_at(old(s).spec_tokens(), old(s).spec_pos(), kw@, numeric, field@) {
            Some((e, v)) => r matches Some(x) && x@ == v && final(s).spec_pos() == e,
            None => r is None,
        },
{
    let save = s.pos();
    if s.eat_keyword(kw).is_some() {
        if ws_or_equals(s) {
            let v = if numeric {
                number_or_default(s)
            } else {
                o_table_option_value(s)
            };
            if let Some(v) = v {
                return Some(obj1(field, v));
            }
        }
        s.set(save);
    }
    None
}

/// Table options whose value is one of a few keywords, and the remaining
/// special forms.
#[verifier::rlimit(60)]
fn table_option_keyword(s: &mut Stream) -> (r: Option<Json>)
    ensures
        frame(*old(s), *final(s)),
        reached(*old(s), *final(s), keyword_option_reach(old(s).spec_tokens(), old(s).spec_pos())),
        r is Some ==> final(s).spec_pos() > old(s).spec_pos(),
        r is None ==> final(s).spec_pos() == old(s).spec_pos(),
        match keyword_option_at(old(s).spec_tokens(), old(s).spec_pos()) {
            Some((e, v)) => r matches Some(x) && x@ == v && final(s).spec_pos() == e,
            None => r is None,
        },
{
    let save = s.pos();
    // IETF_QUOTES ( __ | = ) (YES|NO)
    let yes_no: [&str; 2] = ["YES", "NO"];
    assert(yes_no@ =~= seq!["YES", "NO"]);
    if let Some(v) = eq_choice(s, "IETF_QUOTES", &yes_no, "ietfQuotes") {
        return Some(v);
    }
    // ENGINE ( __ | = ) engine
    if s.eat_keyword("ENGINE").is_some() {
        if ws_or_equals(s) {
            if let Some(v) = o_string_or_ident(s) {
                return Some(obj1("engine", Json::Str(v)));
            }
        }
        s.set(save);
    }
    // INSERT_METHOD ( __ | = ) (NO|FIRST|LAST)
    let methods: [&str; 3] = ["NO", "FIRST", "LAST"];
    assert(methods@ =~= seq!["NO", "FIRST", "LAST"]);
    if let Some(v) = eq_choice(s, "INSERT_METHOD", &methods, "insertMethod") {
        return Some(v);
    }
    // PACK_KEYS ( __ | = ) (NUMBER|DEFAULT)
    if let Some(v) = eq_value(s, "PACK_KEYS", true, "packKeys") {
        return Some(v);
    }
    // ROW_FORMAT ( __ | = ) (...)
    let formats: [&str; 7] = ["DEFAULT", "DYNAMIC", "FIXED", "COMPRESSED", "REDUNDANT", "COMPACT", "PAGE"];
    assert(formats@ =~= row_format_words());
    if let Some(v) = eq_choice(s, "ROW_FORMAT", &formats, "rowFormat") {
        return Some(v);
    }
    // STATS_AUTO_RECALC / STATS_PERSISTENT ( __ | = ) (NUMBER|DEFAULT)
    if let Some(v) = eq_value(s, "STATS_AUTO_RECALC", true, "statsAutoRecalc") {
        return Some(v);
    }
    if let Some(v) = eq_value(s, "STATS_PERSISTENT", true, "statsPersistent") {
        return Some(v);
    }
    // STATS_SAMPLE_PAGES ( __ | = ) value
    if let Some(v) = eq_value(s, "STATS_SAMPLE_PAGES", false, "statsSamplePages") {
        return Some(v);
    }
    table_option_special(s)
}

/// The storage words of a tablespace.
pub open spec fn tablespace_storage_words() -> Seq<&'static str> {
    seq!["DISK", "MEMORY", "DEFAULT"]
}

/// `TABLESPACE __ name [__ STORAGE __ (DISK | MEMORY | DEFAULT)]` at `p`.
pub open spec fn tablespace_at(ts: Seq<SToken>, p: int) -> Option<(int, JsonV)> {
    if !is_keyword_at(ts, p, "TABLESPACE"@) {
        None
    } else {
        match ws1_end(ts, p + 1) {
            Some(a) => match ident_at(ts, a) {
                Some(name) => {
                    let base = seq![("tablespaceName"@, JsonV::Str(name))];
                    match three_word_storage_at(ts, a + 1) {
                        Some(b) => Some(
                            (b + 1, JsonV::Obj(base.push(("tablespaceStorage"@, JsonV::Str(ts[b].value))))),
                        ),
                        None => Some((a + 1, JsonV::Obj(base))),
                    }
                },
                None => None,
            },
            None => None,
        }
    }
}

/// Where the storage word of `__ STORAGE __ word` from `p` stands.
pub open spec fn three_word_storage_at(ts: Seq<SToken>, p: int) -> Option<int> {
    match ws1_end(ts, p) {
        Some(a) => if is_keyword_at(ts, a, "STORAGE"@) {
            match ws1_end(ts, a + 1) {
                Some(b) => if one_of_at(ts, b, tablespace_storage_words()) {
                    Some(b)
                } else {
                    None
                },
                None => None,
            }
        } else {
            None
        },
        None => None,
    }
}

/// `WITH __ SYSTEM __ VERSIONING` at `p`.
pub open spec fn system_versioning_at(ts: Seq<SToken>, p: int) -> Option<(int, JsonV)> {
    if !is_keyword_at(ts, p, "WITH"@) {
        None
    } else {
        match ws1_end(ts, p + 1) {
            Some(a) => if is_keyword_at(ts, a, "SYSTEM"@) {
                match ws1_end(ts, a + 1) {
                    Some(b) => if is_keyword_at(ts, b, "VERSIONING"@) {
                        Some((b + 1, obj1_v("withSystemVersioning"@, JsonV::Bool(true))))
                    } else {
                        None
                    },
                    None => None,
                }
            } else {
                None
            },
            None => None,
        }
    }
}

/// `UNION ( __ | = ) ( names )` at `p`.
pub open spec fn union_at(ts: Seq<SToken>, p: int) -> Option<(int, JsonV)> {
    if !is_keyword_at(ts, p, "UNION"@) {
        None
    } else {
        match ws_eq_end(ts, p + 1) {
            Some(q) => match ident_list_at(ts, q) {
                Some((e, names)) => Some((e, obj1_v("union"@, str_arr_v(names)))),
                None => None,
            },
            None => None,
        }
    }
}

/// The system versioning, tablespace and union options at `p`.
pub open spec fn special_option_at(ts: Seq<SToken>, p: int) -> Option<(int, JsonV)> {
    first_of(system_versioning_at(ts, p), first_of(tablespace_at(ts, p), union_at(ts, p)))
}

/// WITH SYSTEM VERSIONING, TABLESPACE and UNION table options.
fn table_option_special(s: &mut Stream) -> (r: Option<Json>)
    ensures
        frame(*old(s), *final(s)),
        reached(*old(s), *final(s), special_option_reach(old(s).spec_tokens(), old(s).spec_pos())),
        r is Some ==> final(s).spec_pos() > old(s).spec_pos(),
        r is None ==> final(s).spec_pos() == old(s).spec_pos(),
        match special_option_at(old(s).spec_tokens(), old(s).spec_pos()) {
            Some((e, v)) => r matches Some(x) && x@ == v && final(s).spec_pos() == e,
            None => r is None,
        },
{
    let save = s.pos();
    // WITH SYSTEM VERSIONING
    if s.eat_keyword("WITH").is_some() {
        if s.ws1() && s.eat_keyword("SYSTEM").is_some() && s.ws1() && s.eat_keyword(
            "VERSIONING",
        ).is_some() {
            return Some(obj1("withSystemVersioning", Json::Bool(true)));
        }
        s.set(save);
    }
    // TABLESPACE ident [STORAGE ...]?
    if s.eat_keyword("TABLESPACE").is_some() {
        if s.ws1() {
            if let Some(name) = s_identifier(s) {
                let ghost nv = name@;
                let mut obj: Vec<(String, Json)> = Vec::new();
                put(&mut obj, "tablespaceName", Json::Str(name));
                let stsave = s.pos();
                let words: [&str; 3] = ["DISK", "MEMORY", "DEFAULT"];
                assert(words@ =~= tablespace_storage_words());
                if s.ws1() && s.eat_keyword("STORAGE").is_some() && s.ws1() {
                    if let Some(v) = one_of_keywords(s, &words) {
                        let ghost vv = v@;
                        put(&mut obj, "tablespaceStorage", Json::Str(v));
                        assert(crate::json::view_obj(obj@) =~= seq![
                            ("tablespaceName"@, JsonV::Str(nv)),
                            ("tablespaceStorage"@, JsonV::Str(vv)),
                        ]);
                    } else {
                        s.set(stsave);
                        assert(crate::json::view_obj(obj@) =~= seq![("tablespaceName"@, JsonV::Str(nv))]);
                    }
                } else {
                    s.set(stsave);
                    assert(crate::json::view_obj(obj@) =~= seq![("tablespaceName"@, JsonV::Str(nv))]);
                }
                return Some(Json::Obj(obj));
            }
        }
        s.set(save);
    }
    // UNION ( __ | = ) ( idents )
    if s.eat_keyword("UNION").is_some() {
        if ws_or_equals(s) {
            if let Some(list) = ident_list_parens(s) {
                let arr = crate::json::str_array(&list);
                assert(arr@ =~= str_arr_v(list@.map_values(|v: String| v@))) by {
                    assert(arr@->Arr_0 =~= list@.map_values(|v: String| v@).map_values(|x: Seq<char>| JsonV::Str(x)));
                }
                return Some(obj1("union", arr));
            }
        }
        s.set(save);
    }
    None
}

/// The value of a quoted string or identifier at `p`.
pub open spec fn word_at(ts: Seq<SToken>, p: int) -> Option<Seq<char>> {
    if 0 <= p < ts.len() && (is_string_kind(ts[p].kind) || is_ident_kind(ts[p].kind)) {
        Some(ts[p].value)
    } else {
        None
    }
}

/// Where an optional `DEFAULT __` at `p` ends.
pub open spec fn default_prefix_end(ts: Seq<SToken>, p: int) -> int {
    if is_keyword_at(ts, p, "DEFAULT"@) && ws1_end(ts, p + 1) is Some {
        ws1_end(ts, p + 1)->Some_0
    } else {
        p
    }
}

/// Where `CHARACTER __ SET` or `CHARSET` at `p` ends.
pub open spec fn charset_words_end(ts: Seq<SToken>, p: int) -> Option<int> {
    if is_keyword_at(ts, p, "CHARACTER"@) && ws1_end(ts, p + 1) is Some && is_keyword_at(
        ts,
        ws1_end(ts, p + 1)->Some_0,
        "SET"@,
    ) {
        Some(ws1_end(ts, p + 1)->Some_0 + 1)
    } else if is_keyword_at(ts, p, "CHARSET"@) {
        Some(p + 1)
    } else {
        None
    }
}

/// The end and value of `[DEFAULT] (CHARACTER SET | CHARSET) ( __ | = ) v`
/// at `p`.
pub open spec fn charset_at(ts: Seq<SToken>, p: int) -> Option<(int, Seq<char>)> {
    match charset_words_end(ts, default_prefix_end(ts, p)) {
        None => None,
        Some(p1) => match ws_eq_end(ts, p1) {
            None => None,
            Some(q) => match word_at(ts, q) {
                Some(v) => Some((q + 1, v)),
                None => None,
            },
        },
    }
}

/// The end and value of `[DEFAULT] COLLATE ( __ | = ) v` at `p`.
pub open spec fn collate_at(ts: Seq<SToken>, p: int) -> Option<(int, Seq<char>)> {
    let p0 = default_prefix_end(ts, p);
    if !is_keyword_at(ts, p0, "COLLATE"@) {
        None
    } else {
        match ws_eq_end(ts, p0 + 1) {
            None => None,
            Some(q) => match word_at(ts, q) {
                Some(v) => Some((q + 1, v)),
                None => None,
            },
        }
    }
}

/// Parse `(CHARACTER SET | CHARSET)`.
pub fn charset_words(s: &mut Stream) -> (r: bool)
    ensures
        frame(*old(s), *final(s)),
        reached(*old(s), *final(s), charset_words_reach(old(s).spec_tokens(), old(s).spec_pos())),
        match charset_words_end(old(s).spec_tokens(), old(s).spec_pos()) {
            Some(e) => r && final(s).spec_pos() == e,
            None => !r && final(s).spec_pos() == old(s).spec_pos(),
        },
{
    let msave = s.pos();
    if s.eat_keyword("CHARACTER").is_some() && s.ws1() && s.eat_keyword("SET").is_some() {
        true
    } else {
        s.set(msave);
        s.eat_keyword("CHARSET").is_some()
    }
}

/// Parse an optional `DEFAULT __`.
fn opt_default_prefix(s: &mut Stream)
    ensures
        frame(*old(s), *final(s)),
        reached(*old(s), *final(s), default_prefix_reach(old(s).spec_tokens(), old(s).spec_pos())),
        final(s).spec_pos() == default_prefix_end(old(s).spec_tokens(), old(s).spec_pos()),
{
    let save = s.pos();
    if s.eat_keyword("DEFAULT").is_some() && s.ws1() {
    } else {
        s.set(save);
    }
}

/// Parse `[DEFAULT]? (CHARACTER SET | CHARSET) ( __ | = ) charset`.
pub fn opt_charset(s: &mut Stream) -> (r: Option<String>)
    ensures
        frame(*old(s), *final(s)),
        reached(*old(s), *final(s), charset_reach(old(s).spec_tokens(), old(s).spec_pos())),
        r is Some ==> final(s).spec_pos() > old(s).spec_pos(),
        r is None ==> final(s).spec_pos() == old(s).spec_pos(),
        match charset_at(old(s).spec_tokens(), old(s).spec_pos()) {
            Some((e, v)) => r matches Some(x) && x@ == v && final(s).spec_pos() == e,
            None => r is None,
        },
{
    let save = s.pos();
    opt_default_prefix(s);
    if !charset_words(s) {
        s.set(save);
        return None;
    }
    if !ws_or_equals(s) {
        s.set(save);
        return None;
    }
    match o_string_or_ident(s) {
        Some(v) => Some(v),
        None => {
            s.set(save);
            None
        },
    }
}

/// Parse `[DEFAULT]? COLLATE ( __ | = ) collation`.
pub fn opt_collate(s: &mut Stream) -> (r: Option<String>)
    ensures
        frame(*old(s), *final(s)),
        reached(*old(s), *final(s), collate_reach(old(s).spec_tokens(), old(s).spec_pos())),
        r is Some ==> final(s).spec_pos() > old(s).spec_pos(),
        r is None ==> final(s).spec_pos() == old(s).spec_pos(),
        match collate_at(old(s).spec_tokens(), old(s).spec_pos()) {
            Some((e, v)) => r matches Some(x) && x@ == v && final(s).spec_pos() == e,
            None => r is None,
        },
{
    let save = s.pos();
    opt_default_prefix(s);
    if s.eat_keyword("COLLATE").is_none() {
        s.set(save);
        return None;
    }
    if !ws_or_equals(s) {
        s.set(save);
        return None;
    }
    match o_string_or_ident(s) {
        Some(v) => Some(v),
        None => {
            s.set(save);
            None
        },
    }
}

/// Parse `(DATA|INDEX) DIRECTORY ( __ | = ) string`.
fn opt_directory(s: &mut Stream) -> (r: Option<Json>)
    ensures
        frame(*old(s), *final(s)),
        reached(*old(s), *final(s), directory_reach(old(s).spec_tokens(), old(s).spec_pos())),
        r is Some ==> final(s).spec_pos() > old(s).spec_pos(),
        r is None ==> final(s).spec_pos() == old(s).spec_pos(),
        match directory_at(old(s).spec_tokens(), old(s).spec_pos()) {
            Some((e, v)) => r matches Some(x) && x@ == v && final(s).spec_pos() == e,
            None => r is None,
        },
{
    let save = s.pos();
    let kind = match s.eat_keyword("DATA") {
        Some(v) => v,
        None => match s.eat_keyword("INDEX") {
            Some(v) => v,
            None => return None,
        },
    };
    if !s.ws1() {
        s.set(save);
        return None;
    }
    if s.eat_keyword("DIRECTORY").is_none() {
        s.set(save);
        return None;
    }
    if !ws_or_equals(s) {
        s.set(save);
        return None;
    }
    match o_quoted_string(s) {
        Some(v) => {
            let lower = to_lowercase(kind.as_str());
            let key = concat2(lower.as_str(), "Directory");
            Some(obj1(key.as_str(), Json::Str(v)))
        },
        None => {
            s.set(save);
            None
        },
    }
}

/// Parse `NUMBER | DEFAULT`. Numbers stay numeric, DEFAULT stays a string.
fn number_or_default(s: &mut Stream) -> (r: Option<Json>)
    ensures
        frame(*old(s), *final(s)),
        reached(*old(s), *final(s), final(s).spec_pos()),
        r is Some ==> final(s).spec_pos() > old(s).spec_pos(),
        r is None ==> final(s).spec_pos() == old(s).spec_pos(),
        match number_or_default_at(old(s).spec_tokens(), old(s).spec_pos()) {
            Some(v) => r matches Some(x) && x@ == v && final(s).spec_pos() == old(s).spec_pos() + 1,
            None => r is None,
        },
{
    if let Some(n) = s_number(s) {
        return Some(n);
    }
    match s.eat_keyword("DEFAULT") {
        Some(d) => Some(Json::Str(d)),
        None => None,
    }
}

/// The further names `, name` from `p`, after `acc`.
pub open spec fn ident_list_rest(ts: Seq<SToken>, p: int, acc: Seq<Seq<char>>) -> (int, Seq<Seq<char>>)
    decreases ts.len() - p,
{
    let a = ws_end(ts, p);
    let b = ws_end(ts, a + 1);
    if p >= 0 && is_kind_at(ts, a, SKind::Comma) && ident_at(ts, b) is Some && p < b + 1 <= ts.len() {
        ident_list_rest(ts, b + 1, acc.push(ident_at(ts, b)->Some_0))
    } else {
        (p, acc)
    }
}

/// A list `( _ name , ... _ )` at `p`: its end and the names.
pub open spec fn ident_list_at(ts: Seq<SToken>, p: int) -> Option<(int, Seq<Seq<char>>)> {
    let b = ws_end(ts, p + 1);
    if is_kind_at(ts, p, SKind::LParens) && ident_at(ts, b) is Some {
        let (e, names) = ident_list_rest(ts, b + 1, seq![ident_at(ts, b)->Some_0]);
        let f = ws_end(ts, e);
        if is_kind_at(ts, f, SKind::RParens) {
            Some((f + 1, names))
        } else {
            None
        }
    } else {
        None
    }
}

/// Parse `( ident (, ident)* )`.
pub fn ident_list_parens(s: &mut Stream) -> (r: Option<Vec<String>>)
    ensures
        frame(*old(s), *final(s)),
        reached(*old(s), *final(s), ident_list_reach(old(s).spec_tokens(), old(s).spec_pos())),
        r is Some ==> final(s).spec_pos() > old(s).spec_pos(),
        r is None ==> final(s).spec_pos() == old(s).spec_pos(),
        match ident_list_at(old(s).spec_tokens(), old(s).spec_pos()) {
            Some((e, names)) => r matches Some(x) && x@.map_values(|v: String| v@) == names
                && final(s).spec_pos() == e,
            None => r is None,
        },
{
    let ghost ts = s.spec_tokens();
    let save = s.pos();
    if s.eat(&TokenKind::LParens).is_none() {
        return None;
    }
    s.ws0();
    let first = match s_identifier(s) {
        Some(v) => v,
        None => {
            s.set(save);
            return None;
        },
    };
    let ghost target = ident_list_rest(ts, s.spec_pos(), seq![first@]);
    let ghost g = mx(s.spec_furthest(), ident_list_rest_reach(ts, s.spec_pos()));
    let mut list: Vec<String> = Vec::new();
    list.push(first);
    assert(list@.map_values(|v: String| v@) =~= seq![first@]);
    loop
        invariant
            frame(*old(s), *s),
            s.spec_tokens() == ts,
            save == old(s).spec_pos(),
            s.spec_pos() > save,
            ident_list_rest(ts, s.spec_pos(), list@.map_values(|v: String| v@)) == target,
            mx(s.spec_furthest(), ident_list_rest_reach(ts, s.spec_pos())) == g,
        ensures
            target == (s.spec_pos(), list@.map_values(|v: String| v@)),
            s.spec_furthest() == g,
        decreases s.spec_tokens().len() - s.spec_pos(),
    {
        let item = s.pos();
        s.ws0();
        if s.eat(&TokenKind::Comma).is_none() {
            s.set(item);
            break;
        }
        s.ws0();
        match s_identifier(s) {
            Some(v) => {
                let ghost old_list = list@;
                list.push(v);
                assert(list@.map_values(|v: String| v@) =~= old_list.map_values(|v: String| v@).push(v@));
            },
            None => {
                s.set(item);
                break;
            },
        }
    }
    s.ws0();
    if s.eat(&TokenKind::RParens).is_none() {
        s.set(save);
        return None;
    }
    Some(list)
}

} // verus!
